//! Blob columns whose longer blobs live in the object store: how one is filled, and how
//! one is read back.

use crate::codec::{hex_bytes, hex_decode, hex_error_text};
use crate::error::{Error, ErrorView};
use crate::r2::{should_use_r2, THRESHOLD};
use crate::sql::query::{
    blob_param, blob_value, bytes_of, Param, Query, QueryView, SqlValue,
};
use crate::storage::upsert::{inline_blob_bind, inline_bytes, overflows, slice_bytes};
use crate::text::{decimal, decimal_text, same_text};
use crate::time::Timestamp;
use vstd::prelude::*;
use vstd::slice::slice_to_vec;

verus! {

/// The prefix of the id column of a table that holds such blobs.
pub open spec fn pk_prefix(table: Seq<char>) -> Seq<char> {
    if table == "transactions"@ {
        "transaction"@
    } else if table == "outputs"@ {
        "output"@
    } else if table == "proven_tx_reqs"@ {
        "proven_tx_req"@
    } else if table == "proven_txs"@ {
        "proven_tx"@
    } else {
        ""@
    }
}

/// The prefix of the id column of a table that holds such blobs, nothing for another table.
pub fn table_pk_prefix(table: &str) -> (prefix: &'static str)
    ensures
        prefix@ == pk_prefix(table@),
{
    if same_text(table, "transactions") {
        "transaction"
    } else if same_text(table, "outputs") {
        "output"
    } else if same_text(table, "proven_tx_reqs") {
        "proven_tx_req"
    } else if same_text(table, "proven_txs") {
        "proven_tx"
    } else {
        ""
    }
}

// ---------------------------------------------------------------------------
// Filling
// ---------------------------------------------------------------------------

/// A blob that is to fill a column of a row.
#[verifier::ext_equal]
pub struct BlobWriteView {
    pub table: Seq<char>,
    pub id: i64,
    pub column: Seq<char>,
    pub bytes: Seq<u8>,
    pub updated_at: Timestamp,
    pub also_updated: bool,
}

/// A blob that is to fill a column of a row. With `also_updated` the row's `updated_at` is
/// stamped too.
#[derive(Debug, PartialEq, Eq)]
pub struct BlobWrite {
    pub table: String,
    pub id: i64,
    pub column: String,
    pub bytes: Vec<u8>,
    pub updated_at: Timestamp,
    pub also_updated: bool,
}

impl View for BlobWrite {
    type V = BlobWriteView;

    open spec fn view(&self) -> BlobWriteView {
        BlobWriteView {
            table: self.table@,
            id: self.id,
            column: self.column@,
            bytes: self.bytes@,
            updated_at: self.updated_at,
            also_updated: self.also_updated,
        }
    }
}

/// What filling a column takes next.
#[verifier::ext_equal]
pub enum BlobStepView {
    Settled,
    ReadInline { query: QueryView, write: BlobWriteView },
    AskStore { write: BlobWriteView },
    Put { write: BlobWriteView },
    Write { query: QueryView },
}

/// What filling a column takes next.
#[derive(Debug, PartialEq, Eq)]
pub enum BlobStep {
    /// Nothing is left to do.
    Settled,
    /// Read what the column holds, in hexadecimal.
    ReadInline { query: Query, write: BlobWrite },
    /// Ask the object store whether it holds the blob.
    AskStore { write: BlobWrite },
    /// Put the blob in the object store.
    Put { write: BlobWrite },
    /// Write the column; nothing is left to do after that.
    Write { query: Query },
}

impl View for BlobStep {
    type V = BlobStepView;

    open spec fn view(&self) -> BlobStepView {
        match self {
            BlobStep::Settled => BlobStepView::Settled,
            BlobStep::ReadInline { query, write } => BlobStepView::ReadInline {
                query: query@,
                write: write@,
            },
            BlobStep::AskStore { write } => BlobStepView::AskStore { write: write@ },
            BlobStep::Put { write } => BlobStepView::Put { write: write@ },
            BlobStep::Write { query } => BlobStepView::Write { query: query@ },
        }
    }
}

impl BlobWriteView {
    /// The statement that reads the column in hexadecimal.
    pub open spec fn probe(self) -> QueryView {
        QueryView {
            sql: "SELECT hex("@ + self.column + ") AS v FROM "@ + self.table + " WHERE "@
                + pk_prefix(self.table) + "_id = ?"@,
            params: seq![SqlValue::Int(self.id as int)],
        }
    }

    /// The statement that writes the column where it is still empty.
    pub open spec fn fill(self, value: Option<Seq<u8>>) -> QueryView {
        QueryView {
            sql: "UPDATE "@ + self.table + " SET "@ + self.column + (if self.also_updated {
                " = ?, updated_at = ? WHERE "@
            } else {
                " = ? WHERE "@
            }) + pk_prefix(self.table) + "_id = ? AND ("@ + self.column + " IS NULL OR length("@
                + self.column + ") = 0)"@,
            params: if self.also_updated {
                seq![
                    blob_value(value),
                    SqlValue::Time(self.updated_at),
                    SqlValue::Int(self.id as int),
                ]
            } else {
                seq![blob_value(value), SqlValue::Int(self.id as int)]
            },
        }
    }

    /// The step after the column was read: nothing where it holds a blob, and the question
    /// to the object store where it is empty or the row is not there.
    pub open spec fn after_inline(self, hex: Option<String>) -> BlobStepView {
        match hex {
            Some(h) => if h@.len() > 0 {
                BlobStepView::Settled
            } else {
                BlobStepView::AskStore { write: self }
            },
            None => BlobStepView::AskStore { write: self },
        }
    }

    /// The step after the object store answered: nothing where it holds the blob. Else a
    /// blob that is too long for its column is put in the object store first.
    pub open spec fn after_store(self, exists: bool) -> BlobStepView {
        if exists {
            BlobStepView::Settled
        } else if overflows(Some(self.bytes)) {
            BlobStepView::Put { write: self }
        } else {
            self.finished()
        }
    }

    /// The last step: the column gets a blob that is short enough, and `NULL` for one that
    /// was put in the object store.
    pub open spec fn finished(self) -> BlobStepView {
        BlobStepView::Write { query: self.fill(inline_bytes(Some(self.bytes))) }
    }
}

/// Starts to fill a column. A blob that is missing fills nothing.
pub fn put_blob_column(
    table: &str,
    id: i64,
    column: &str,
    data: Option<&[u8]>,
    updated_at: Timestamp,
    also_updated: bool,
) -> (step: BlobStep)
    ensures
        step@ == (match slice_bytes(data) {
            Some(bytes) => {
                let write = BlobWriteView {
                    table: table@,
                    id,
                    column: column@,
                    bytes,
                    updated_at,
                    also_updated,
                };
                BlobStepView::ReadInline { query: write.probe(), write }
            },
            None => BlobStepView::Settled,
        }),
{
    match data {
        Some(bytes) => BlobWrite {
            table: table.to_owned(),
            id,
            column: column.to_owned(),
            bytes: slice_to_vec(bytes),
            updated_at,
            also_updated,
        }.start(),
        None => BlobStep::Settled,
    }
}

impl BlobWrite {
    /// Reads the column first.
    pub fn start(self) -> (step: BlobStep)
        ensures
            step@ == (BlobStepView::ReadInline { query: self@.probe(), write: self@ }),
    {
        let mut sql = "SELECT hex(".to_owned();
        sql.append(self.column.as_str());
        sql.append(") AS v FROM ");
        sql.append(self.table.as_str());
        sql.append(" WHERE ");
        sql.append(table_pk_prefix(self.table.as_str()));
        sql.append("_id = ?");
        let query = Query { sql, params: vec![Param::Int(self.id)] };
        assert(query@ =~= self@.probe());
        BlobStep::ReadInline { query, write: self }
    }

    /// Goes on with what the column holds, where there is such a row and it is not `NULL`.
    pub fn after_inline(self, hex: Option<String>) -> (step: BlobStep)
        ensures
            step@ == self@.after_inline(hex),
    {
        match hex {
            Some(h) => {
                if h.as_str().is_empty() {
                    BlobStep::AskStore { write: self }
                } else {
                    BlobStep::Settled
                }
            },
            None => BlobStep::AskStore { write: self },
        }
    }

    /// Goes on with whether the object store holds the blob.
    pub fn after_store(self, exists: bool) -> (step: BlobStep)
        ensures
            step@ == self@.after_store(exists),
    {
        if exists {
            BlobStep::Settled
        } else if should_use_r2(self.bytes.as_slice()) {
            BlobStep::Put { write: self }
        } else {
            self.finish()
        }
    }

    /// Goes on once a blob that is too long for its column was put in the object store.
    pub fn finish(self) -> (step: BlobStep)
        ensures
            step@ == self@.finished(),
    {
        let value = inline_blob_bind(Some(self.bytes.as_slice()));
        let ghost stored = bytes_of(value);
        let mut sql = "UPDATE ".to_owned();
        sql.append(self.table.as_str());
        sql.append(" SET ");
        sql.append(self.column.as_str());
        if self.also_updated {
            sql.append(" = ?, updated_at = ? WHERE ");
        } else {
            sql.append(" = ? WHERE ");
        }
        sql.append(table_pk_prefix(self.table.as_str()));
        sql.append("_id = ? AND (");
        sql.append(self.column.as_str());
        sql.append(" IS NULL OR length(");
        sql.append(self.column.as_str());
        sql.append(") = 0)");
        let mut params = vec![blob_param(value)];
        if self.also_updated {
            params.push(Param::Time(self.updated_at));
        }
        params.push(Param::Int(self.id));
        let query = Query { sql, params };
        assert(query@ =~= self@.fill(stored));
        BlobStep::Write { query }
    }
}

/// A blob that is there, in its column or in the object store, is never written over: only
/// an empty column and an empty place in the object store lead to a write.
pub proof fn a_populated_blob_is_never_written(
    write: BlobWriteView,
    hex: Option<String>,
    exists: bool,
)
    ensures
        hex is Some && hex->0@.len() > 0 ==> write.after_inline(hex) is Settled,
        exists ==> write.after_store(exists) is Settled,
        write.after_inline(hex) is AskStore <==> !(hex is Some && hex->0@.len() > 0),
        write.after_store(exists) is Put <==> !exists && overflows(Some(write.bytes)),
        write.after_store(exists) is Settled <==> exists,
{
}

/// A blob of up to the threshold goes in its column and nothing is put; a longer one is put
/// in the object store, and its column gets `NULL`.
pub proof fn a_blob_is_kept_in_one_place(write: BlobWriteView)
    ensures
        write.bytes.len() <= THRESHOLD ==> write.after_store(false) == (BlobStepView::Write {
            query: write.fill(Some(write.bytes)),
        }),
        write.bytes.len() > THRESHOLD ==> write.after_store(false) == (BlobStepView::Put {
            write,
        }) && write.finished() == (BlobStepView::Write { query: write.fill(None) }),
{
}

// ---------------------------------------------------------------------------
// Reading
// ---------------------------------------------------------------------------

/// Where the bytes of a blob column are.
#[verifier::ext_equal]
pub enum BlobSourceView {
    Inline(Seq<u8>),
    Store { table: Seq<char>, id: i64, column: Seq<char> },
    Missing,
}

/// Where the bytes of a blob column are.
#[derive(Debug, PartialEq, Eq)]
pub enum BlobSource {
    /// In the column.
    Inline(Vec<u8>),
    /// In the object store, if anywhere.
    Store { table: String, id: i64, column: String },
    /// Nowhere.
    Missing,
}

impl View for BlobSource {
    type V = BlobSourceView;

    open spec fn view(&self) -> BlobSourceView {
        match self {
            BlobSource::Inline(bytes) => BlobSourceView::Inline(bytes@),
            BlobSource::Store { table, id, column } => BlobSourceView::Store {
                table: table@,
                id: *id,
                column: column@,
            },
            BlobSource::Missing => BlobSourceView::Missing,
        }
    }
}

/// The message for a column that does not hold hexadecimal digits.
pub open spec fn bad_hex_text(table: Seq<char>, id: i64, column: Seq<char>, why: Seq<char>) -> Seq<
    char,
> {
    "Bad hex in "@ + table + "."@ + column + " (id="@ + decimal_text(id as int) + "): "@ + why
}

/// The blob that a column holds, given what its hexadecimal text decodes to.
pub fn inline_blob(
    table: &str,
    id: i64,
    column: &str,
    decoded: Result<Vec<u8>, String>,
) -> (source: Result<BlobSource, Error>)
    ensures
        match decoded {
            Ok(bytes) => source matches Ok(s) && s@ == BlobSourceView::Inline(bytes@),
            Err(why) => source matches Err(e) && e@ == ErrorView::InternalError(
                bad_hex_text(table@, id, column@, why@),
            ),
        },
{
    match decoded {
        Ok(bytes) => Ok(BlobSource::Inline(bytes)),
        Err(why) => {
            let mut message = "Bad hex in ".to_owned();
            message.append(table);
            message.append(".");
            message.append(column);
            message.append(" (id=");
            message.append(decimal(id).as_str());
            message.append("): ");
            message.append(why.as_str());
            Err(Error::InternalError(message))
        },
    }
}

/// Where the bytes of a blob column are, given its hexadecimal text: in the text where there
/// is one, else in the object store for a row with an id.
pub open spec fn blob_source(
    table: Seq<char>,
    id: i64,
    column: Seq<char>,
    hex: Option<String>,
) -> Result<BlobSourceView, ErrorView> {
    if hex is Some && hex->0@.len() > 0 {
        match hex_bytes(hex->0@) {
            Some(bytes) => Ok(BlobSourceView::Inline(bytes)),
            None => Err(
                ErrorView::InternalError(
                    bad_hex_text(table, id, column, hex_error_text(hex->0@)),
                ),
            ),
        }
    } else if id > 0 {
        Ok(BlobSourceView::Store { table, id, column })
    } else {
        Ok(BlobSourceView::Missing)
    }
}

/// What a result stands for.
pub open spec fn source_view(source: Result<BlobSource, Error>) -> Result<
    BlobSourceView,
    ErrorView,
> {
    match source {
        Ok(s) => Ok(s@),
        Err(e) => Err(e@),
    }
}

/// Finds the bytes of a blob column.
pub fn decode_blob_with_r2(table: &str, id: i64, column: &str, hex_from_d1: &Option<String>) -> (
    source: Result<BlobSource, Error>)
    ensures
        source_view(source) == blob_source(table@, id, column@, *hex_from_d1),
{
    if let Some(hex) = hex_from_d1 {
        if !hex.as_str().is_empty() {
            return inline_blob(table, id, column, hex_decode(hex.as_str()));
        }
    }
    if id > 0 {
        Ok(BlobSource::Store { table: table.to_owned(), id, column: column.to_owned() })
    } else {
        Ok(BlobSource::Missing)
    }
}

} // verus!
