//! Where blobs go and where they are read, said of their bytes and of their rows.

use crate::codec::{hex_bytes, hex_error_text, hex_text};
use crate::dispatch_laws::hexadecimal_gives_back_its_bytes;
use crate::error::ErrorView;
use crate::http_laws::decimal_is_read_back;
use crate::r2::object_key_text;
use crate::sql::query::SqlValue;
use crate::storage::apply::output_key;
use crate::storage::blob_column::{
    blob_source, pk_prefix, BlobSourceView, BlobStepView, BlobWriteView,
};
use crate::text::{decimal_nat, decimal_text};
use vstd::prelude::*;

verus! {

// ---------------------------------------------------------------------------
// Filling
// ---------------------------------------------------------------------------

/// The tables with blobs have their id columns.
pub proof fn tables_have_their_ids()
    ensures
        pk_prefix("transactions"@) == "transaction"@,
        pk_prefix("outputs"@) == "output"@,
        pk_prefix("proven_tx_reqs"@) == "proven_tx_req"@,
        pk_prefix("proven_txs"@) == "proven_tx"@,
{
    reveal_strlit("transactions");
    reveal_strlit("outputs");
    reveal_strlit("proven_tx_reqs");
    reveal_strlit("proven_txs");
    assert("transactions"@.len() == 12 && "outputs"@.len() == 7 && "proven_tx_reqs"@.len() == 14
        && "proven_txs"@.len() == 10);
}

/// A column is read in the row that is to be filled, and it is written there only where it is
/// still empty, whatever else is written with it: the blob first, then the instant where the
/// row is stamped, and the row by its id.
pub proof fn a_fill_is_of_its_row(write: BlobWriteView, value: Option<Seq<u8>>)
    ensures
        write.probe().params == seq![SqlValue::Int(write.id as int)],
        write.probe().sql == "SELECT hex("@ + write.column + ") AS v FROM "@ + write.table
            + " WHERE "@ + pk_prefix(write.table) + "_id = ?"@,
        ({
            let q = write.fill(value);
            let n = q.params.len() as int;
            &&& n == if write.also_updated {
                3int
            } else {
                2int
            }
            &&& q.params[0] == match value {
                Some(bytes) => SqlValue::Blob(bytes),
                None => SqlValue::Null,
            }
            &&& q.params[n - 1] == SqlValue::Int(write.id as int)
            &&& write.also_updated ==> q.params[1] == SqlValue::Time(write.updated_at)
            &&& q.sql == "UPDATE "@ + write.table + " SET "@ + write.column + (
            if write.also_updated {
                " = ?, updated_at = ? WHERE "@
            } else {
                " = ? WHERE "@
            }) + pk_prefix(write.table) + "_id = ? AND ("@ + write.column
                + " IS NULL OR length("@ + write.column + ") = 0)"@
        }),
{
}

/// A blob is looked for before it is written. A column that holds bytes ends the matter, and
/// so does an object in the store; else a blob of up to 4096 bytes is written in its column,
/// and a longer one is put in the store, after which its column is written as `NULL`.
pub proof fn a_blob_goes_where_nothing_is(
    write: BlobWriteView,
    hex: Option<String>,
    exists: bool,
)
    ensures
        hex matches Some(h) && h@.len() > 0 ==> write.after_inline(hex) == BlobStepView::Settled,
        (hex matches Some(h) ==> h@.len() == 0) ==> write.after_inline(hex) == (
        BlobStepView::AskStore { write }),
        write.after_store(true) == BlobStepView::Settled,
        write.bytes.len() <= 4096 ==> write.after_store(false) == (BlobStepView::Write {
            query: write.fill(Some(write.bytes)),
        }),
        write.bytes.len() > 4096 ==> write.after_store(false) == (BlobStepView::Put { write }),
        write.bytes.len() > 4096 ==> write.finished() == (BlobStepView::Write {
            query: write.fill(None),
        }),
{
}

// ---------------------------------------------------------------------------
// Reading
// ---------------------------------------------------------------------------

/// A column with text is read from that text, one without from the store where the row has an
/// id; text that is no hexadecimal is an error that names the column.
pub proof fn a_blob_is_read_from_its_column(
    table: Seq<char>,
    id: i64,
    column: Seq<char>,
    hex: Option<String>,
    bytes: Seq<u8>,
)
    ensures
        hex matches Some(h) && h@.len() > 0 && hex_bytes(h@) == Some(bytes) ==> blob_source(
            table,
            id,
            column,
            hex,
        ) == Ok::<BlobSourceView, ErrorView>(BlobSourceView::Inline(bytes)),
        hex matches Some(h) && h@.len() > 0 && hex_bytes(h@) is None ==> blob_source(
            table,
            id,
            column,
            hex,
        ) == Err::<BlobSourceView, ErrorView>(
            ErrorView::InternalError(
                "Bad hex in "@ + table + "."@ + column + " (id="@ + decimal_text(id as int)
                    + "): "@ + hex_error_text(hex->0@),
            ),
        ),
        (hex matches Some(h) ==> h@.len() == 0) && id > 0 ==> blob_source(table, id, column, hex)
            == Ok::<BlobSourceView, ErrorView>(BlobSourceView::Store { table, id, column }),
        (hex matches Some(h) ==> h@.len() == 0) && id <= 0 ==> blob_source(table, id, column, hex)
            == Ok::<BlobSourceView, ErrorView>(BlobSourceView::Missing),
{
}

/// A blob is read where it was written: the hexadecimal text of bytes in a column gives those
/// bytes, and a column that is empty because the blob is in the store leads to the object of
/// that very column.
pub proof fn a_blob_is_read_where_it_was_written(
    write: BlobWriteView,
    hex: String,
)
    requires
        write.bytes.len() > 0,
        write.id > 0,
        hex@ == hex_text(write.bytes),
    ensures
        blob_source(write.table, write.id, write.column, Some(hex)) == Ok::<
            BlobSourceView,
            ErrorView,
        >(BlobSourceView::Inline(write.bytes)),
        blob_source(write.table, write.id, write.column, None) == Ok::<BlobSourceView, ErrorView>(
            BlobSourceView::Store { table: write.table, id: write.id, column: write.column },
        ),
{
    hexadecimal_gives_back_its_bytes(write.bytes);
}

// ---------------------------------------------------------------------------
// Keys
// ---------------------------------------------------------------------------

/// An integer is written with the digits of its size, and a minus in front exactly where it is
/// negative; so no two integers are written the same.
pub proof fn integers_are_told_apart(a: int, b: int)
    ensures
        a >= 0 ==> decimal_text(a) == decimal_nat(a as nat),
        a < 0 ==> decimal_text(a) == "-"@ + decimal_nat((-a) as nat),
        decimal_text(a) == decimal_text(b) ==> a == b,
        forall|i: int|
            0 <= i < decimal_text(a).len() ==> #[trigger] decimal_text(a)[i] == '-' || '0'
                <= decimal_text(a)[i] <= '9',
{
    reveal_strlit("-");
    let x = if a < 0 {
        -a
    } else {
        a
    };
    let y = if b < 0 {
        -b
    } else {
        b
    };
    decimal_is_read_back(x as nat);
    decimal_is_read_back(y as nat);
    let p = decimal_nat(x as nat);
    let q = decimal_nat(y as nat);
    assert('0' <= p[0] <= '9' && '0' <= q[0] <= '9');
    if a < 0 {
        assert(decimal_text(a)[0] == '-');
        assert(decimal_text(a).skip(1) =~= p);
    }
    if b < 0 {
        assert(decimal_text(b)[0] == '-');
        assert(decimal_text(b).skip(1) =~= q);
    }
    assert forall|i: int| 0 <= i < decimal_text(a).len() implies #[trigger] decimal_text(a)[i]
        == '-' || '0' <= decimal_text(a)[i] <= '9' by {
        if a < 0 && i > 0 {
            assert(decimal_text(a)[i] == p[i - 1]);
        }
    }
}

proof fn parts_are_told_apart(a: int, x: Seq<char>, b: int, y: Seq<char>, c: char)
    requires
        c != '-',
        !('0' <= c <= '9'),
        decimal_text(a) + seq![c] + x == decimal_text(b) + seq![c] + y,
    ensures
        a == b,
        x == y,
{
    let p = decimal_text(a);
    let q = decimal_text(b);
    integers_are_told_apart(a, b);
    integers_are_told_apart(b, a);
    let s = p + seq![c] + x;
    let t = q + seq![c] + y;
    assert(s[p.len() as int] == c);
    assert(t[q.len() as int] == c);
    if p.len() < q.len() {
        assert(t[p.len() as int] == q[p.len() as int]);
    } else if q.len() < p.len() {
        assert(s[q.len() as int] == p[q.len() as int]);
    } else {
        assert(p =~= s.take(p.len() as int));
        assert(q =~= t.take(q.len() as int));
        assert(x =~= s.skip(p.len() as int + 1));
        assert(y =~= t.skip(q.len() as int + 1));
    }
}

/// The key of an output is its transaction and its place, and that of an object its table, its
/// row and its column.
pub proof fn keys_are_made_of_their_parts(
    tx_id: i64,
    vout: i32,
    table: Seq<char>,
    id: int,
    column: Seq<char>,
)
    ensures
        output_key(tx_id, vout) == decimal_text(tx_id as int) + ":"@ + decimal_text(vout as int),
        object_key_text(table, id, column) == table + "/"@ + decimal_text(id) + "/"@ + column,
{
}

/// Two outputs never share a key: it tells the transaction and the place.
pub proof fn outputs_do_not_share_keys(a: i64, i: i32, b: i64, j: i32)
    requires
        output_key(a, i) == output_key(b, j),
    ensures
        a == b,
        i == j,
{
    reveal_strlit(":");
    assert(":"@ =~= seq![':']);
    parts_are_told_apart(
        a as int,
        decimal_text(i as int),
        b as int,
        decimal_text(j as int),
        ':',
    );
    integers_are_told_apart(i as int, j as int);
}

/// The objects of two rows of a table, or of two columns of a row, never share a key.
pub proof fn blobs_do_not_share_objects(
    table: Seq<char>,
    a: int,
    p: Seq<char>,
    b: int,
    q: Seq<char>,
)
    requires
        object_key_text(table, a, p) == object_key_text(table, b, q),
    ensures
        a == b,
        p == q,
{
    reveal_strlit("/");
    assert("/"@ =~= seq!['/']);
    let s = object_key_text(table, a, p);
    let t = object_key_text(table, b, q);
    let n = table.len() as int + 1;
    assert(s.skip(n) =~= decimal_text(a) + seq!['/'] + p);
    assert(t.skip(n) =~= decimal_text(b) + seq!['/'] + q);
    parts_are_told_apart(a, p, b, q, '/');
}

} // verus!
