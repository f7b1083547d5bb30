//! The batched merge of a sync chunk, step by step.
//!
//! The merge alternates decisions with work on the store. Each step says what is to be done
//! there; what came back is handed to the step's own method, which gives the next step.
//! Parents come before their children, so that a child finds the local id of its parent
//! among the ids that earlier batches returned.

use crate::entities::{
    TableCertificate, TableCertificateField, TableCommission, TableOutput, TableOutputBasket,
    TableOutputTag, TableOutputTagMap, TableProvenTx, TableProvenTxReq, TableTransaction,
    TableTxLabel, TableTxLabelMap,
};
use crate::error::{Error, ErrorView};
use crate::r2::THRESHOLD;
use crate::sql::query::{bytes_of, queries, withheld, withhold, Query, QueryView};
use crate::storage::blob_column::{BlobWrite, BlobWriteView};
use crate::storage::lookup::{
    absorb, absorbed, basket_names_query, group_queries, load_basket_name_map, load_by_keys,
    load_id_map_by_txid, load_tx_id_by_reference, reference_select, txid_select, KeyedId,
};
use crate::storage::store::StorageD1;
use crate::storage::upsert::{
    as_bytes, basket_query, build_upsert_basket, build_upsert_certificate,
    build_upsert_certificate_field, build_upsert_commission, build_upsert_output,
    build_upsert_output_tag, build_upsert_output_tag_map, build_upsert_proven_tx,
    build_upsert_proven_tx_req, build_upsert_transaction, build_upsert_tx_label,
    build_upsert_tx_label_map, certificate_field_query, certificate_query, commission_query,
    needs_r2_fill, output_query, output_tag_map_query, output_tag_query, overflows,
    proven_tx_query, proven_tx_req_query, transaction_query, tx_label_map_query, tx_label_query,
};
use crate::text::{decimal, decimal_text, same_text, sorted_set, texts, TextMap};
use crate::time::{latest, latest_of, update_max, Timestamp};
use crate::types::{ProcessSyncChunkResult, RequestSyncChunkArgs, SyncChunk};
use std::collections::HashMap;
use vstd::prelude::*;

verus! {

// ---------------------------------------------------------------------------
// State
// ---------------------------------------------------------------------------

/// The entities of a chunk in the order in which they are merged.
#[derive(Clone, Copy, Debug, PartialEq, Eq, Structural)]
pub enum Phase {
    Baskets,
    ProvenTxReqs,
    ProvenTxs,
    TxLabels,
    OutputTags,
    Certificates,
    Transactions,
    Outputs,
    CertificateFields,
    TxLabelMaps,
    OutputTagMaps,
    Commissions,
    Finished,
}

impl Phase {
    pub open spec fn following(self) -> Phase {
        match self {
            Phase::Baskets => Phase::ProvenTxReqs,
            Phase::ProvenTxReqs => Phase::ProvenTxs,
            Phase::ProvenTxs => Phase::TxLabels,
            Phase::TxLabels => Phase::OutputTags,
            Phase::OutputTags => Phase::Certificates,
            Phase::Certificates => Phase::Transactions,
            Phase::Transactions => Phase::Outputs,
            Phase::Outputs => Phase::CertificateFields,
            Phase::CertificateFields => Phase::TxLabelMaps,
            Phase::TxLabelMaps => Phase::OutputTagMaps,
            Phase::OutputTagMaps => Phase::Commissions,
            Phase::Commissions => Phase::Finished,
            Phase::Finished => Phase::Finished,
        }
    }

    /// How many phases are left.
    pub open spec fn left(self) -> nat {
        match self {
            Phase::Baskets => 12,
            Phase::ProvenTxReqs => 11,
            Phase::ProvenTxs => 10,
            Phase::TxLabels => 9,
            Phase::OutputTags => 8,
            Phase::Certificates => 7,
            Phase::Transactions => 6,
            Phase::Outputs => 5,
            Phase::CertificateFields => 4,
            Phase::TxLabelMaps => 3,
            Phase::OutputTagMaps => 2,
            Phase::Commissions => 1,
            Phase::Finished => 0,
        }
    }

    fn next(&self) -> (phase: Phase)
        ensures
            phase == self.following(),
    {
        match self {
            Phase::Baskets => Phase::ProvenTxReqs,
            Phase::ProvenTxReqs => Phase::ProvenTxs,
            Phase::ProvenTxs => Phase::TxLabels,
            Phase::TxLabels => Phase::OutputTags,
            Phase::OutputTags => Phase::Certificates,
            Phase::Certificates => Phase::Transactions,
            Phase::Transactions => Phase::Outputs,
            Phase::Outputs => Phase::CertificateFields,
            Phase::CertificateFields => Phase::TxLabelMaps,
            Phase::TxLabelMaps => Phase::OutputTagMaps,
            Phase::OutputTagMaps => Phase::Commissions,
            Phase::Commissions => Phase::Finished,
            Phase::Finished => Phase::Finished,
        }
    }
}

/// A column whose blob may be in the object store. A row that is there with such a column
/// empty is not filled in a batch before the object store was asked.
#[derive(Clone, Copy, Debug, PartialEq, Eq, Structural)]
pub enum BlobColumn {
    RequestBeef,
    RawTx,
    InputBeef,
    LockingScript,
}

impl BlobColumn {
    pub open spec fn phase(self) -> Phase {
        match self {
            BlobColumn::RequestBeef => Phase::ProvenTxReqs,
            BlobColumn::RawTx => Phase::Transactions,
            BlobColumn::InputBeef => Phase::Transactions,
            BlobColumn::LockingScript => Phase::Outputs,
        }
    }

    pub open spec fn table(self) -> Seq<char> {
        match self {
            BlobColumn::RequestBeef => "proven_tx_reqs"@,
            BlobColumn::RawTx => "transactions"@,
            BlobColumn::InputBeef => "transactions"@,
            BlobColumn::LockingScript => "outputs"@,
        }
    }

    pub open spec fn column(self) -> Seq<char> {
        match self {
            BlobColumn::RequestBeef => "input_beef"@,
            BlobColumn::RawTx => "raw_tx"@,
            BlobColumn::InputBeef => "input_beef"@,
            BlobColumn::LockingScript => "locking_script"@,
        }
    }

    /// The column of the same rows that comes after this one.
    pub open spec fn following(self) -> Option<BlobColumn> {
        match self {
            BlobColumn::RawTx => Some(BlobColumn::InputBeef),
            _ => None,
        }
    }

    pub open spec fn left(self) -> nat {
        match self {
            BlobColumn::RawTx => 1,
            _ => 0,
        }
    }

    /// Whether the rows are those of one user.
    pub open spec fn of_user(self) -> bool {
        self != BlobColumn::RequestBeef
    }

    /// The start of the statement that finds the rows with given keys whose column is empty.
    pub open spec fn select(self) -> Seq<char> {
        match self {
            BlobColumn::RequestBeef => EMPTY_REQUEST_BEEF@,
            BlobColumn::RawTx => EMPTY_RAW_TX@,
            BlobColumn::InputBeef => EMPTY_INPUT_BEEF@,
            BlobColumn::LockingScript => EMPTY_LOCKING_SCRIPT@,
        }
    }

    fn in_phase(&self) -> (phase: Phase)
        ensures
            phase == self.phase(),
    {
        match self {
            BlobColumn::RequestBeef => Phase::ProvenTxReqs,
            BlobColumn::RawTx => Phase::Transactions,
            BlobColumn::InputBeef => Phase::Transactions,
            BlobColumn::LockingScript => Phase::Outputs,
        }
    }

    /// The name of the table.
    pub fn table_name(&self) -> (name: &'static str)
        ensures
            name@ == self.table(),
    {
        match self {
            BlobColumn::RequestBeef => "proven_tx_reqs",
            BlobColumn::RawTx => "transactions",
            BlobColumn::InputBeef => "transactions",
            BlobColumn::LockingScript => "outputs",
        }
    }

    /// The name of the column.
    pub fn name(&self) -> (name: &'static str)
        ensures
            name@ == self.column(),
    {
        match self {
            BlobColumn::RequestBeef => "input_beef",
            BlobColumn::RawTx => "raw_tx",
            BlobColumn::InputBeef => "input_beef",
            BlobColumn::LockingScript => "locking_script",
        }
    }

    fn next(&self) -> (column: Option<BlobColumn>)
        ensures
            column == self.following(),
    {
        match self {
            BlobColumn::RawTx => Some(BlobColumn::InputBeef),
            _ => None,
        }
    }

    fn selection(&self) -> (select: &'static str)
        ensures
            select@ == self.select(),
    {
        match self {
            BlobColumn::RequestBeef => EMPTY_REQUEST_BEEF,
            BlobColumn::RawTx => EMPTY_RAW_TX,
            BlobColumn::InputBeef => EMPTY_INPUT_BEEF,
            BlobColumn::LockingScript => EMPTY_LOCKING_SCRIPT,
        }
    }
}

pub const EMPTY_REQUEST_BEEF: &'static str = "SELECT txid AS k, proven_tx_req_id AS id FROM proven_tx_reqs WHERE (input_beef IS NULL OR length(input_beef) = 0) AND txid IN (";

pub const EMPTY_RAW_TX: &'static str = "SELECT reference AS k, transaction_id AS id FROM transactions WHERE (raw_tx IS NULL OR length(raw_tx) = 0) AND user_id = ? AND reference IN (";

pub const EMPTY_INPUT_BEEF: &'static str = "SELECT reference AS k, transaction_id AS id FROM transactions WHERE (input_beef IS NULL OR length(input_beef) = 0) AND user_id = ? AND reference IN (";

pub const EMPTY_LOCKING_SCRIPT: &'static str = "SELECT transaction_id || ':' || vout AS k, output_id AS id FROM outputs WHERE (locking_script IS NULL OR length(locking_script) = 0) AND user_id = ? AND transaction_id || ':' || vout IN (";

/// A row whose blob is in the object store, by the column and the key of the row. A batch
/// does not fill it.
#[verifier::ext_equal]
pub struct HeldView {
    pub column: BlobColumn,
    pub key: Seq<char>,
}

#[derive(Debug, PartialEq, Eq)]
pub struct Held {
    pub column: BlobColumn,
    pub key: String,
}

impl View for Held {
    type V = HeldView;

    open spec fn view(&self) -> HeldView {
        HeldView { column: self.column, key: self.key@ }
    }
}

pub open spec fn helds(list: Seq<Held>) -> Seq<HeldView> {
    Seq::new(list.len(), |i: int| list[i]@)
}

/// A row that is there with an empty column.
#[verifier::ext_equal]
pub struct EmptyRowView {
    pub key: Seq<char>,
    pub id: i64,
}

#[derive(Debug, PartialEq, Eq)]
pub struct EmptyRow {
    pub key: String,
    pub id: i64,
}

impl View for EmptyRow {
    type V = EmptyRowView;

    open spec fn view(&self) -> EmptyRowView {
        EmptyRowView { key: self.key@, id: self.id }
    }
}

pub open spec fn empty_rows(list: Seq<EmptyRow>) -> Seq<EmptyRowView> {
    Seq::new(list.len(), |i: int| list[i]@)
}

/// The rows that a statement found, each with its key and its id.
pub open spec fn rows_found(rows: Seq<KeyedId>) -> Seq<EmptyRowView>
    decreases rows.len(),
{
    if rows.len() == 0 {
        Seq::empty()
    } else {
        match (rows.last().key, rows.last().id) {
            (Some(key), Some(id)) => rows_found(rows.drop_last()).push(
                EmptyRowView { key: key@, id },
            ),
            _ => rows_found(rows.drop_last()),
        }
    }
}

fn collect_found(rows: &Vec<KeyedId>) -> (list: Vec<EmptyRow>)
    ensures
        empty_rows(list@) == rows_found(rows@),
{
    let mut list: Vec<EmptyRow> = Vec::new();
    let mut i: usize = 0;
    assert(empty_rows(list@) =~= Seq::empty());
    while i < rows.len()
        invariant
            i <= rows@.len(),
            empty_rows(list@) == rows_found(rows@.take(i as int)),
        decreases rows@.len() - i,
    {
        proof {
            assert(rows@.take(i + 1).drop_last() =~= rows@.take(i as int));
        }
        if let Some(key) = &rows[i].key {
            if let Some(id) = rows[i].id {
                let ghost before = list@;
                let row = EmptyRow { key: key.clone(), id };
                list.push(row);
                assert(empty_rows(list@) =~= empty_rows(before).push(row@));
            }
        }
        i = i + 1;
    }
    assert(rows@.take(i as int) =~= rows@);
    list
}

/// Of the first `n` rows those whose blob the object store holds: all but those of which it
/// said that it does not.
pub open spec fn held_rows(
    column: BlobColumn,
    found: Seq<EmptyRowView>,
    exists: Seq<bool>,
    n: int,
) -> Seq<HeldView>
    decreases n,
{
    if n <= 0 {
        Seq::empty()
    } else if n <= exists.len() && !exists[n - 1] {
        held_rows(column, found, exists, n - 1)
    } else {
        held_rows(column, found, exists, n - 1).push(HeldView { column, key: found[n - 1].key })
    }
}

fn hold(held: &mut Vec<Held>, column: BlobColumn, found: &Vec<EmptyRow>, exists: &Vec<bool>)
    ensures
        helds(final(held)@) == helds(old(held)@) + held_rows(
            column,
            empty_rows(found@),
            exists@,
            found@.len() as int,
        ),
{
    let mut i: usize = 0;
    assert(helds(held@) =~= helds(old(held)@) + held_rows(column, empty_rows(found@), exists@, 0));
    while i < found.len()
        invariant
            i <= found@.len(),
            helds(held@) == helds(old(held)@) + held_rows(
                column,
                empty_rows(found@),
                exists@,
                i as int,
            ),
        decreases found@.len() - i,
    {
        if !(i < exists.len() && !exists[i]) {
            let ghost before = held@;
            let row = Held { column, key: found[i].key.clone() };
            held.push(row);
            assert(helds(held@) =~= helds(before).push(row@));
        }
        i = i + 1;
        assert(helds(held@) =~= helds(old(held)@) + held_rows(
            column,
            empty_rows(found@),
            exists@,
            i as int,
        ));
    }
}

/// The texts that are there.
pub open spec fn given(list: Seq<Option<Seq<char>>>) -> Seq<Seq<char>>
    decreases list.len(),
{
    if list.len() == 0 {
        Seq::empty()
    } else {
        match list.last() {
            Some(text) => given(list.drop_last()).push(text),
            None => given(list.drop_last()),
        }
    }
}

/// Whether a blob is there and goes in its column with some bytes.
pub open spec fn short(data: Option<Vec<u8>>) -> bool {
    data is Some && 0 < data->0@.len() <= THRESHOLD
}

fn is_short(data: &Option<Vec<u8>>) -> (is: bool)
    ensures
        is == short(*data),
{
    match data {
        Some(bytes) => 0 < bytes.len() && bytes.len() <= THRESHOLD,
        None => false,
    }
}

/// The key of an output: its local transaction and its place there.
pub open spec fn output_key(tx_id: i64, vout: i32) -> Seq<char> {
    decimal_text(tx_id as int) + ":"@ + decimal_text(vout as int)
}

fn output_key_text(tx_id: i64, vout: i32) -> (key: String)
    ensures
        key@ == output_key(tx_id, vout),
{
    let mut key = decimal(tx_id);
    key.append(":");
    key.append(decimal(vout as i64).as_str());
    key
}

/// The local ids of the rows of a chunk by the ids that the chunk gives them.
#[verifier::ext_equal]
pub struct LocalIdsView {
    pub baskets: Map<i64, i64>,
    pub labels: Map<i64, i64>,
    pub tags: Map<i64, i64>,
    pub transactions: Map<i64, i64>,
    pub outputs: Map<i64, i64>,
    pub certificates: Map<i64, i64>,
}

/// The local ids of the rows of a chunk by the ids that the chunk gives them.
#[derive(Debug, PartialEq, Eq)]
pub struct LocalIds {
    pub baskets: HashMap<i64, i64>,
    pub labels: HashMap<i64, i64>,
    pub tags: HashMap<i64, i64>,
    pub transactions: HashMap<i64, i64>,
    pub outputs: HashMap<i64, i64>,
    pub certificates: HashMap<i64, i64>,
}

impl View for LocalIds {
    type V = LocalIdsView;

    open spec fn view(&self) -> LocalIdsView {
        LocalIdsView {
            baskets: self.baskets@,
            labels: self.labels@,
            tags: self.tags@,
            transactions: self.transactions@,
            outputs: self.outputs@,
            certificates: self.certificates@,
        }
    }
}

/// The value of a key, where the map has it.
pub open spec fn found<K, V>(map: Map<K, V>, key: K) -> Option<V> {
    if map.contains_key(key) {
        Some(map[key])
    } else {
        None
    }
}

pub fn find(map: &HashMap<i64, i64>, key: i64) -> (value: Option<i64>)
    ensures
        value == found(map@, key),
{
    broadcast use vstd::std_specs::hash::group_hash_axioms;

    match map.get(&key) {
        Some(v) => Some(*v),
        None => None,
    }
}

/// A merge under way: the chunk, the answer so far, and what was learnt of the store.
#[verifier::ext_equal]
pub struct ApplyView {
    pub user_id: i64,
    pub chunk: SyncChunk,
    pub result: ProcessSyncChunkResult,
    pub ids: LocalIdsView,
    pub proofs: Seq<KeyedId>,
    pub txids: Seq<KeyedId>,
    pub basket_names: Seq<KeyedId>,
    pub spends: Seq<KeyedId>,
    pub held: Seq<HeldView>,
}

/// A merge under way: the chunk, the answer so far, and what was learnt of the store.
#[derive(Debug, PartialEq, Eq)]
pub struct Apply {
    pub user_id: i64,
    pub chunk: SyncChunk,
    pub result: ProcessSyncChunkResult,
    pub ids: LocalIds,
    pub proofs: Vec<KeyedId>,
    pub txids: Vec<KeyedId>,
    pub basket_names: Vec<KeyedId>,
    pub spends: Vec<KeyedId>,
    pub held: Vec<Held>,
}

impl View for Apply {
    type V = ApplyView;

    open spec fn view(&self) -> ApplyView {
        ApplyView {
            user_id: self.user_id,
            chunk: self.chunk,
            result: self.result,
            ids: self.ids@,
            proofs: self.proofs@,
            txids: self.txids@,
            basket_names: self.basket_names@,
            spends: self.spends@,
            held: helds(self.held@),
        }
    }
}

/// The rows of an entity, none where the chunk does not carry it.
pub open spec fn rows_of<T>(rows: Option<Vec<T>>) -> Seq<T> {
    match rows {
        Some(rows) => rows@,
        None => Seq::empty(),
    }
}

/// Whether a chunk carries no row of an entity.
pub fn vec_is_empty<T>(v: &Option<Vec<T>>) -> (empty: bool)
    ensures
        empty == (rows_of(*v).len() == 0),
{
    match v {
        Some(rows) => rows.len() == 0,
        None => true,
    }
}

/// Whether a chunk carries no rows besides the user record.
pub open spec fn no_rows(chunk: SyncChunk) -> bool {
    &&& rows_of(chunk.output_baskets).len() == 0
    &&& rows_of(chunk.proven_txs).len() == 0
    &&& rows_of(chunk.proven_tx_reqs).len() == 0
    &&& rows_of(chunk.transactions).len() == 0
    &&& rows_of(chunk.outputs).len() == 0
    &&& rows_of(chunk.tx_labels).len() == 0
    &&& rows_of(chunk.tx_label_maps).len() == 0
    &&& rows_of(chunk.output_tags).len() == 0
    &&& rows_of(chunk.output_tag_maps).len() == 0
    &&& rows_of(chunk.certificates).len() == 0
    &&& rows_of(chunk.certificate_fields).len() == 0
    &&& rows_of(chunk.commissions).len() == 0
}

/// Whether a chunk carries no rows besides the user record.
pub fn chunk_is_empty(chunk: &SyncChunk) -> (empty: bool)
    ensures
        empty == no_rows(*chunk),
{
    vec_is_empty(&chunk.output_baskets) && vec_is_empty(&chunk.proven_txs) && vec_is_empty(
        &chunk.proven_tx_reqs,
    ) && vec_is_empty(&chunk.transactions) && vec_is_empty(&chunk.outputs) && vec_is_empty(
        &chunk.tx_labels,
    ) && vec_is_empty(&chunk.tx_label_maps) && vec_is_empty(&chunk.output_tags) && vec_is_empty(
        &chunk.output_tag_maps,
    ) && vec_is_empty(&chunk.certificates) && vec_is_empty(&chunk.certificate_fields)
        && vec_is_empty(&chunk.commissions)
}

// ---------------------------------------------------------------------------
// Entries
// ---------------------------------------------------------------------------

/// A blob of a row that goes to the object store once the row has an id.
#[verifier::ext_equal]
pub struct FillView {
    pub table: Seq<char>,
    pub column: Seq<char>,
    pub bytes: Seq<u8>,
}

#[derive(Debug, PartialEq, Eq)]
pub struct Fill {
    pub table: String,
    pub column: String,
    pub bytes: Vec<u8>,
}

impl View for Fill {
    type V = FillView;

    open spec fn view(&self) -> FillView {
        FillView { table: self.table@, column: self.column@, bytes: self.bytes@ }
    }
}

pub open spec fn fills(list: Seq<Fill>) -> Seq<FillView> {
    Seq::new(list.len(), |i: int| list[i]@)
}

/// A row of a batch: its statement, the id that the chunk gives it, when it last changed,
/// and its blobs for the object store.
#[verifier::ext_equal]
pub struct EntryView {
    pub query: QueryView,
    pub foreign: i64,
    pub updated_at: Timestamp,
    pub fills: Seq<FillView>,
}

#[derive(Debug, PartialEq, Eq)]
pub struct Entry {
    pub query: Query,
    pub foreign: i64,
    pub updated_at: Timestamp,
    pub fills: Vec<Fill>,
}

impl View for Entry {
    type V = EntryView;

    open spec fn view(&self) -> EntryView {
        EntryView {
            query: self.query@,
            foreign: self.foreign,
            updated_at: self.updated_at,
            fills: fills(self.fills@),
        }
    }
}

pub open spec fn entries(list: Seq<Entry>) -> Seq<EntryView> {
    Seq::new(list.len(), |i: int| list[i]@)
}

/// The entries that are there.
pub open spec fn kept(list: Seq<Option<EntryView>>) -> Seq<EntryView>
    decreases list.len(),
{
    if list.len() == 0 {
        Seq::empty()
    } else {
        match list.last() {
            Some(entry) => kept(list.drop_last()).push(entry),
            None => kept(list.drop_last()),
        }
    }
}

/// The blob for the object store, where it is too long for its column.
pub open spec fn overflow_fill(
    table: Seq<char>,
    column: Seq<char>,
    data: Option<Vec<u8>>,
) -> Seq<FillView> {
    if overflows(bytes_of(data)) {
        seq![FillView { table, column, bytes: data->0@ }]
    } else {
        Seq::empty()
    }
}

fn push_overflow(list: &mut Vec<Fill>, table: &str, column: &str, data: &Option<Vec<u8>>)
    ensures
        fills(final(list)@) == fills(old(list)@) + overflow_fill(table@, column@, *data),
{
    if needs_r2_fill(as_bytes(data)) {
        if let Some(bytes) = data {
            list.push(
                Fill {
                    table: table.to_owned(),
                    column: column.to_owned(),
                    bytes: vstd::slice::slice_to_vec(bytes.as_slice()),
                },
            );
        }
    }
    assert(fills(list@) =~= fills(old(list)@) + overflow_fill(table@, column@, *data));
}

impl ApplyView {
    /// The local transaction of an output: by the id that the chunk gives it, or by its
    /// txid among the transactions of the user.
    pub open spec fn transaction_of(self, o: TableOutput) -> Option<i64> {
        match found(self.ids.transactions, o.transaction_id) {
            Some(id) => Some(id),
            None => found(absorbed(Map::empty(), self.txids), o.txid@),
        }
    }

    /// The local basket of an output: by the id that the chunk gives it, or by its name.
    pub open spec fn basket_of(self, o: TableOutput) -> Option<i64> {
        let by_id = match o.basket_id {
            Some(id) => found(self.ids.baskets, id),
            None => None,
        };
        match by_id {
            Some(id) => Some(id),
            None => match o.basket_name {
                Some(name) => found(absorbed(Map::empty(), self.basket_names), name@),
                None => None,
            },
        }
    }

    /// The local transaction that spends an output: by the id that the chunk gives it, or
    /// by its reference.
    pub open spec fn spender_of(self, o: TableOutput) -> Option<i64> {
        let by_id = match o.spent_by {
            Some(id) => found(self.ids.transactions, id),
            None => None,
        };
        match by_id {
            Some(id) => Some(id),
            None => match o.spent_by_reference {
                Some(reference) => found(absorbed(Map::empty(), self.spends), reference@),
                None => None,
            },
        }
    }

    /// The local proof of a transaction, by the txid that the chunk names.
    pub open spec fn proof_of(self, tx: TableTransaction) -> Option<i64> {
        match tx.proof_txid {
            Some(txid) => found(absorbed(Map::empty(), self.proofs), txid@),
            None => None,
        }
    }

    /// Whether the blob of the row with the given key is in the object store.
    pub open spec fn is_held(self, column: BlobColumn, key: Seq<char>) -> bool {
        self.held.contains(HeldView { column, key })
    }

    /// The keys of the rows whose blob would go in the column.
    pub open spec fn wanted(self, column: BlobColumn) -> Seq<Seq<char>> {
        match column {
            BlobColumn::RequestBeef => {
                let rows = rows_of(self.chunk.proven_tx_reqs);
                given(
                    Seq::new(
                        rows.len(),
                        |i: int|
                            if short(rows[i].input_beef) {
                                Some(rows[i].txid@)
                            } else {
                                None
                            },
                    ),
                )
            },
            BlobColumn::RawTx => {
                let rows = rows_of(self.chunk.transactions);
                given(
                    Seq::new(
                        rows.len(),
                        |i: int|
                            if short(rows[i].raw_tx) {
                                Some(rows[i].reference@)
                            } else {
                                None
                            },
                    ),
                )
            },
            BlobColumn::InputBeef => {
                let rows = rows_of(self.chunk.transactions);
                given(
                    Seq::new(
                        rows.len(),
                        |i: int|
                            if short(rows[i].input_beef) {
                                Some(rows[i].reference@)
                            } else {
                                None
                            },
                    ),
                )
            },
            BlobColumn::LockingScript => {
                let rows = rows_of(self.chunk.outputs);
                given(Seq::new(rows.len(), |i: int| self.wanted_output(rows[i])))
            },
        }
    }

    pub open spec fn wanted_output(self, o: TableOutput) -> Option<Seq<char>> {
        match self.transaction_of(o) {
            Some(tx_id) => if short(o.locking_script) {
                Some(output_key(tx_id, o.vout))
            } else {
                None
            },
            None => None,
        }
    }

    pub open spec fn basket_entry(self, b: TableOutputBasket) -> EntryView {
        EntryView {
            query: basket_query(self.user_id, b),
            foreign: b.basket_id,
            updated_at: b.updated_at,
            fills: Seq::empty(),
        }
    }

    pub open spec fn proven_tx_req_entry(self, req: TableProvenTxReq) -> EntryView {
        EntryView {
            query: withheld(
                proven_tx_req_query(req),
                7,
                self.is_held(BlobColumn::RequestBeef, req.txid@),
            ),
            foreign: req.proven_tx_req_id,
            updated_at: req.updated_at,
            fills: overflow_fill("proven_tx_reqs"@, "input_beef"@, req.input_beef),
        }
    }

    pub open spec fn proven_tx_entry(self, p: TableProvenTx) -> EntryView {
        EntryView {
            query: proven_tx_query(p),
            foreign: p.proven_tx_id,
            updated_at: p.updated_at,
            fills: Seq::empty(),
        }
    }

    pub open spec fn tx_label_entry(self, l: TableTxLabel) -> EntryView {
        EntryView {
            query: tx_label_query(self.user_id, l),
            foreign: l.label_id,
            updated_at: l.updated_at,
            fills: Seq::empty(),
        }
    }

    pub open spec fn output_tag_entry(self, t: TableOutputTag) -> EntryView {
        EntryView {
            query: output_tag_query(self.user_id, t),
            foreign: t.tag_id,
            updated_at: t.updated_at,
            fills: Seq::empty(),
        }
    }

    pub open spec fn certificate_entry(self, c: TableCertificate) -> EntryView {
        EntryView {
            query: certificate_query(self.user_id, c),
            foreign: c.certificate_id,
            updated_at: c.updated_at,
            fills: Seq::empty(),
        }
    }

    pub open spec fn transaction_entry(self, tx: TableTransaction) -> EntryView {
        EntryView {
            query: withheld(
                withheld(
                    transaction_query(self.user_id, tx, self.proof_of(tx)),
                    10,
                    self.is_held(BlobColumn::RawTx, tx.reference@),
                ),
                11,
                self.is_held(BlobColumn::InputBeef, tx.reference@),
            ),
            foreign: tx.transaction_id,
            updated_at: tx.updated_at,
            fills: overflow_fill("transactions"@, "raw_tx"@, tx.raw_tx) + overflow_fill(
                "transactions"@,
                "input_beef"@,
                tx.input_beef,
            ),
        }
    }

    /// An output is merged where its transaction is known; an orphan is left out.
    pub open spec fn output_entry(self, o: TableOutput) -> Option<EntryView> {
        match self.transaction_of(o) {
            Some(tx_id) => Some(
                EntryView {
                    query: withheld(
                        output_query(
                            self.user_id,
                            o,
                            tx_id,
                            self.basket_of(o),
                            self.spender_of(o),
                        ),
                        6,
                        self.is_held(BlobColumn::LockingScript, output_key(tx_id, o.vout)),
                    ),
                    foreign: o.output_id,
                    updated_at: o.updated_at,
                    fills: overflow_fill("outputs"@, "locking_script"@, o.locking_script),
                },
            ),
            None => None,
        }
    }

    /// A field is merged where its certificate came with the same chunk.
    pub open spec fn certificate_field_entry(self, f: TableCertificateField) -> Option<EntryView> {
        match found(self.ids.certificates, f.certificate_id) {
            Some(cert_id) => Some(
                EntryView {
                    query: certificate_field_query(self.user_id, f, cert_id),
                    foreign: f.certificate_field_id,
                    updated_at: f.updated_at,
                    fills: Seq::empty(),
                },
            ),
            None => None,
        }
    }

    /// A label is put on a transaction where both came with the same chunk.
    pub open spec fn tx_label_map_entry(self, m: TableTxLabelMap) -> Option<EntryView> {
        match (found(self.ids.transactions, m.transaction_id), found(self.ids.labels, m.label_id)) {
            (Some(tx_id), Some(label_id)) => Some(
                EntryView {
                    query: tx_label_map_query(tx_id, label_id, m.updated_at, m.created_at),
                    foreign: m.tx_label_map_id,
                    updated_at: m.updated_at,
                    fills: Seq::empty(),
                },
            ),
            _ => None,
        }
    }

    /// A tag is put on an output where both came with the same chunk.
    pub open spec fn output_tag_map_entry(self, m: TableOutputTagMap) -> Option<EntryView> {
        match (found(self.ids.outputs, m.output_id), found(self.ids.tags, m.tag_id)) {
            (Some(output_id), Some(tag_id)) => Some(
                EntryView {
                    query: output_tag_map_query(output_id, tag_id, m.updated_at, m.created_at),
                    foreign: m.output_tag_map_id,
                    updated_at: m.updated_at,
                    fills: Seq::empty(),
                },
            ),
            _ => None,
        }
    }

    /// A commission is merged where its transaction came with the same chunk.
    pub open spec fn commission_entry(self, c: TableCommission) -> Option<EntryView> {
        match found(self.ids.transactions, c.transaction_id) {
            Some(tx_id) => Some(
                EntryView {
                    query: commission_query(self.user_id, c, tx_id),
                    foreign: c.commission_id,
                    updated_at: c.updated_at,
                    fills: Seq::empty(),
                },
            ),
            None => None,
        }
    }

    /// The rows that a phase merges, in the order of the chunk.
    pub open spec fn planned(self, phase: Phase) -> Seq<EntryView> {
        match phase {
            Phase::Baskets => {
                let rows = rows_of(self.chunk.output_baskets);
                Seq::new(rows.len(), |i: int| self.basket_entry(rows[i]))
            },
            Phase::ProvenTxReqs => {
                let rows = rows_of(self.chunk.proven_tx_reqs);
                Seq::new(rows.len(), |i: int| self.proven_tx_req_entry(rows[i]))
            },
            Phase::ProvenTxs => {
                let rows = rows_of(self.chunk.proven_txs);
                Seq::new(rows.len(), |i: int| self.proven_tx_entry(rows[i]))
            },
            Phase::TxLabels => {
                let rows = rows_of(self.chunk.tx_labels);
                Seq::new(rows.len(), |i: int| self.tx_label_entry(rows[i]))
            },
            Phase::OutputTags => {
                let rows = rows_of(self.chunk.output_tags);
                Seq::new(rows.len(), |i: int| self.output_tag_entry(rows[i]))
            },
            Phase::Certificates => {
                let rows = rows_of(self.chunk.certificates);
                Seq::new(rows.len(), |i: int| self.certificate_entry(rows[i]))
            },
            Phase::Transactions => {
                let rows = rows_of(self.chunk.transactions);
                Seq::new(rows.len(), |i: int| self.transaction_entry(rows[i]))
            },
            Phase::Outputs => {
                let rows = rows_of(self.chunk.outputs);
                kept(Seq::new(rows.len(), |i: int| self.output_entry(rows[i])))
            },
            Phase::CertificateFields => {
                let rows = rows_of(self.chunk.certificate_fields);
                kept(Seq::new(rows.len(), |i: int| self.certificate_field_entry(rows[i])))
            },
            Phase::TxLabelMaps => {
                let rows = rows_of(self.chunk.tx_label_maps);
                kept(Seq::new(rows.len(), |i: int| self.tx_label_map_entry(rows[i])))
            },
            Phase::OutputTagMaps => {
                let rows = rows_of(self.chunk.output_tag_maps);
                kept(Seq::new(rows.len(), |i: int| self.output_tag_map_entry(rows[i])))
            },
            Phase::Commissions => {
                let rows = rows_of(self.chunk.commissions);
                kept(Seq::new(rows.len(), |i: int| self.commission_entry(rows[i])))
            },
            Phase::Finished => Seq::empty(),
        }
    }
}

// ---------------------------------------------------------------------------
// Bookkeeping
// ---------------------------------------------------------------------------

/// A counter after `n` more, counting modulo two to the thirty-second.
pub open spec fn counted(count: u32, n: nat) -> u32 {
    ((count + n) % 0x1_0000_0000) as u32
}

pub fn count_more(count: u32, n: usize) -> (more: u32)
    ensures
        more == counted(count, n as nat),
{
    let wide: u64 = n as u64;
    let small: u32 = (wide % 0x1_0000_0000) as u32;
    count.wrapping_add(small)
}

/// A map after the first `n` rows of a batch were recorded with the ids that came back.
pub open spec fn recorded(map: Map<i64, i64>, list: Seq<EntryView>, ids: Seq<i64>, n: int) -> Map<
    i64,
    i64,
>
    decreases n,
{
    if n <= 0 {
        map
    } else {
        recorded(map, list, ids, n - 1).insert(list[n - 1].foreign, ids[n - 1])
    }
}

/// How many rows of a batch got an id.
pub open spec fn paired(list: Seq<EntryView>, ids: Seq<i64>) -> int {
    if list.len() <= ids.len() {
        list.len() as int
    } else {
        ids.len() as int
    }
}

/// When the first `n` rows of a batch last changed.
pub open spec fn times(list: Seq<EntryView>, n: int) -> Seq<Timestamp> {
    Seq::new(n as nat, |i: int| list[i].updated_at)
}

pub open spec fn fill_writes(entry: EntryView, id: i64) -> Seq<BlobWriteView> {
    Seq::new(
        entry.fills.len(),
        |i: int|
            BlobWriteView {
                table: entry.fills[i].table,
                id,
                column: entry.fills[i].column,
                bytes: entry.fills[i].bytes,
                updated_at: entry.updated_at,
                also_updated: false,
            },
    )
}

/// The blobs of the first `n` rows of a batch that go to the object store.
pub open spec fn writes(list: Seq<EntryView>, ids: Seq<i64>, n: int) -> Seq<BlobWriteView>
    decreases n,
{
    if n <= 0 {
        Seq::empty()
    } else {
        writes(list, ids, n - 1) + fill_writes(list[n - 1], ids[n - 1])
    }
}

impl ApplyView {
    /// After `n` more rows went in.
    pub open spec fn counting(self, n: nat) -> ApplyView {
        ApplyView {
            result: ProcessSyncChunkResult {
                inserts: counted(self.result.inserts, n),
                ..self.result
            },
            ..self
        }
    }

    /// After rows that last changed at the given instants were seen.
    pub open spec fn seeing(self, instants: Seq<Timestamp>) -> ApplyView {
        ApplyView {
            result: ProcessSyncChunkResult {
                max_updated_at: latest_of(self.result.max_updated_at, instants),
                ..self.result
            },
            ..self
        }
    }

    /// After the first `n` rows of a batch were recorded with the ids that came back.
    pub open spec fn recording(
        self,
        phase: Phase,
        list: Seq<EntryView>,
        ids: Seq<i64>,
        n: int,
    ) -> ApplyView {
        ApplyView {
            ids: match phase {
                Phase::Baskets => LocalIdsView {
                    baskets: recorded(self.ids.baskets, list, ids, n),
                    ..self.ids
                },
                Phase::TxLabels => LocalIdsView {
                    labels: recorded(self.ids.labels, list, ids, n),
                    ..self.ids
                },
                Phase::OutputTags => LocalIdsView {
                    tags: recorded(self.ids.tags, list, ids, n),
                    ..self.ids
                },
                Phase::Certificates => LocalIdsView {
                    certificates: recorded(self.ids.certificates, list, ids, n),
                    ..self.ids
                },
                Phase::Transactions => LocalIdsView {
                    transactions: recorded(self.ids.transactions, list, ids, n),
                    ..self.ids
                },
                Phase::Outputs => LocalIdsView {
                    outputs: recorded(self.ids.outputs, list, ids, n),
                    ..self.ids
                },
                _ => self.ids,
            },
            ..self
        }
    }

    /// After a phase's batch returned its ids.
    pub open spec fn settled(self, phase: Phase, list: Seq<EntryView>, ids: Seq<i64>) -> ApplyView {
        match phase {
            Phase::ProvenTxs => {
                let rows = rows_of(self.chunk.proven_txs);
                self.counting(ids.len()).seeing(
                    Seq::new(rows.len(), |i: int| rows[i].updated_at),
                )
            },
            Phase::CertificateFields => {
                let rows = rows_of(self.chunk.certificate_fields);
                self.counting(list.len()).seeing(
                    Seq::new(rows.len(), |i: int| rows[i].updated_at),
                )
            },
            Phase::TxLabelMaps | Phase::OutputTagMaps | Phase::Commissions => self.counting(
                list.len(),
            ),
            _ => {
                let n = paired(list, ids);
                self.counting(n as nat).seeing(times(list, n)).recording(phase, list, ids, n)
            },
        }
    }
}

// ---------------------------------------------------------------------------
// Steps
// ---------------------------------------------------------------------------

/// What the merge takes next.
#[verifier::ext_equal]
pub enum ProgressView {
    MergeUser { apply: ApplyView },
    RunUpserts { apply: ApplyView, phase: Phase, entries: Seq<EntryView> },
    LoadProofs { apply: ApplyView, queries: Seq<QueryView> },
    LoadTxids { apply: ApplyView, queries: Seq<QueryView> },
    LoadBasketNames { apply: ApplyView, query: QueryView },
    LoadSpends { apply: ApplyView, queries: Seq<QueryView> },
    FindEmpty { apply: ApplyView, column: BlobColumn, queries: Seq<QueryView> },
    AskStore { apply: ApplyView, column: BlobColumn, found: Seq<EmptyRowView> },
    PutBlobs { apply: ApplyView, phase: Phase, writes: Seq<BlobWriteView> },
    Done { result: ProcessSyncChunkResult },
}

/// The txids of the proofs that the transactions of a chunk name.
pub open spec fn proof_txids(rows: Seq<TableTransaction>) -> Seq<Seq<char>>
    decreases rows.len(),
{
    if rows.len() == 0 {
        Seq::empty()
    } else {
        match rows.last().proof_txid {
            Some(txid) => proof_txids(rows.drop_last()).push(txid@),
            None => proof_txids(rows.drop_last()),
        }
    }
}

/// The references of the transactions that spend the outputs of a chunk.
pub open spec fn spend_references(rows: Seq<TableOutput>) -> Seq<Seq<char>>
    decreases rows.len(),
{
    if rows.len() == 0 {
        Seq::empty()
    } else {
        match rows.last().spent_by_reference {
            Some(reference) => spend_references(rows.drop_last()).push(reference@),
            None => spend_references(rows.drop_last()),
        }
    }
}

impl ApplyView {
    pub open spec fn proof_queries(self) -> Seq<QueryView> {
        group_queries(
            txid_select("proven_txs"@, "proven_tx_id"@, false),
            None,
            sorted_set(proof_txids(rows_of(self.chunk.transactions))),
        )
    }

    pub open spec fn txid_queries(self) -> Seq<QueryView> {
        let rows = rows_of(self.chunk.outputs);
        group_queries(
            txid_select("transactions"@, "transaction_id"@, true),
            Some(self.user_id),
            sorted_set(Seq::new(rows.len(), |i: int| rows[i].txid@)),
        )
    }

    pub open spec fn spend_queries(self) -> Seq<QueryView> {
        group_queries(
            reference_select(),
            Some(self.user_id),
            sorted_set(spend_references(rows_of(self.chunk.outputs))),
        )
    }

    /// The step that starts a phase. A phase with nothing to ask of the store goes over to
    /// the one that follows.
    pub open spec fn enter(self, phase: Phase) -> ProgressView
        decreases phase.left(), 3int,
    {
        match phase {
            Phase::Finished => ProgressView::Done { result: self.result },
            Phase::ProvenTxReqs => self.probe(BlobColumn::RequestBeef),
            Phase::Transactions => if self.proof_queries().len() > 0 {
                ProgressView::LoadProofs { apply: self, queries: self.proof_queries() }
            } else {
                self.probe(BlobColumn::RawTx)
            },
            Phase::Outputs => if self.chunk.outputs is None {
                self.run(phase)
            } else if self.txid_queries().len() > 0 {
                ProgressView::LoadTxids { apply: self, queries: self.txid_queries() }
            } else {
                ProgressView::LoadBasketNames {
                    apply: self,
                    query: basket_names_query(self.user_id),
                }
            },
            _ => self.run(phase),
        }
    }

    /// The statements that find the rows whose column is empty and whose blob would go there.
    pub open spec fn empty_queries(self, column: BlobColumn) -> Seq<QueryView> {
        group_queries(
            column.select(),
            if column.of_user() {
                Some(self.user_id)
            } else {
                None
            },
            sorted_set(self.wanted(column)),
        )
    }

    /// The step that asks for the rows whose column is empty, where a blob would go there.
    pub open spec fn probe(self, column: BlobColumn) -> ProgressView
        decreases column.phase().left(), column.left() + 1,
    {
        if self.empty_queries(column).len() > 0 {
            ProgressView::FindEmpty { apply: self, column, queries: self.empty_queries(column) }
        } else {
            match column.following() {
                Some(next) => self.probe(next),
                None => self.run(column.phase()),
            }
        }
    }

    /// The step after a column was asked for.
    pub open spec fn past(self, column: BlobColumn) -> ProgressView {
        match column.following() {
            Some(next) => self.probe(next),
            None => self.run(column.phase()),
        }
    }

    /// The step after the rows with an empty column were found: the object store is asked
    /// for their blobs.
    pub open spec fn after_empty(self, column: BlobColumn, rows: Seq<KeyedId>) -> ProgressView {
        if rows_found(rows).len() > 0 {
            ProgressView::AskStore { apply: self, column, found: rows_found(rows) }
        } else {
            self.past(column)
        }
    }

    /// The merge after the object store answered.
    pub open spec fn holding(
        self,
        column: BlobColumn,
        found: Seq<EmptyRowView>,
        exists: Seq<bool>,
    ) -> ApplyView {
        ApplyView {
            held: self.held + held_rows(column, found, exists, found.len() as int),
            ..self
        }
    }

    /// The batch of a phase, or the phase that follows where the batch is empty.
    pub open spec fn run(self, phase: Phase) -> ProgressView
        decreases phase.left(), 0int,
    {
        let list = self.planned(phase);
        if phase == Phase::Finished {
            ProgressView::Done { result: self.result }
        } else if list.len() > 0 {
            ProgressView::RunUpserts { apply: self, phase, entries: list }
        } else {
            self.settled(phase, list, Seq::empty()).enter(phase.following())
        }
    }

    /// The step after the user record: the end of an empty chunk, or the first phase.
    pub open spec fn after_user(self, updated: bool) -> ProgressView {
        ApplyView {
            result: ProcessSyncChunkResult {
                updates: if updated {
                    counted(self.result.updates, 1)
                } else {
                    self.result.updates
                },
                max_updated_at: match self.chunk.user {
                    Some(user) => Some(latest(self.result.max_updated_at, user.updated_at)),
                    None => self.result.max_updated_at,
                },
                ..self.result
            },
            ..self
        }.rest()
    }

    pub open spec fn rest(self) -> ProgressView {
        if no_rows(self.chunk) {
            ProgressView::Done { result: ProcessSyncChunkResult { done: true, ..self.result } }
        } else {
            self.enter(Phase::Baskets)
        }
    }

    /// The step after a batch returned its ids: the blobs for the object store, or the
    /// phase that follows where there are none.
    pub open spec fn after_batch(
        self,
        phase: Phase,
        list: Seq<EntryView>,
        ids: Seq<i64>,
    ) -> ProgressView {
        let n = paired(list, ids);
        let after = self.settled(phase, list, ids);
        if writes(list, ids, n).len() > 0 {
            ProgressView::PutBlobs { apply: after, phase, writes: writes(list, ids, n) }
        } else {
            after.enter(phase.following())
        }
    }

    /// The step after the txids of the outputs were looked up.
    pub open spec fn after_txids(self, rows: Seq<KeyedId>) -> ProgressView {
        ProgressView::LoadBasketNames {
            apply: ApplyView { txids: rows, ..self },
            query: basket_names_query(self.user_id),
        }
    }

    /// The step after the names of the baskets were looked up.
    pub open spec fn after_basket_names(self, rows: Seq<KeyedId>) -> ProgressView {
        let after = ApplyView { basket_names: rows, ..self };
        if after.spend_queries().len() > 0 {
            ProgressView::LoadSpends { apply: after, queries: after.spend_queries() }
        } else {
            after.probe(BlobColumn::LockingScript)
        }
    }
}

/// What the merge takes next.
#[derive(Debug, PartialEq, Eq)]
pub enum Progress {
    /// Merge the user record of the chunk, and learn whether that wrote anything.
    MergeUser { apply: Apply },
    /// Run the statements of the entries in one batch, and learn the ids that they return.
    RunUpserts { batch: Batch },
    /// Run the statements, and learn the proven transactions that they find.
    LoadProofs { apply: Apply, queries: Vec<Query> },
    /// Run the statements, and learn the transactions that they find.
    LoadTxids { apply: Apply, queries: Vec<Query> },
    /// Run the statement, and learn the baskets that it finds.
    LoadBasketNames { apply: Apply, query: Query },
    /// Run the statements, and learn the transactions that they find.
    LoadSpends { apply: Apply, queries: Vec<Query> },
    /// Run the statements, and learn the rows that are there with an empty column.
    FindEmpty { apply: Apply, column: BlobColumn, queries: Vec<Query> },
    /// Ask the object store whether it holds the blobs of these rows.
    AskStore { asking: Asking },
    /// Fill the columns one after the other.
    PutBlobs { blobs: Blobs },
    /// The answer.
    Done { result: ProcessSyncChunkResult },
}

/// A batch that is to be run.
#[derive(Debug, PartialEq, Eq)]
pub struct Batch {
    pub apply: Apply,
    pub phase: Phase,
    pub entries: Vec<Entry>,
}

/// Rows with an empty column whose blobs the object store is asked for.
#[derive(Debug, PartialEq, Eq)]
pub struct Asking {
    pub apply: Apply,
    pub column: BlobColumn,
    pub found: Vec<EmptyRow>,
}

/// Columns that are to be filled.
#[derive(Debug, PartialEq, Eq)]
pub struct Blobs {
    pub apply: Apply,
    pub phase: Phase,
    pub writes: Vec<BlobWrite>,
}

pub open spec fn blob_writes(list: Seq<BlobWrite>) -> Seq<BlobWriteView> {
    Seq::new(list.len(), |i: int| list[i]@)
}

impl View for Progress {
    type V = ProgressView;

    open spec fn view(&self) -> ProgressView {
        match self {
            Progress::MergeUser { apply } => ProgressView::MergeUser { apply: apply@ },
            Progress::RunUpserts { batch } => ProgressView::RunUpserts {
                apply: batch.apply@,
                phase: batch.phase,
                entries: entries(batch.entries@),
            },
            Progress::LoadProofs { apply, queries: list } => ProgressView::LoadProofs {
                apply: apply@,
                queries: queries(list@),
            },
            Progress::LoadTxids { apply, queries: list } => ProgressView::LoadTxids {
                apply: apply@,
                queries: queries(list@),
            },
            Progress::LoadBasketNames { apply, query } => ProgressView::LoadBasketNames {
                apply: apply@,
                query: query@,
            },
            Progress::LoadSpends { apply, queries: list } => ProgressView::LoadSpends {
                apply: apply@,
                queries: queries(list@),
            },
            Progress::FindEmpty { apply, column, queries: list } => ProgressView::FindEmpty {
                apply: apply@,
                column: *column,
                queries: queries(list@),
            },
            Progress::AskStore { asking } => ProgressView::AskStore {
                apply: asking.apply@,
                column: asking.column,
                found: empty_rows(asking.found@),
            },
            Progress::PutBlobs { blobs } => ProgressView::PutBlobs {
                apply: blobs.apply@,
                phase: blobs.phase,
                writes: blob_writes(blobs.writes@),
            },
            Progress::Done { result } => ProgressView::Done { result: *result },
        }
    }
}

// ---------------------------------------------------------------------------
// Planning
// ---------------------------------------------------------------------------

pub fn index(rows: &Vec<KeyedId>) -> (map: TextMap<i64>)
    ensures
        map.wf(),
        map@ == absorbed(Map::empty(), rows@),
{
    let mut map: TextMap<i64> = TextMap::new();
    absorb(&mut map, rows);
    map
}

impl Apply {
    fn holds(&self, column: BlobColumn, key: &str) -> (held: bool)
        ensures
            held == self@.is_held(column, key@),
    {
        let ghost want = HeldView { column, key: key@ };
        let mut i: usize = 0;
        while i < self.held.len()
            invariant
                want == (HeldView { column, key: key@ }),
                i <= self.held@.len(),
                forall|k: int| 0 <= k < i ==> (#[trigger] self.held@[k])@ != want,
            decreases self.held@.len() - i,
        {
            if self.held[i].column == column && same_text(self.held[i].key.as_str(), key) {
                assert(helds(self.held@)[i as int] == want);
                return true;
            }
            i = i + 1;
        }
        assert(!helds(self.held@).contains(want));
        false
    }

    fn basket_entries(&self) -> (list: Vec<Entry>)
        ensures
            entries(list@) == self@.planned(Phase::Baskets),
    {
        let mut list: Vec<Entry> = Vec::new();
        if let Some(rows) = &self.chunk.output_baskets {
            let mut i: usize = 0;
            while i < rows.len()
                invariant
                    i <= rows@.len(),
                    list@.len() == i,
                    forall|k: int|
                        0 <= k < i ==> (#[trigger] list@[k])@ == self@.basket_entry(rows@[k]),
                decreases rows@.len() - i,
            {
                let b = &rows[i];
                let blobs: Vec<Fill> = Vec::new();
                let entry = Entry {
                    query: build_upsert_basket(self.user_id, b),
                    foreign: b.basket_id,
                    updated_at: b.updated_at,
                    fills: blobs,
                };
                assert(entry@ =~= self@.basket_entry(*b));
                list.push(entry);
                i = i + 1;
            }
        }
        assert(entries(list@) =~= self@.planned(Phase::Baskets));
        list
    }

    fn proven_tx_req_entries(&self) -> (list: Vec<Entry>)
        ensures
            entries(list@) == self@.planned(Phase::ProvenTxReqs),
    {
        let mut list: Vec<Entry> = Vec::new();
        if let Some(rows) = &self.chunk.proven_tx_reqs {
            let mut i: usize = 0;
            while i < rows.len()
                invariant
                    i <= rows@.len(),
                    list@.len() == i,
                    forall|k: int|
                        0 <= k < i ==> (#[trigger] list@[k])@ == self@.proven_tx_req_entry(rows@[k]),
                decreases rows@.len() - i,
            {
                let req = &rows[i];
                let mut blobs: Vec<Fill> = Vec::new();
                push_overflow(&mut blobs, "proven_tx_reqs", "input_beef", &req.input_beef);
                let entry = Entry {
                    query: withhold(
                        build_upsert_proven_tx_req(req),
                        7,
                        self.holds(BlobColumn::RequestBeef, req.txid.as_str()),
                    ),
                    foreign: req.proven_tx_req_id,
                    updated_at: req.updated_at,
                    fills: blobs,
                };
                assert(entry@ =~= self@.proven_tx_req_entry(*req));
                list.push(entry);
                i = i + 1;
            }
        }
        assert(entries(list@) =~= self@.planned(Phase::ProvenTxReqs));
        list
    }

    fn proven_tx_entries(&self) -> (list: Vec<Entry>)
        ensures
            entries(list@) == self@.planned(Phase::ProvenTxs),
    {
        let mut list: Vec<Entry> = Vec::new();
        if let Some(rows) = &self.chunk.proven_txs {
            let mut i: usize = 0;
            while i < rows.len()
                invariant
                    i <= rows@.len(),
                    list@.len() == i,
                    forall|k: int|
                        0 <= k < i ==> (#[trigger] list@[k])@ == self@.proven_tx_entry(rows@[k]),
                decreases rows@.len() - i,
            {
                let p = &rows[i];
                let blobs: Vec<Fill> = Vec::new();
                let entry = Entry {
                    query: build_upsert_proven_tx(p),
                    foreign: p.proven_tx_id,
                    updated_at: p.updated_at,
                    fills: blobs,
                };
                assert(entry@ =~= self@.proven_tx_entry(*p));
                list.push(entry);
                i = i + 1;
            }
        }
        assert(entries(list@) =~= self@.planned(Phase::ProvenTxs));
        list
    }

    fn tx_label_entries(&self) -> (list: Vec<Entry>)
        ensures
            entries(list@) == self@.planned(Phase::TxLabels),
    {
        let mut list: Vec<Entry> = Vec::new();
        if let Some(rows) = &self.chunk.tx_labels {
            let mut i: usize = 0;
            while i < rows.len()
                invariant
                    i <= rows@.len(),
                    list@.len() == i,
                    forall|k: int|
                        0 <= k < i ==> (#[trigger] list@[k])@ == self@.tx_label_entry(rows@[k]),
                decreases rows@.len() - i,
            {
                let l = &rows[i];
                let blobs: Vec<Fill> = Vec::new();
                let entry = Entry {
                    query: build_upsert_tx_label(self.user_id, l),
                    foreign: l.label_id,
                    updated_at: l.updated_at,
                    fills: blobs,
                };
                assert(entry@ =~= self@.tx_label_entry(*l));
                list.push(entry);
                i = i + 1;
            }
        }
        assert(entries(list@) =~= self@.planned(Phase::TxLabels));
        list
    }

    fn output_tag_entries(&self) -> (list: Vec<Entry>)
        ensures
            entries(list@) == self@.planned(Phase::OutputTags),
    {
        let mut list: Vec<Entry> = Vec::new();
        if let Some(rows) = &self.chunk.output_tags {
            let mut i: usize = 0;
            while i < rows.len()
                invariant
                    i <= rows@.len(),
                    list@.len() == i,
                    forall|k: int|
                        0 <= k < i ==> (#[trigger] list@[k])@ == self@.output_tag_entry(rows@[k]),
                decreases rows@.len() - i,
            {
                let t = &rows[i];
                let blobs: Vec<Fill> = Vec::new();
                let entry = Entry {
                    query: build_upsert_output_tag(self.user_id, t),
                    foreign: t.tag_id,
                    updated_at: t.updated_at,
                    fills: blobs,
                };
                assert(entry@ =~= self@.output_tag_entry(*t));
                list.push(entry);
                i = i + 1;
            }
        }
        assert(entries(list@) =~= self@.planned(Phase::OutputTags));
        list
    }

    fn certificate_entries(&self) -> (list: Vec<Entry>)
        ensures
            entries(list@) == self@.planned(Phase::Certificates),
    {
        let mut list: Vec<Entry> = Vec::new();
        if let Some(rows) = &self.chunk.certificates {
            let mut i: usize = 0;
            while i < rows.len()
                invariant
                    i <= rows@.len(),
                    list@.len() == i,
                    forall|k: int|
                        0 <= k < i ==> (#[trigger] list@[k])@ == self@.certificate_entry(rows@[k]),
                decreases rows@.len() - i,
            {
                let c = &rows[i];
                let blobs: Vec<Fill> = Vec::new();
                let entry = Entry {
                    query: build_upsert_certificate(self.user_id, c),
                    foreign: c.certificate_id,
                    updated_at: c.updated_at,
                    fills: blobs,
                };
                assert(entry@ =~= self@.certificate_entry(*c));
                list.push(entry);
                i = i + 1;
            }
        }
        assert(entries(list@) =~= self@.planned(Phase::Certificates));
        list
    }

    fn transaction_entries(&self) -> (list: Vec<Entry>)
        ensures
            entries(list@) == self@.planned(Phase::Transactions),
    {
        let mut list: Vec<Entry> = Vec::new();
        let proofs = index(&self.proofs);
        if let Some(rows) = &self.chunk.transactions {
            let mut i: usize = 0;
            while i < rows.len()
                invariant
                    i <= rows@.len(),
                    list@.len() == i,
                    proofs.wf(),
                    proofs@ == absorbed(Map::empty(), self.proofs@),
                    forall|k: int|
                        0 <= k < i ==> (#[trigger] list@[k])@ == self@.transaction_entry(rows@[k]),
                decreases rows@.len() - i,
            {
                let tx = &rows[i];
                let proof_fk: Option<i64> = match &tx.proof_txid {
                    Some(txid) => proofs.get(txid.as_str()),
                    None => None,
                };
                let mut blobs: Vec<Fill> = Vec::new();
                push_overflow(&mut blobs, "transactions", "raw_tx", &tx.raw_tx);
                push_overflow(&mut blobs, "transactions", "input_beef", &tx.input_beef);
                let entry = Entry {
                    query: withhold(
                        withhold(
                            build_upsert_transaction(self.user_id, tx, proof_fk),
                            10,
                            self.holds(BlobColumn::RawTx, tx.reference.as_str()),
                        ),
                        11,
                        self.holds(BlobColumn::InputBeef, tx.reference.as_str()),
                    ),
                    foreign: tx.transaction_id,
                    updated_at: tx.updated_at,
                    fills: blobs,
                };
                assert(entry@ =~= self@.transaction_entry(*tx));
                list.push(entry);
                i = i + 1;
            }
        }
        assert(entries(list@) =~= self@.planned(Phase::Transactions));
        list
    }

    fn output_entries(&self) -> (list: Vec<Entry>)
        ensures
            entries(list@) == self@.planned(Phase::Outputs),
    {
        let mut list: Vec<Entry> = Vec::new();
        let txids = index(&self.txids);
        let names = index(&self.basket_names);
        let spends = index(&self.spends);
        let ghost all = rows_of(self.chunk.outputs);
        let ghost wanted = Seq::new(all.len(), |i: int| self@.output_entry(all[i]));
        if let Some(rows) = &self.chunk.outputs {
            let mut i: usize = 0;
            while i < rows.len()
                invariant
                    i <= rows@.len(),
                    all == rows@,
                    wanted == Seq::new(all.len(), |i: int| self@.output_entry(all[i])),
                    txids.wf(),
                    txids@ == absorbed(Map::empty(), self.txids@),
                    names.wf(),
                    names@ == absorbed(Map::empty(), self.basket_names@),
                    spends.wf(),
                    spends@ == absorbed(Map::empty(), self.spends@),
                    entries(list@) == kept(wanted.take(i as int)),
                decreases rows@.len() - i,
            {
                let o = &rows[i];
                proof {
                    assert(wanted.take(i + 1).drop_last() =~= wanted.take(i as int));
                    assert(wanted.take(i + 1).last() == self@.output_entry(*o));
                }
                let local_tx_id: Option<i64> = match find(&self.ids.transactions, o.transaction_id) {
                    Some(id) => Some(id),
                    None => txids.get(o.txid.as_str()),
                };
                let by_basket_id: Option<i64> = match o.basket_id {
                    Some(id) => find(&self.ids.baskets, id),
                    None => None,
                };
                let local_basket_id: Option<i64> = match by_basket_id {
                    Some(id) => Some(id),
                    None => match &o.basket_name {
                        Some(name) => names.get(name.as_str()),
                        None => None,
                    },
                };
                let by_spender_id: Option<i64> = match o.spent_by {
                    Some(id) => find(&self.ids.transactions, id),
                    None => None,
                };
                let local_spent_by: Option<i64> = match by_spender_id {
                    Some(id) => Some(id),
                    None => match &o.spent_by_reference {
                        Some(reference) => spends.get(reference.as_str()),
                        None => None,
                    },
                };
                if let Some(tx_id) = local_tx_id {
                    let mut blobs: Vec<Fill> = Vec::new();
                    push_overflow(&mut blobs, "outputs", "locking_script", &o.locking_script);
                    let entry = Entry {
                        query: withhold(
                            build_upsert_output(
                                self.user_id,
                                o,
                                tx_id,
                                local_basket_id,
                                local_spent_by,
                            ),
                            6,
                            self.holds(
                                BlobColumn::LockingScript,
                                output_key_text(tx_id, o.vout).as_str(),
                            ),
                        ),
                        foreign: o.output_id,
                        updated_at: o.updated_at,
                        fills: blobs,
                    };
                    assert(Some(entry@) =~= self@.output_entry(*o));
                    let ghost before = list@;
                    list.push(entry);
                    assert(entries(list@) =~= entries(before).push(entry@));
                }
                i = i + 1;
            }
            assert(wanted.take(i as int) =~= wanted);
        }
        assert(wanted.take(0) =~= Seq::empty());
        assert(entries(list@) =~= self@.planned(Phase::Outputs));
        list
    }

    fn certificate_field_entries(&self) -> (list: Vec<Entry>)
        ensures
            entries(list@) == self@.planned(Phase::CertificateFields),
    {
        let mut list: Vec<Entry> = Vec::new();
        let ghost all = rows_of(self.chunk.certificate_fields);
        let ghost wanted = Seq::new(all.len(), |i: int| self@.certificate_field_entry(all[i]));
        if let Some(rows) = &self.chunk.certificate_fields {
            let mut i: usize = 0;
            while i < rows.len()
                invariant
                    i <= rows@.len(),
                    all == rows@,
                    wanted == Seq::new(all.len(), |i: int| self@.certificate_field_entry(all[i])),
                    entries(list@) == kept(wanted.take(i as int)),
                decreases rows@.len() - i,
            {
                let f = &rows[i];
                proof {
                    assert(wanted.take(i + 1).drop_last() =~= wanted.take(i as int));
                    assert(wanted.take(i + 1).last() == self@.certificate_field_entry(*f));
                }
                if let Some(cert_id) = find(&self.ids.certificates, f.certificate_id) {
                    let blobs: Vec<Fill> = Vec::new();
                    let entry = Entry {
                        query: build_upsert_certificate_field(self.user_id, f, cert_id),
                        foreign: f.certificate_field_id,
                        updated_at: f.updated_at,
                        fills: blobs,
                    };
                    assert(Some(entry@) =~= self@.certificate_field_entry(*f));
                    let ghost before = list@;
                    list.push(entry);
                    assert(entries(list@) =~= entries(before).push(entry@));
                }
                i = i + 1;
            }
            assert(wanted.take(i as int) =~= wanted);
        }
        assert(wanted.take(0) =~= Seq::empty());
        assert(entries(list@) =~= self@.planned(Phase::CertificateFields));
        list
    }

    fn tx_label_map_entries(&self) -> (list: Vec<Entry>)
        ensures
            entries(list@) == self@.planned(Phase::TxLabelMaps),
    {
        let mut list: Vec<Entry> = Vec::new();
        let ghost all = rows_of(self.chunk.tx_label_maps);
        let ghost wanted = Seq::new(all.len(), |i: int| self@.tx_label_map_entry(all[i]));
        if let Some(rows) = &self.chunk.tx_label_maps {
            let mut i: usize = 0;
            while i < rows.len()
                invariant
                    i <= rows@.len(),
                    all == rows@,
                    wanted == Seq::new(all.len(), |i: int| self@.tx_label_map_entry(all[i])),
                    entries(list@) == kept(wanted.take(i as int)),
                decreases rows@.len() - i,
            {
                let m = &rows[i];
                proof {
                    assert(wanted.take(i + 1).drop_last() =~= wanted.take(i as int));
                    assert(wanted.take(i + 1).last() == self@.tx_label_map_entry(*m));
                }
                let local_tx = find(&self.ids.transactions, m.transaction_id);
                let local_label = find(&self.ids.labels, m.label_id);
                if let (Some(tx_id), Some(label_id)) = (local_tx, local_label) {
                    let blobs: Vec<Fill> = Vec::new();
                    let entry = Entry {
                        query: build_upsert_tx_label_map(
                            tx_id,
                            label_id,
                            m.updated_at,
                            m.created_at,
                        ),
                        foreign: m.tx_label_map_id,
                        updated_at: m.updated_at,
                        fills: blobs,
                    };
                    assert(Some(entry@) =~= self@.tx_label_map_entry(*m));
                    let ghost before = list@;
                    list.push(entry);
                    assert(entries(list@) =~= entries(before).push(entry@));
                }
                i = i + 1;
            }
            assert(wanted.take(i as int) =~= wanted);
        }
        assert(wanted.take(0) =~= Seq::empty());
        assert(entries(list@) =~= self@.planned(Phase::TxLabelMaps));
        list
    }

    fn output_tag_map_entries(&self) -> (list: Vec<Entry>)
        ensures
            entries(list@) == self@.planned(Phase::OutputTagMaps),
    {
        let mut list: Vec<Entry> = Vec::new();
        let ghost all = rows_of(self.chunk.output_tag_maps);
        let ghost wanted = Seq::new(all.len(), |i: int| self@.output_tag_map_entry(all[i]));
        if let Some(rows) = &self.chunk.output_tag_maps {
            let mut i: usize = 0;
            while i < rows.len()
                invariant
                    i <= rows@.len(),
                    all == rows@,
                    wanted == Seq::new(all.len(), |i: int| self@.output_tag_map_entry(all[i])),
                    entries(list@) == kept(wanted.take(i as int)),
                decreases rows@.len() - i,
            {
                let m = &rows[i];
                proof {
                    assert(wanted.take(i + 1).drop_last() =~= wanted.take(i as int));
                    assert(wanted.take(i + 1).last() == self@.output_tag_map_entry(*m));
                }
                let local_out = find(&self.ids.outputs, m.output_id);
                let local_tag = find(&self.ids.tags, m.tag_id);
                if let (Some(output_id), Some(tag_id)) = (local_out, local_tag) {
                    let blobs: Vec<Fill> = Vec::new();
                    let entry = Entry {
                        query: build_upsert_output_tag_map(
                            output_id,
                            tag_id,
                            m.updated_at,
                            m.created_at,
                        ),
                        foreign: m.output_tag_map_id,
                        updated_at: m.updated_at,
                        fills: blobs,
                    };
                    assert(Some(entry@) =~= self@.output_tag_map_entry(*m));
                    let ghost before = list@;
                    list.push(entry);
                    assert(entries(list@) =~= entries(before).push(entry@));
                }
                i = i + 1;
            }
            assert(wanted.take(i as int) =~= wanted);
        }
        assert(wanted.take(0) =~= Seq::empty());
        assert(entries(list@) =~= self@.planned(Phase::OutputTagMaps));
        list
    }

    fn commission_entries(&self) -> (list: Vec<Entry>)
        ensures
            entries(list@) == self@.planned(Phase::Commissions),
    {
        let mut list: Vec<Entry> = Vec::new();
        let ghost all = rows_of(self.chunk.commissions);
        let ghost wanted = Seq::new(all.len(), |i: int| self@.commission_entry(all[i]));
        if let Some(rows) = &self.chunk.commissions {
            let mut i: usize = 0;
            while i < rows.len()
                invariant
                    i <= rows@.len(),
                    all == rows@,
                    wanted == Seq::new(all.len(), |i: int| self@.commission_entry(all[i])),
                    entries(list@) == kept(wanted.take(i as int)),
                decreases rows@.len() - i,
            {
                let c = &rows[i];
                proof {
                    assert(wanted.take(i + 1).drop_last() =~= wanted.take(i as int));
                    assert(wanted.take(i + 1).last() == self@.commission_entry(*c));
                }
                if let Some(tx_id) = find(&self.ids.transactions, c.transaction_id) {
                    let blobs: Vec<Fill> = Vec::new();
                    let entry = Entry {
                        query: build_upsert_commission(self.user_id, c, tx_id),
                        foreign: c.commission_id,
                        updated_at: c.updated_at,
                        fills: blobs,
                    };
                    assert(Some(entry@) =~= self@.commission_entry(*c));
                    let ghost before = list@;
                    list.push(entry);
                    assert(entries(list@) =~= entries(before).push(entry@));
                }
                i = i + 1;
            }
            assert(wanted.take(i as int) =~= wanted);
        }
        assert(wanted.take(0) =~= Seq::empty());
        assert(entries(list@) =~= self@.planned(Phase::Commissions));
        list
    }

    /// The rows that a phase merges.
    fn plan(&self, phase: Phase) -> (list: Vec<Entry>)
        ensures
            entries(list@) == self@.planned(phase),
    {
        match phase {
            Phase::Baskets => self.basket_entries(),
            Phase::ProvenTxReqs => self.proven_tx_req_entries(),
            Phase::ProvenTxs => self.proven_tx_entries(),
            Phase::TxLabels => self.tx_label_entries(),
            Phase::OutputTags => self.output_tag_entries(),
            Phase::Certificates => self.certificate_entries(),
            Phase::Transactions => self.transaction_entries(),
            Phase::Outputs => self.output_entries(),
            Phase::CertificateFields => self.certificate_field_entries(),
            Phase::TxLabelMaps => self.tx_label_map_entries(),
            Phase::OutputTagMaps => self.output_tag_map_entries(),
            Phase::Commissions => self.commission_entries(),
            Phase::Finished => {
                let list: Vec<Entry> = Vec::new();
                assert(entries(list@) =~= self@.planned(phase));
                list
            },
        }
    }
}

// ---------------------------------------------------------------------------
// Running
// ---------------------------------------------------------------------------

fn record(map: &mut HashMap<i64, i64>, list: &Vec<Entry>, ids: &Vec<i64>, n: usize)
    requires
        n <= list@.len(),
        n <= ids@.len(),
    ensures
        final(map)@ == recorded(old(map)@, entries(list@), ids@, n as int),
{
    broadcast use vstd::std_specs::hash::group_hash_axioms;

    let mut i: usize = 0;
    while i < n
        invariant
            i <= n <= list@.len(),
            n <= ids@.len(),
            map@ == recorded(old(map)@, entries(list@), ids@, i as int),
        decreases n - i,
    {
        map.insert(list[i].foreign, ids[i]);
        i = i + 1;
    }
}

fn see_entries(max: &mut Option<Timestamp>, list: &Vec<Entry>, n: usize)
    requires
        n <= list@.len(),
    ensures
        *final(max) == latest_of(*old(max), times(entries(list@), n as int)),
{
    let ghost all = entries(list@);
    let mut i: usize = 0;
    while i < n
        invariant
            i <= n <= list@.len(),
            all == entries(list@),
            *max == latest_of(*old(max), times(all, i as int)),
        decreases n - i,
    {
        update_max(max, list[i].updated_at);
        i = i + 1;
        assert(times(all, i as int).drop_last() =~= times(all, i - 1));
    }
}

fn see_proven_txs(max: &mut Option<Timestamp>, rows: &Vec<TableProvenTx>)
    ensures
        *final(max) == latest_of(
            *old(max),
            Seq::new(rows@.len(), |i: int| rows@[i].updated_at),
        ),
{
    let ghost all = Seq::new(rows@.len(), |i: int| rows@[i].updated_at);
    let mut i: usize = 0;
    while i < rows.len()
        invariant
            i <= rows@.len(),
            all == Seq::new(rows@.len(), |i: int| rows@[i].updated_at),
            *max == latest_of(*old(max), all.take(i as int)),
        decreases rows@.len() - i,
    {
        update_max(max, rows[i].updated_at);
        i = i + 1;
        assert(all.take(i as int).drop_last() =~= all.take(i - 1));
    }
    assert(all.take(i as int) =~= all);
}

fn see_certificate_fields(max: &mut Option<Timestamp>, rows: &Vec<TableCertificateField>)
    ensures
        *final(max) == latest_of(
            *old(max),
            Seq::new(rows@.len(), |i: int| rows@[i].updated_at),
        ),
{
    let ghost all = Seq::new(rows@.len(), |i: int| rows@[i].updated_at);
    let mut i: usize = 0;
    while i < rows.len()
        invariant
            i <= rows@.len(),
            all == Seq::new(rows@.len(), |i: int| rows@[i].updated_at),
            *max == latest_of(*old(max), all.take(i as int)),
        decreases rows@.len() - i,
    {
        update_max(max, rows[i].updated_at);
        i = i + 1;
        assert(all.take(i as int).drop_last() =~= all.take(i - 1));
    }
    assert(all.take(i as int) =~= all);
}

/// The columns to fill for the rows of a batch that got an id.
fn collect_writes(list: &Vec<Entry>, ids: &Vec<i64>, n: usize) -> (all: Vec<BlobWrite>)
    requires
        n <= list@.len(),
        n <= ids@.len(),
    ensures
        blob_writes(all@) == writes(entries(list@), ids@, n as int),
{
    let ghost views = entries(list@);
    let mut all: Vec<BlobWrite> = Vec::new();
    let mut i: usize = 0;
    assert(blob_writes(all@) =~= Seq::empty());
    while i < n
        invariant
            i <= n <= list@.len(),
            n <= ids@.len(),
            views == entries(list@),
            blob_writes(all@) == writes(views, ids@, i as int),
        decreases n - i,
    {
        let entry = &list[i];
        let ghost before = all@;
        let ghost more = fill_writes(views[i as int], ids@[i as int]);
        let mut k: usize = 0;
        assert(more.take(0) =~= Seq::empty());
        assert(blob_writes(all@) =~= blob_writes(before) + more.take(0));
        while k < entry.fills.len()
            invariant
                i < n <= ids@.len(),
                k <= entry.fills@.len(),
                entry@ == views[i as int],
                more == fill_writes(views[i as int], ids@[i as int]),
                blob_writes(all@) == blob_writes(before) + more.take(k as int),
            decreases entry.fills@.len() - k,
        {
            let fill = &entry.fills[k];
            let ghost so_far = all@;
            let write = BlobWrite {
                table: fill.table.clone(),
                id: ids[i],
                column: fill.column.clone(),
                bytes: vstd::slice::slice_to_vec(fill.bytes.as_slice()),
                updated_at: entry.updated_at,
                also_updated: false,
            };
            proof {
                assert(entry@.fills[k as int] == fill@);
                assert(write@ =~= more[k as int]);
            }
            all.push(write);
            k = k + 1;
            assert(blob_writes(all@) =~= blob_writes(so_far).push(more[k - 1]));
            assert(blob_writes(all@) =~= blob_writes(before) + more.take(k as int));
        }
        assert(more.take(k as int) =~= more);
        i = i + 1;
    }
    all
}

fn proof_keys(rows: &Vec<TableTransaction>) -> (keys: Vec<String>)
    ensures
        texts(keys@) == proof_txids(rows@),
{
    let mut keys: Vec<String> = Vec::new();
    let mut i: usize = 0;
    assert(texts(keys@) =~= Seq::empty());
    while i < rows.len()
        invariant
            i <= rows@.len(),
            texts(keys@) == proof_txids(rows@.take(i as int)),
        decreases rows@.len() - i,
    {
        proof {
            assert(rows@.take(i + 1).drop_last() =~= rows@.take(i as int));
        }
        if let Some(txid) = &rows[i].proof_txid {
            let ghost before = keys@;
            keys.push(txid.clone());
            assert(texts(keys@) =~= texts(before).push(txid@));
        }
        i = i + 1;
    }
    assert(rows@.take(i as int) =~= rows@);
    keys
}

fn spend_keys(rows: &Vec<TableOutput>) -> (keys: Vec<String>)
    ensures
        texts(keys@) == spend_references(rows@),
{
    let mut keys: Vec<String> = Vec::new();
    let mut i: usize = 0;
    assert(texts(keys@) =~= Seq::empty());
    while i < rows.len()
        invariant
            i <= rows@.len(),
            texts(keys@) == spend_references(rows@.take(i as int)),
        decreases rows@.len() - i,
    {
        proof {
            assert(rows@.take(i + 1).drop_last() =~= rows@.take(i as int));
        }
        if let Some(reference) = &rows[i].spent_by_reference {
            let ghost before = keys@;
            keys.push(reference.clone());
            assert(texts(keys@) =~= texts(before).push(reference@));
        }
        i = i + 1;
    }
    assert(rows@.take(i as int) =~= rows@);
    keys
}

fn output_txids(rows: &Vec<TableOutput>) -> (keys: Vec<String>)
    ensures
        texts(keys@) == Seq::new(rows@.len(), |i: int| rows@[i].txid@),
{
    let mut keys: Vec<String> = Vec::new();
    let mut i: usize = 0;
    while i < rows.len()
        invariant
            i <= rows@.len(),
            keys@.len() == i,
            forall|k: int| 0 <= k < i ==> (#[trigger] keys@[k])@ == rows@[k].txid@,
        decreases rows@.len() - i,
    {
        keys.push(rows[i].txid.clone());
        i = i + 1;
    }
    assert(texts(keys@) =~= Seq::new(rows@.len(), |i: int| rows@[i].txid@));
    keys
}

impl Apply {
    fn load_proofs(&self) -> (list: Vec<Query>)
        ensures
            queries(list@) == self@.proof_queries(),
    {
        let keys: Vec<String> = match &self.chunk.transactions {
            Some(rows) => proof_keys(rows),
            None => Vec::new(),
        };
        assert(texts(keys@) =~= proof_txids(rows_of(self.chunk.transactions)));
        load_id_map_by_txid("proven_txs", "proven_tx_id", None, &keys)
    }

    fn load_txids(&self) -> (list: Vec<Query>)
        ensures
            queries(list@) == self@.txid_queries(),
    {
        let keys: Vec<String> = match &self.chunk.outputs {
            Some(rows) => output_txids(rows),
            None => Vec::new(),
        };
        proof {
            let rows = rows_of(self.chunk.outputs);
            assert(texts(keys@) =~= Seq::new(rows.len(), |i: int| rows[i].txid@));
        }
        load_id_map_by_txid("transactions", "transaction_id", Some(self.user_id), &keys)
    }

    fn load_spends(&self) -> (list: Vec<Query>)
        ensures
            queries(list@) == self@.spend_queries(),
    {
        let keys: Vec<String> = match &self.chunk.outputs {
            Some(rows) => spend_keys(rows),
            None => Vec::new(),
        };
        assert(texts(keys@) =~= spend_references(rows_of(self.chunk.outputs)));
        load_tx_id_by_reference(self.user_id, &keys)
    }

    fn request_keys(&self) -> (keys: Vec<String>)
        ensures
            texts(keys@) == self@.wanted(BlobColumn::RequestBeef),
    {
        let mut keys: Vec<String> = Vec::new();
        let ghost all = rows_of(self.chunk.proven_tx_reqs);
        let ghost list = Seq::new(
            all.len(),
            |i: int|
                if short(all[i].input_beef) {
                    Some(all[i].txid@)
                } else {
                    None
                },
        );
        if let Some(rows) = &self.chunk.proven_tx_reqs {
            let mut i: usize = 0;
            assert(texts(keys@) =~= given(list.take(0)));
            while i < rows.len()
                invariant
                    i <= rows@.len(),
                    rows@ == all,
                    list.len() == all.len(),
                    forall|k: int|
                        0 <= k < list.len() ==> list[k] == (if short(all[k].input_beef) {
                            Some(all[k].txid@)
                        } else {
                            None
                        }),
                    texts(keys@) == given(list.take(i as int)),
                decreases rows@.len() - i,
            {
                proof {
                    assert(list.take(i + 1).drop_last() =~= list.take(i as int));
                }
                if is_short(&rows[i].input_beef) {
                    let ghost before = keys@;
                    keys.push(rows[i].txid.clone());
                    assert(texts(keys@) =~= texts(before).push(rows@[i as int].txid@));
                }
                i = i + 1;
            }
        }
        assert(list.take(list.len() as int) =~= list);
        assert(texts(keys@) =~= given(list));
        keys
    }

    fn transaction_keys(&self, beef: bool) -> (keys: Vec<String>)
        ensures
            texts(keys@) == self@.wanted(if beef {
                BlobColumn::InputBeef
            } else {
                BlobColumn::RawTx
            }),
    {
        let mut keys: Vec<String> = Vec::new();
        let ghost all = rows_of(self.chunk.transactions);
        let ghost list = Seq::new(
            all.len(),
            |i: int|
                if short(if beef { all[i].input_beef } else { all[i].raw_tx }) {
                    Some(all[i].reference@)
                } else {
                    None
                },
        );
        if let Some(rows) = &self.chunk.transactions {
            let mut i: usize = 0;
            assert(texts(keys@) =~= given(list.take(0)));
            while i < rows.len()
                invariant
                    i <= rows@.len(),
                    rows@ == all,
                    list.len() == all.len(),
                    forall|k: int|
                        0 <= k < list.len() ==> list[k] == (if short(
                            if beef { all[k].input_beef } else { all[k].raw_tx },
                        ) {
                            Some(all[k].reference@)
                        } else {
                            None
                        }),
                    texts(keys@) == given(list.take(i as int)),
                decreases rows@.len() - i,
            {
                proof {
                    assert(list.take(i + 1).drop_last() =~= list.take(i as int));
                }
                let fits = if beef {
                    is_short(&rows[i].input_beef)
                } else {
                    is_short(&rows[i].raw_tx)
                };
                if fits {
                    let ghost before = keys@;
                    keys.push(rows[i].reference.clone());
                    assert(texts(keys@) =~= texts(before).push(rows@[i as int].reference@));
                }
                i = i + 1;
            }
        }
        proof {
            assert(list.take(list.len() as int) =~= list);
            assert(texts(keys@) =~= given(list));
            let rows = rows_of(self.chunk.transactions);
            if beef {
                assert(list =~= Seq::new(
                    rows.len(),
                    |i: int|
                        if short(rows[i].input_beef) {
                            Some(rows[i].reference@)
                        } else {
                            None
                        },
                ));
            } else {
                assert(list =~= Seq::new(
                    rows.len(),
                    |i: int|
                        if short(rows[i].raw_tx) {
                            Some(rows[i].reference@)
                        } else {
                            None
                        },
                ));
            }
        }
        keys
    }

    fn output_keys(&self) -> (keys: Vec<String>)
        ensures
            texts(keys@) == self@.wanted(BlobColumn::LockingScript),
    {
        let mut keys: Vec<String> = Vec::new();
        let txids = index(&self.txids);
        let ghost all = rows_of(self.chunk.outputs);
        let ghost list = Seq::new(all.len(), |i: int| self@.wanted_output(all[i]));
        if let Some(rows) = &self.chunk.outputs {
            let mut i: usize = 0;
            assert(texts(keys@) =~= given(list.take(0)));
            while i < rows.len()
                invariant
                    i <= rows@.len(),
                    rows@ == all,
                    txids.wf(),
                    txids@ == absorbed(Map::empty(), self.txids@),
                    list == Seq::new(all.len(), |i: int| self@.wanted_output(all[i])),
                    texts(keys@) == given(list.take(i as int)),
                decreases rows@.len() - i,
            {
                let o = &rows[i];
                proof {
                    assert(list.take(i + 1).drop_last() =~= list.take(i as int));
                    assert(list.take(i + 1).last() == self@.wanted_output(*o));
                }
                let local_tx_id: Option<i64> = match find(&self.ids.transactions, o.transaction_id) {
                    Some(id) => Some(id),
                    None => txids.get(o.txid.as_str()),
                };
                if let Some(tx_id) = local_tx_id {
                    if is_short(&o.locking_script) {
                        let ghost before = keys@;
                        let key = output_key_text(tx_id, o.vout);
                        keys.push(key);
                        assert(texts(keys@) =~= texts(before).push(key@));
                    }
                }
                i = i + 1;
            }
        }
        assert(list.take(list.len() as int) =~= list);
        assert(texts(keys@) =~= given(list));
        keys
    }

    fn load_empty(&self, column: BlobColumn) -> (list: Vec<Query>)
        ensures
            queries(list@) == self@.empty_queries(column),
    {
        let keys = match column {
            BlobColumn::RequestBeef => self.request_keys(),
            BlobColumn::RawTx => self.transaction_keys(false),
            BlobColumn::InputBeef => self.transaction_keys(true),
            BlobColumn::LockingScript => self.output_keys(),
        };
        let user_id: Option<i64> = match column {
            BlobColumn::RequestBeef => None,
            _ => Some(self.user_id),
        };
        load_by_keys(column.selection(), user_id, &keys)
    }

    /// Takes over what a batch returned.
    fn settle(&mut self, phase: Phase, list: &Vec<Entry>, ids: &Vec<i64>)
        ensures
            final(self)@ == old(self)@.settled(phase, entries(list@), ids@),
    {
        let n: usize = if list.len() <= ids.len() {
            list.len()
        } else {
            ids.len()
        };
        match phase {
            Phase::ProvenTxs => {
                self.result.inserts = count_more(self.result.inserts, ids.len());
                if let Some(rows) = &self.chunk.proven_txs {
                    see_proven_txs(&mut self.result.max_updated_at, rows);
                }
            },
            Phase::CertificateFields => {
                self.result.inserts = count_more(self.result.inserts, list.len());
                if let Some(rows) = &self.chunk.certificate_fields {
                    see_certificate_fields(&mut self.result.max_updated_at, rows);
                }
            },
            Phase::TxLabelMaps | Phase::OutputTagMaps | Phase::Commissions => {
                self.result.inserts = count_more(self.result.inserts, list.len());
            },
            _ => {
                self.result.inserts = count_more(self.result.inserts, n);
                see_entries(&mut self.result.max_updated_at, list, n);
                match phase {
                    Phase::Baskets => {
                        record(&mut self.ids.baskets, list, ids, n);
                    },
                    Phase::TxLabels => {
                        record(&mut self.ids.labels, list, ids, n);
                    },
                    Phase::OutputTags => {
                        record(&mut self.ids.tags, list, ids, n);
                    },
                    Phase::Certificates => {
                        record(&mut self.ids.certificates, list, ids, n);
                    },
                    Phase::Transactions => {
                        record(&mut self.ids.transactions, list, ids, n);
                    },
                    Phase::Outputs => {
                        record(&mut self.ids.outputs, list, ids, n);
                    },
                    _ => {},
                }
            },
        }
        assert(self@ =~= old(self)@.settled(phase, entries(list@), ids@));
    }

    fn enter(self, phase: Phase) -> (step: Progress)
        ensures
            step@ == self@.enter(phase),
        decreases phase.left(), 3int,
    {
        match phase {
            Phase::Finished => Progress::Done { result: self.result },
            Phase::ProvenTxReqs => self.probe(BlobColumn::RequestBeef),
            Phase::Transactions => {
                let list = self.load_proofs();
                if list.len() > 0 {
                    Progress::LoadProofs { apply: self, queries: list }
                } else {
                    self.probe(BlobColumn::RawTx)
                }
            },
            Phase::Outputs => {
                if self.chunk.outputs.is_none() {
                    self.run(phase)
                } else {
                    let list = self.load_txids();
                    if list.len() > 0 {
                        Progress::LoadTxids { apply: self, queries: list }
                    } else {
                        let query = load_basket_name_map(self.user_id);
                        Progress::LoadBasketNames { apply: self, query }
                    }
                }
            },
            _ => self.run(phase),
        }
    }

    fn probe(self, column: BlobColumn) -> (step: Progress)
        ensures
            step@ == self@.probe(column),
        decreases column.phase().left(), column.left() + 1,
    {
        let list = self.load_empty(column);
        if list.len() > 0 {
            Progress::FindEmpty { apply: self, column, queries: list }
        } else {
            match column.next() {
                Some(next) => self.probe(next),
                None => self.run(column.in_phase()),
            }
        }
    }

    fn past(self, column: BlobColumn) -> (step: Progress)
        ensures
            step@ == self@.past(column),
    {
        match column.next() {
            Some(next) => self.probe(next),
            None => self.run(column.in_phase()),
        }
    }

    fn run(self, phase: Phase) -> (step: Progress)
        ensures
            step@ == self@.run(phase),
        decreases phase.left(), 0int,
    {
        if phase == Phase::Finished {
            return Progress::Done { result: self.result };
        }
        let list = self.plan(phase);
        if list.len() > 0 {
            Progress::RunUpserts { batch: Batch { apply: self, phase, entries: list } }
        } else {
            let mut after = self;
            let none: Vec<i64> = Vec::new();
            after.settle(phase, &list, &none);
            proof {
                assert(entries(list@) =~= self@.planned(phase));
                assert(none@ =~= Seq::<i64>::empty());
            }
            after.enter(phase.next())
        }
    }

    fn rest(self) -> (step: Progress)
        ensures
            step@ == self@.rest(),
    {
        if chunk_is_empty(&self.chunk) {
            let mut result = self.result;
            result.done = true;
            Progress::Done { result }
        } else {
            self.enter(Phase::Baskets)
        }
    }

    /// Goes on with whether the user record was written.
    pub fn after_user(self, updated: bool) -> (step: Progress)
        ensures
            step@ == self@.after_user(updated),
    {
        let mut after = self;
        if updated {
            after.result.updates = count_more(after.result.updates, 1);
        }
        if let Some(user) = &after.chunk.user {
            update_max(&mut after.result.max_updated_at, user.updated_at);
        }
        after.rest()
    }

    /// Goes on with the proven transactions that the statements of `LoadProofs` found.
    pub fn after_proofs(self, rows: Vec<KeyedId>) -> (step: Progress)
        ensures
            step@ == (ApplyView { proofs: rows@, ..self@ }).probe(BlobColumn::RawTx),
    {
        let mut after = self;
        after.proofs = rows;
        assert(after@ =~= (ApplyView { proofs: rows@, ..self@ }));
        after.probe(BlobColumn::RawTx)
    }

    /// Goes on with the transactions that the statements of `LoadTxids` found.
    pub fn after_txids(self, rows: Vec<KeyedId>) -> (step: Progress)
        ensures
            step@ == self@.after_txids(rows@),
    {
        let mut after = self;
        after.txids = rows;
        assert(after@ =~= (ApplyView { txids: rows@, ..self@ }));
        let query = load_basket_name_map(after.user_id);
        Progress::LoadBasketNames { apply: after, query }
    }

    /// Goes on with the baskets that the statement of `LoadBasketNames` found.
    pub fn after_basket_names(self, rows: Vec<KeyedId>) -> (step: Progress)
        ensures
            step@ == self@.after_basket_names(rows@),
    {
        let mut after = self;
        after.basket_names = rows;
        assert(after@ =~= (ApplyView { basket_names: rows@, ..self@ }));
        let list = after.load_spends();
        if list.len() > 0 {
            Progress::LoadSpends { apply: after, queries: list }
        } else {
            after.probe(BlobColumn::LockingScript)
        }
    }

    /// Goes on with the transactions that the statements of `LoadSpends` found.
    pub fn after_spends(self, rows: Vec<KeyedId>) -> (step: Progress)
        ensures
            step@ == (ApplyView { spends: rows@, ..self@ }).probe(BlobColumn::LockingScript),
    {
        let mut after = self;
        after.spends = rows;
        assert(after@ =~= (ApplyView { spends: rows@, ..self@ }));
        after.probe(BlobColumn::LockingScript)
    }

    /// Goes on with the rows that the statements of `FindEmpty` found for a column.
    pub fn after_empty(self, column: BlobColumn, rows: Vec<KeyedId>) -> (step: Progress)
        ensures
            step@ == self@.after_empty(column, rows@),
    {
        let found = collect_found(&rows);
        if found.len() > 0 {
            Progress::AskStore { asking: Asking { apply: self, column, found } }
        } else {
            assert(empty_rows(found@).len() == 0);
            self.past(column)
        }
    }
}

impl Asking {
    /// Goes on with whether the object store holds the blobs, in the order of the rows.
    pub fn after_store(self, exists: Vec<bool>) -> (step: Progress)
        ensures
            step@ == self.apply@.holding(self.column, empty_rows(self.found@), exists@).past(
                self.column,
            ),
    {
        let column = self.column;
        let mut after = self.apply;
        hold(&mut after.held, column, &self.found, &exists);
        assert(after@ =~= self.apply@.holding(column, empty_rows(self.found@), exists@));
        after.past(column)
    }
}

impl Batch {
    /// Goes on with the ids that the batch returned, in the order of its entries.
    pub fn after_ids(self, ids: Vec<i64>) -> (step: Progress)
        ensures
            step@ == self.apply@.after_batch(self.phase, entries(self.entries@), ids@),
    {
        let n: usize = if self.entries.len() <= ids.len() {
            self.entries.len()
        } else {
            ids.len()
        };
        let list = collect_writes(&self.entries, &ids, n);
        let phase = self.phase;
        let mut after = self.apply;
        after.settle(phase, &self.entries, &ids);
        if list.len() > 0 {
            Progress::PutBlobs { blobs: Blobs { apply: after, phase, writes: list } }
        } else {
            assert(blob_writes(list@).len() == 0);
            after.enter(phase.next())
        }
    }
}

impl Blobs {
    /// Goes on once all columns are filled.
    pub fn after_fills(self) -> (step: Progress)
        ensures
            step@ == self.apply@.enter(self.phase.following()),
    {
        let next = self.phase.next();
        self.apply.enter(next)
    }
}

// ---------------------------------------------------------------------------
// Start
// ---------------------------------------------------------------------------

/// The message for a chunk of another user.
pub open spec fn mismatch_text(chunk_key: Seq<char>, args_key: Seq<char>) -> Seq<char> {
    "processSyncChunk: chunk user identity key "@ + chunk_key
        + " does not match args identity key "@ + args_key
}

/// The answer before anything was merged.
pub open spec fn no_result() -> ProcessSyncChunkResult {
    ProcessSyncChunkResult { done: false, max_updated_at: None, updates: 0, inserts: 0, error: None }
}

/// A merge of which nothing has been done.
pub open spec fn fresh(user_id: i64, chunk: SyncChunk) -> ApplyView {
    ApplyView {
        user_id,
        chunk,
        result: no_result(),
        ids: LocalIdsView {
            baskets: Map::empty(),
            labels: Map::empty(),
            tags: Map::empty(),
            transactions: Map::empty(),
            outputs: Map::empty(),
            certificates: Map::empty(),
        },
        proofs: Seq::empty(),
        txids: Seq::empty(),
        basket_names: Seq::empty(),
        spends: Seq::empty(),
        held: Seq::empty(),
    }
}

/// The first step: the user record where the chunk has one, else what comes after it.
pub open spec fn first_step(user_id: i64, chunk: SyncChunk) -> ProgressView {
    if chunk.user is Some {
        ProgressView::MergeUser { apply: fresh(user_id, chunk) }
    } else {
        fresh(user_id, chunk).rest()
    }
}

pub fn no_ids() -> (ids: LocalIds)
    ensures
        ids@ == fresh(0, arbitrary()).ids,
{
    broadcast use vstd::std_specs::hash::group_hash_axioms;

    let ids = LocalIds {
        baskets: HashMap::new(),
        labels: HashMap::new(),
        tags: HashMap::new(),
        transactions: HashMap::new(),
        outputs: HashMap::new(),
        certificates: HashMap::new(),
    };
    assert(ids@ =~= fresh(0, arbitrary()).ids);
    ids
}

/// Refuses a chunk of another user.
pub fn check_identity(args: &RequestSyncChunkArgs, chunk: &SyncChunk) -> (checked: Result<(), Error>)
    ensures
        checked is Ok <==> chunk.user_identity_key@ == args.identity_key@,
        checked matches Err(e) ==> e@ == ErrorView::ValidationError(
            mismatch_text(chunk.user_identity_key@, args.identity_key@),
        ),
{
    if same_text(chunk.user_identity_key.as_str(), args.identity_key.as_str()) {
        Ok(())
    } else {
        let mut message = "processSyncChunk: chunk user identity key ".to_owned();
        message.append(chunk.user_identity_key.as_str());
        message.append(" does not match args identity key ");
        message.append(args.identity_key.as_str());
        Err(Error::ValidationError(message))
    }
}

impl StorageD1 {
    /// Starts to merge a chunk into a user's data. A chunk of another user is refused
    /// before anything is asked of the store.
    pub fn process_sync_chunk(user_id: i64, args: RequestSyncChunkArgs, chunk: SyncChunk) -> (step:
        Result<Progress, Error>)
        ensures
            step is Ok <==> chunk.user_identity_key@ == args.identity_key@,
            step matches Ok(p) ==> p@ == first_step(user_id, chunk),
            step matches Err(e) ==> e@ == ErrorView::ValidationError(
                mismatch_text(chunk.user_identity_key@, args.identity_key@),
            ),
    {
        match check_identity(&args, &chunk) {
            Err(e) => Err(e),
            Ok(_) => {
                let has_user = chunk.user.is_some();
                let apply = Apply {
                    user_id,
                    chunk,
                    result: ProcessSyncChunkResult {
                        done: false,
                        max_updated_at: None,
                        updates: 0,
                        inserts: 0,
                        error: None,
                    },
                    ids: no_ids(),
                    proofs: Vec::new(),
                    txids: Vec::new(),
                    basket_names: Vec::new(),
                    spends: Vec::new(),
                    held: Vec::new(),
                };
                assert(apply@ =~= fresh(user_id, chunk));
                if has_user {
                    Ok(Progress::MergeUser { apply })
                } else {
                    Ok(apply.rest())
                }
            },
        }
    }
}

} // verus!
