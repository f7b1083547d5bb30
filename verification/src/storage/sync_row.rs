//! The merge of one row of a sync chunk, step by step: the row is looked up by its key, then
//! inserted, updated where it is newer, or left alone; its blobs are filled after that.

use crate::entities::{
    TableCertificate, TableCertificateField, TableCommission, TableOutput, TableOutputBasket,
    TableOutputTag, TableOutputTagMap, TableProvenTx, TableProvenTxReq, TableTransaction,
    TableTxLabel, TableTxLabelMap,
};
use crate::sql::query::{Query, QueryView};
use crate::storage::apply::blob_writes;
use crate::storage::blob_column::{BlobWrite, BlobWriteView};
use crate::storage::sequential::{
    basket_insert_query, basket_lookup, basket_update_query, certificate_field_insert_query,
    certificate_field_lookup, certificate_field_update_query, certificate_insert_query,
    certificate_lookup, certificate_update_query, commission_insert_query, commission_lookup,
    commission_update_query, insert_basket, insert_certificate, insert_certificate_field,
    insert_commission, insert_output, insert_output_tag, insert_output_tag_map, insert_proven_tx,
    insert_proven_tx_req, insert_transaction, insert_tx_label, insert_tx_label_map, link_proof,
    lookup_basket, lookup_certificate, lookup_certificate_field, lookup_commission,
    lookup_output, lookup_output_tag, lookup_output_tag_map, lookup_proven_tx,
    lookup_proven_tx_req, lookup_transaction, lookup_tx_label, lookup_tx_label_map,
    output_insert_query, output_lookup, output_tag_insert_query, output_tag_lookup,
    output_tag_map_insert_query, output_tag_map_lookup, output_tag_map_update_query,
    output_tag_update_query, output_update_query, proof_link_query, proof_lookup,
    proven_tx_insert_query, proven_tx_lookup, proven_tx_req_insert_query, proven_tx_req_lookup,
    proven_tx_req_update_query, proven_tx_update_query, resolve_proof_fk,
    transaction_insert_query, transaction_lookup, transaction_update_query,
    tx_label_insert_query, tx_label_lookup, tx_label_map_insert_query, tx_label_map_lookup,
    tx_label_map_update_query, tx_label_update_query, update_basket, update_certificate,
    update_certificate_field, update_commission, update_output, update_output_tag,
    update_output_tag_map, update_proven_tx, update_proven_tx_req, update_transaction,
    update_tx_label, update_tx_label_map,
};
use crate::time::Timestamp;
use vstd::prelude::*;

verus! {

// ---------------------------------------------------------------------------
// One row
// ---------------------------------------------------------------------------

/// A row of a chunk with the local ids of its parents.
#[allow(inconsistent_fields)]
pub enum SyncRowView {
    Basket { user_id: i64, row: TableOutputBasket },
    ProvenTxReq { row: TableProvenTxReq },
    ProvenTx { row: TableProvenTx },
    TxLabel { user_id: i64, row: TableTxLabel },
    OutputTag { user_id: i64, row: TableOutputTag },
    Transaction { user_id: i64, row: TableTransaction },
    Output { user_id: i64, row: TableOutput, tx_id: i64, basket_id: Option<i64> },
    TxLabelMap { row: TableTxLabelMap, tx_id: i64, label_id: i64 },
    OutputTagMap { row: TableOutputTagMap, output_id: i64, tag_id: i64 },
    Certificate { user_id: i64, row: TableCertificate },
    CertificateField { user_id: i64, row: TableCertificateField, cert_id: i64 },
    Commission { user_id: i64, row: TableCommission, tx_id: i64 },
}

/// A row of a chunk with the local ids of its parents.
#[allow(inconsistent_fields)]
#[derive(Debug, PartialEq, Eq)]
pub enum SyncRow<'a> {
    Basket { user_id: i64, row: &'a TableOutputBasket },
    ProvenTxReq { row: &'a TableProvenTxReq },
    ProvenTx { row: &'a TableProvenTx },
    TxLabel { user_id: i64, row: &'a TableTxLabel },
    OutputTag { user_id: i64, row: &'a TableOutputTag },
    Transaction { user_id: i64, row: &'a TableTransaction },
    Output { user_id: i64, row: &'a TableOutput, tx_id: i64, basket_id: Option<i64> },
    TxLabelMap { row: &'a TableTxLabelMap, tx_id: i64, label_id: i64 },
    OutputTagMap { row: &'a TableOutputTagMap, output_id: i64, tag_id: i64 },
    Certificate { user_id: i64, row: &'a TableCertificate },
    CertificateField { user_id: i64, row: &'a TableCertificateField, cert_id: i64 },
    Commission { user_id: i64, row: &'a TableCommission, tx_id: i64 },
}

impl<'a> View for SyncRow<'a> {
    type V = SyncRowView;

    open spec fn view(&self) -> SyncRowView {
        match self {
            SyncRow::Basket { user_id, row } => SyncRowView::Basket {
                user_id: *user_id,
                row: **row,
            },
            SyncRow::ProvenTxReq { row } => SyncRowView::ProvenTxReq {
                row: **row,
            },
            SyncRow::ProvenTx { row } => SyncRowView::ProvenTx {
                row: **row,
            },
            SyncRow::TxLabel { user_id, row } => SyncRowView::TxLabel {
                user_id: *user_id,
                row: **row,
            },
            SyncRow::OutputTag { user_id, row } => SyncRowView::OutputTag {
                user_id: *user_id,
                row: **row,
            },
            SyncRow::Transaction { user_id, row } => SyncRowView::Transaction {
                user_id: *user_id,
                row: **row,
            },
            SyncRow::Output { user_id, row, tx_id, basket_id } => SyncRowView::Output {
                user_id: *user_id,
                row: **row,
                tx_id: *tx_id,
                basket_id: *basket_id,
            },
            SyncRow::TxLabelMap { row, tx_id, label_id } => SyncRowView::TxLabelMap {
                row: **row,
                tx_id: *tx_id,
                label_id: *label_id,
            },
            SyncRow::OutputTagMap { row, output_id, tag_id } => SyncRowView::OutputTagMap {
                row: **row,
                output_id: *output_id,
                tag_id: *tag_id,
            },
            SyncRow::Certificate { user_id, row } => SyncRowView::Certificate {
                user_id: *user_id,
                row: **row,
            },
            SyncRow::CertificateField { user_id, row, cert_id } => SyncRowView::CertificateField {
                user_id: *user_id,
                row: **row,
                cert_id: *cert_id,
            },
            SyncRow::Commission { user_id, row, tx_id } => SyncRowView::Commission {
                user_id: *user_id,
                row: **row,
                tx_id: *tx_id,
            },
        }
    }
}

/// The blob of a column, where there is one.
pub open spec fn blob_of(
    table: Seq<char>,
    id: i64,
    column: Seq<char>,
    data: Option<Vec<u8>>,
    updated_at: Timestamp,
    also_updated: bool,
) -> Seq<BlobWriteView> {
    match data {
        Some(bytes) => seq![
            BlobWriteView { table, id, column, bytes: bytes@, updated_at, also_updated },
        ],
        None => Seq::empty(),
    }
}

impl SyncRowView {
    pub open spec fn lookup(self) -> QueryView {
        match self {
            SyncRowView::Basket { user_id, row } => basket_lookup(user_id, row),
            SyncRowView::ProvenTxReq { row } => proven_tx_req_lookup(row),
            SyncRowView::ProvenTx { row } => proven_tx_lookup(row),
            SyncRowView::TxLabel { user_id, row } => tx_label_lookup(user_id, row),
            SyncRowView::OutputTag { user_id, row } => output_tag_lookup(user_id, row),
            SyncRowView::Transaction { user_id, row } => transaction_lookup(user_id, row),
            SyncRowView::Output { user_id, row, .. } => output_lookup(user_id, row),
            SyncRowView::TxLabelMap { tx_id, label_id, .. } => tx_label_map_lookup(tx_id, label_id),
            SyncRowView::OutputTagMap { output_id, tag_id, .. } => output_tag_map_lookup(
                output_id,
                tag_id,
            ),
            SyncRowView::Certificate { user_id, row } => certificate_lookup(user_id, row),
            SyncRowView::CertificateField { row, cert_id, .. } => certificate_field_lookup(
                row,
                cert_id,
            ),
            SyncRowView::Commission { tx_id, .. } => commission_lookup(tx_id),
        }
    }

    pub open spec fn insert(self, proof_fk: Option<i64>) -> QueryView {
        match self {
            SyncRowView::Basket { user_id, row } => basket_insert_query(user_id, row),
            SyncRowView::ProvenTxReq { row } => proven_tx_req_insert_query(row),
            SyncRowView::ProvenTx { row } => proven_tx_insert_query(row),
            SyncRowView::TxLabel { user_id, row } => tx_label_insert_query(user_id, row),
            SyncRowView::OutputTag { user_id, row } => output_tag_insert_query(user_id, row),
            SyncRowView::Transaction { user_id, row } => transaction_insert_query(
                user_id,
                row,
                proof_fk,
            ),
            SyncRowView::Output { user_id, row, tx_id, basket_id } => output_insert_query(
                user_id,
                row,
                tx_id,
                basket_id,
            ),
            SyncRowView::TxLabelMap { row, tx_id, label_id } => tx_label_map_insert_query(
                tx_id,
                label_id,
                row.updated_at,
                row.created_at,
            ),
            SyncRowView::OutputTagMap { row, output_id, tag_id } => output_tag_map_insert_query(
                output_id,
                tag_id,
                row.updated_at,
                row.created_at,
            ),
            SyncRowView::Certificate { user_id, row } => certificate_insert_query(user_id, row),
            SyncRowView::CertificateField { user_id, row, cert_id } => certificate_field_insert_query(
                user_id,
                row,
                cert_id,
            ),
            SyncRowView::Commission { user_id, row, tx_id } => commission_insert_query(
                user_id,
                row,
                tx_id,
            ),
        }
    }

    pub open spec fn update(self, local_id: i64) -> QueryView {
        match self {
            SyncRowView::Basket { row, .. } => basket_update_query(row, local_id),
            SyncRowView::ProvenTxReq { row } => proven_tx_req_update_query(row, local_id),
            SyncRowView::ProvenTx { row } => proven_tx_update_query(row, local_id),
            SyncRowView::TxLabel { row, .. } => tx_label_update_query(row, local_id),
            SyncRowView::OutputTag { row, .. } => output_tag_update_query(row, local_id),
            SyncRowView::Transaction { row, .. } => transaction_update_query(row, local_id),
            SyncRowView::Output { user_id, row, tx_id, basket_id } => output_update_query(
                user_id,
                row,
                tx_id,
                basket_id,
                local_id,
            ),
            SyncRowView::TxLabelMap { row, .. } => tx_label_map_update_query(
                row.updated_at,
                local_id,
            ),
            SyncRowView::OutputTagMap { row, .. } => output_tag_map_update_query(
                row.updated_at,
                local_id,
            ),
            SyncRowView::Certificate { row, .. } => certificate_update_query(row, local_id),
            SyncRowView::CertificateField { row, .. } => certificate_field_update_query(
                row,
                local_id,
            ),
            SyncRowView::Commission { row, .. } => commission_update_query(row, local_id),
        }
    }

    pub open spec fn updated_at(self) -> Timestamp {
        match self {
            SyncRowView::Basket { row, .. } => row.updated_at,
            SyncRowView::ProvenTxReq { row } => row.updated_at,
            SyncRowView::ProvenTx { row } => row.updated_at,
            SyncRowView::TxLabel { row, .. } => row.updated_at,
            SyncRowView::OutputTag { row, .. } => row.updated_at,
            SyncRowView::Transaction { row, .. } => row.updated_at,
            SyncRowView::Output { row, .. } => row.updated_at,
            SyncRowView::TxLabelMap { row, .. } => row.updated_at,
            SyncRowView::OutputTagMap { row, .. } => row.updated_at,
            SyncRowView::Certificate { row, .. } => row.updated_at,
            SyncRowView::CertificateField { row, .. } => row.updated_at,
            SyncRowView::Commission { row, .. } => row.updated_at,
        }
    }

    /// The id that the chunk gives the row.
    pub open spec fn foreign(self) -> i64 {
        match self {
            SyncRowView::Basket { row, .. } => row.basket_id,
            SyncRowView::ProvenTxReq { row } => row.proven_tx_req_id,
            SyncRowView::ProvenTx { row } => row.proven_tx_id,
            SyncRowView::TxLabel { row, .. } => row.label_id,
            SyncRowView::OutputTag { row, .. } => row.tag_id,
            SyncRowView::Transaction { row, .. } => row.transaction_id,
            SyncRowView::Output { row, .. } => row.output_id,
            SyncRowView::TxLabelMap { row, .. } => row.tx_label_map_id,
            SyncRowView::OutputTagMap { row, .. } => row.output_tag_map_id,
            SyncRowView::Certificate { row, .. } => row.certificate_id,
            SyncRowView::CertificateField { row, .. } => row.certificate_field_id,
            SyncRowView::Commission { row, .. } => row.commission_id,
        }
    }

    /// The txid of the proof that a transaction names.
    pub open spec fn proof_txid(self) -> Option<String> {
        match self {
            SyncRowView::Transaction { row, .. } => row.proof_txid,
            _ => None,
        }
    }

    /// The blobs that are filled after the row was inserted or updated. What is filled after
    /// an update stamps the row too; for a proof request so does what is filled after an
    /// insert.
    pub open spec fn blobs(self, local_id: i64, is_new: bool) -> Seq<BlobWriteView> {
        match self {
            SyncRowView::ProvenTxReq { row } => blob_of(
                "proven_tx_reqs"@,
                local_id,
                "input_beef"@,
                row.input_beef,
                row.updated_at,
                true,
            ),
            SyncRowView::Transaction { row, .. } => blob_of(
                "transactions"@,
                local_id,
                "raw_tx"@,
                row.raw_tx,
                row.updated_at,
                !is_new,
            ) + blob_of(
                "transactions"@,
                local_id,
                "input_beef"@,
                row.input_beef,
                row.updated_at,
                !is_new,
            ),
            SyncRowView::Output { row, .. } => blob_of(
                "outputs"@,
                local_id,
                "locking_script"@,
                row.locking_script,
                row.updated_at,
                !is_new,
            ),
            _ => Seq::empty(),
        }
    }
}

impl<'a> SyncRow<'a> {
    fn lookup(&self) -> (q: Query)
        ensures
            q@ == self@.lookup(),
    {
        match self {
            SyncRow::Basket { user_id, row } => lookup_basket(*user_id, row),
            SyncRow::ProvenTxReq { row } => lookup_proven_tx_req(row),
            SyncRow::ProvenTx { row } => lookup_proven_tx(row),
            SyncRow::TxLabel { user_id, row } => lookup_tx_label(*user_id, row),
            SyncRow::OutputTag { user_id, row } => lookup_output_tag(*user_id, row),
            SyncRow::Transaction { user_id, row } => lookup_transaction(*user_id, row),
            SyncRow::Output { user_id, row, .. } => lookup_output(*user_id, row),
            SyncRow::TxLabelMap { tx_id, label_id, .. } => lookup_tx_label_map(*tx_id, *label_id),
            SyncRow::OutputTagMap { output_id, tag_id, .. } => lookup_output_tag_map(
                *output_id,
                *tag_id,
            ),
            SyncRow::Certificate { user_id, row } => lookup_certificate(*user_id, row),
            SyncRow::CertificateField { row, cert_id, .. } => lookup_certificate_field(
                row,
                *cert_id,
            ),
            SyncRow::Commission { tx_id, .. } => lookup_commission(*tx_id),
        }
    }

    fn insert(&self, proof_fk: Option<i64>) -> (q: Query)
        ensures
            q@ == self@.insert(proof_fk),
    {
        match self {
            SyncRow::Basket { user_id, row } => insert_basket(*user_id, row),
            SyncRow::ProvenTxReq { row } => insert_proven_tx_req(row),
            SyncRow::ProvenTx { row } => insert_proven_tx(row),
            SyncRow::TxLabel { user_id, row } => insert_tx_label(*user_id, row),
            SyncRow::OutputTag { user_id, row } => insert_output_tag(*user_id, row),
            SyncRow::Transaction { user_id, row } => insert_transaction(*user_id, row, proof_fk),
            SyncRow::Output { user_id, row, tx_id, basket_id } => insert_output(
                *user_id,
                row,
                *tx_id,
                *basket_id,
            ),
            SyncRow::TxLabelMap { row, tx_id, label_id } => insert_tx_label_map(
                *tx_id,
                *label_id,
                row.updated_at,
                row.created_at,
            ),
            SyncRow::OutputTagMap { row, output_id, tag_id } => insert_output_tag_map(
                *output_id,
                *tag_id,
                row.updated_at,
                row.created_at,
            ),
            SyncRow::Certificate { user_id, row } => insert_certificate(*user_id, row),
            SyncRow::CertificateField { user_id, row, cert_id } => insert_certificate_field(
                *user_id,
                row,
                *cert_id,
            ),
            SyncRow::Commission { user_id, row, tx_id } => insert_commission(*user_id, row, *tx_id),
        }
    }

    fn update(&self, local_id: i64) -> (q: Query)
        ensures
            q@ == self@.update(local_id),
    {
        match self {
            SyncRow::Basket { row, .. } => update_basket(row, local_id),
            SyncRow::ProvenTxReq { row } => update_proven_tx_req(row, local_id),
            SyncRow::ProvenTx { row } => update_proven_tx(row, local_id),
            SyncRow::TxLabel { row, .. } => update_tx_label(row, local_id),
            SyncRow::OutputTag { row, .. } => update_output_tag(row, local_id),
            SyncRow::Transaction { row, .. } => update_transaction(row, local_id),
            SyncRow::Output { user_id, row, tx_id, basket_id } => update_output(
                *user_id,
                row,
                *tx_id,
                *basket_id,
                local_id,
            ),
            SyncRow::TxLabelMap { row, .. } => update_tx_label_map(row.updated_at, local_id),
            SyncRow::OutputTagMap { row, .. } => update_output_tag_map(row.updated_at, local_id),
            SyncRow::Certificate { row, .. } => update_certificate(row, local_id),
            SyncRow::CertificateField { row, .. } => update_certificate_field(row, local_id),
            SyncRow::Commission { row, .. } => update_commission(row, local_id),
        }
    }

    pub fn foreign(&self) -> (id: i64)
        ensures
            id == self@.foreign(),
    {
        match self {
            SyncRow::Basket { row, .. } => row.basket_id,
            SyncRow::ProvenTxReq { row } => row.proven_tx_req_id,
            SyncRow::ProvenTx { row } => row.proven_tx_id,
            SyncRow::TxLabel { row, .. } => row.label_id,
            SyncRow::OutputTag { row, .. } => row.tag_id,
            SyncRow::Transaction { row, .. } => row.transaction_id,
            SyncRow::Output { row, .. } => row.output_id,
            SyncRow::TxLabelMap { row, .. } => row.tx_label_map_id,
            SyncRow::OutputTagMap { row, .. } => row.output_tag_map_id,
            SyncRow::Certificate { row, .. } => row.certificate_id,
            SyncRow::CertificateField { row, .. } => row.certificate_field_id,
            SyncRow::Commission { row, .. } => row.commission_id,
        }
    }

    pub fn updated_at(&self) -> (t: Timestamp)
        ensures
            t == self@.updated_at(),
    {
        match self {
            SyncRow::Basket { row, .. } => row.updated_at,
            SyncRow::ProvenTxReq { row } => row.updated_at,
            SyncRow::ProvenTx { row } => row.updated_at,
            SyncRow::TxLabel { row, .. } => row.updated_at,
            SyncRow::OutputTag { row, .. } => row.updated_at,
            SyncRow::Transaction { row, .. } => row.updated_at,
            SyncRow::Output { row, .. } => row.updated_at,
            SyncRow::TxLabelMap { row, .. } => row.updated_at,
            SyncRow::OutputTagMap { row, .. } => row.updated_at,
            SyncRow::Certificate { row, .. } => row.updated_at,
            SyncRow::CertificateField { row, .. } => row.updated_at,
            SyncRow::Commission { row, .. } => row.updated_at,
        }
    }

    fn blobs(&self, local_id: i64, is_new: bool) -> (list: Vec<BlobWrite>)
        ensures
            blob_writes(list@) == self@.blobs(local_id, is_new),
    {
        let mut list: Vec<BlobWrite> = Vec::new();
        match self {
            SyncRow::ProvenTxReq { row } => {
                push_blob(
                    &mut list,
                    "proven_tx_reqs",
                    local_id,
                    "input_beef",
                    &row.input_beef,
                    row.updated_at,
                    true,
                );
            },
            SyncRow::Transaction { row, .. } => {
                push_blob(
                    &mut list,
                    "transactions",
                    local_id,
                    "raw_tx",
                    &row.raw_tx,
                    row.updated_at,
                    !is_new,
                );
                push_blob(
                    &mut list,
                    "transactions",
                    local_id,
                    "input_beef",
                    &row.input_beef,
                    row.updated_at,
                    !is_new,
                );
            },
            SyncRow::Output { row, .. } => {
                push_blob(
                    &mut list,
                    "outputs",
                    local_id,
                    "locking_script",
                    &row.locking_script,
                    row.updated_at,
                    !is_new,
                );
            },
            _ => {},
        }
        assert(blob_writes(list@) =~= self@.blobs(local_id, is_new));
        list
    }
}

fn push_blob(
    list: &mut Vec<BlobWrite>,
    table: &str,
    id: i64,
    column: &str,
    data: &Option<Vec<u8>>,
    updated_at: Timestamp,
    also_updated: bool,
)
    ensures
        blob_writes(final(list)@) == blob_writes(old(list)@) + blob_of(
            table@,
            id,
            column@,
            *data,
            updated_at,
            also_updated,
        ),
{
    if let Some(bytes) = data {
        list.push(
            BlobWrite {
                table: table.to_owned(),
                id,
                column: column.to_owned(),
                bytes: vstd::slice::slice_to_vec(bytes.as_slice()),
                updated_at,
                also_updated,
            },
        );
    }
    assert(blob_writes(list@) =~= blob_writes(old(list)@) + blob_of(
        table@,
        id,
        column@,
        *data,
        updated_at,
        also_updated,
    ));
}

/// A stored row that a lookup found.
#[derive(Clone, Copy, Debug, PartialEq, Eq, Structural)]
pub struct Found {
    pub id: Option<i64>,
    pub updated_at: Timestamp,
}

/// What became of a row.
#[derive(Clone, Copy, Debug, PartialEq, Eq, Structural)]
pub struct UpsertResult {
    pub local_id: i64,
    pub is_new: bool,
}

/// What the merge of a row takes next.
#[verifier::ext_equal]
pub enum RowStepView {
    Lookup { query: QueryView },
    FindProof { query: QueryView },
    Insert { query: QueryView },
    Update { query: QueryView, local_id: i64 },
    PutBlobs { writes: Seq<BlobWriteView>, link: Option<QueryView>, result: UpsertResult },
    Link { query: QueryView, result: UpsertResult },
    Done { result: UpsertResult },
}

/// What the merge of a row takes next.
#[derive(Debug, PartialEq, Eq)]
pub enum RowStep {
    /// Look the row up.
    Lookup { query: Query },
    /// Find the proof of the transaction.
    FindProof { query: Query },
    /// Insert the row, and learn its id.
    Insert { query: Query },
    /// Update the row.
    Update { query: Query, local_id: i64 },
    /// Fill the columns one after the other.
    PutBlobs { writes: Vec<BlobWrite>, link: Option<Query>, result: UpsertResult },
    /// Link the transaction to its proof.
    Link { query: Query, result: UpsertResult },
    /// What became of the row.
    Done { result: UpsertResult },
}

impl View for RowStep {
    type V = RowStepView;

    open spec fn view(&self) -> RowStepView {
        match self {
            RowStep::Lookup { query } => RowStepView::Lookup { query: query@ },
            RowStep::FindProof { query } => RowStepView::FindProof { query: query@ },
            RowStep::Insert { query } => RowStepView::Insert { query: query@ },
            RowStep::Update { query, local_id } => RowStepView::Update {
                query: query@,
                local_id: *local_id,
            },
            RowStep::PutBlobs { writes, link, result } => RowStepView::PutBlobs {
                writes: blob_writes(writes@),
                link: match link {
                    Some(q) => Some(q@),
                    None => None,
                },
                result: *result,
            },
            RowStep::Link { query, result } => RowStepView::Link { query: query@, result: *result },
            RowStep::Done { result } => RowStepView::Done { result: *result },
        }
    }
}

/// The step after the blobs of a row: the link to a proof, where there is one to set.
pub open spec fn linking(link: Option<QueryView>, result: UpsertResult) -> RowStepView {
    match link {
        Some(query) => RowStepView::Link { query, result },
        None => RowStepView::Done { result },
    }
}

/// The step that fills the blobs of a row, where there are any.
pub open spec fn filling(
    writes: Seq<BlobWriteView>,
    link: Option<QueryView>,
    result: UpsertResult,
) -> RowStepView {
    if writes.len() > 0 {
        RowStepView::PutBlobs { writes, link, result }
    } else {
        linking(link, result)
    }
}

impl SyncRowView {
    /// The step once the stored row and the proof are known: a row that is not there is
    /// inserted, one that is older is updated, and any other is left alone.
    pub open spec fn decided(self, existing: Option<Found>, proof_fk: Option<i64>) -> RowStepView {
        match existing {
            None => RowStepView::Insert { query: self.insert(proof_fk) },
            Some(stored) => {
                let local_id = stored.id.unwrap_or(0);
                if self.updated_at().after(stored.updated_at) {
                    RowStepView::Update { query: self.update(local_id), local_id }
                } else {
                    RowStepView::Done { result: UpsertResult { local_id, is_new: false } }
                }
            },
        }
    }

    /// The step after the lookup: that of the proof, where a transaction names one.
    pub open spec fn after_lookup(self, existing: Option<Found>) -> RowStepView {
        match self.proof_txid() {
            Some(txid) => RowStepView::FindProof { query: proof_lookup(txid@) },
            None => self.decided(existing, None),
        }
    }

    /// The step after the row was inserted.
    pub open spec fn after_insert(self, local_id: i64) -> RowStepView {
        filling(self.blobs(local_id, true), None, UpsertResult { local_id, is_new: true })
    }

    /// The step after the row was updated. A link to a proof is set where the proof is
    /// known, and never cleared.
    pub open spec fn after_update(self, local_id: i64, proof_fk: Option<i64>) -> RowStepView {
        filling(
            self.blobs(local_id, false),
            match proof_fk {
                Some(fk) => Some(proof_link_query(fk, local_id)),
                None => None,
            },
            UpsertResult { local_id, is_new: false },
        )
    }
}

fn fill(writes: Vec<BlobWrite>, link: Option<Query>, result: UpsertResult) -> (step: RowStep)
    ensures
        step@ == filling(
            blob_writes(writes@),
            match link {
                Some(q) => Some(q@),
                None => None,
            },
            result,
        ),
{
    if writes.len() > 0 {
        RowStep::PutBlobs { writes, link, result }
    } else {
        assert(blob_writes(writes@).len() == 0);
        after_fills(link, result)
    }
}

/// Goes on once the columns of a row are filled.
pub fn after_fills(link: Option<Query>, result: UpsertResult) -> (step: RowStep)
    ensures
        step@ == linking(
            match link {
                Some(q) => Some(q@),
                None => None,
            },
            result,
        ),
{
    match link {
        Some(query) => RowStep::Link { query, result },
        None => RowStep::Done { result },
    }
}

impl<'a> SyncRow<'a> {
    /// Starts to merge the row.
    pub fn start(&self) -> (step: RowStep)
        ensures
            step@ == (RowStepView::Lookup { query: self@.lookup() }),
    {
        RowStep::Lookup { query: self.lookup() }
    }

    fn decide(&self, existing: Option<Found>, proof_fk: Option<i64>) -> (step: RowStep)
        ensures
            step@ == self@.decided(existing, proof_fk),
    {
        match existing {
            None => RowStep::Insert { query: self.insert(proof_fk) },
            Some(stored) => {
                let local_id: i64 = stored.id.unwrap_or(0);
                if self.updated_at().is_after(&stored.updated_at) {
                    RowStep::Update { query: self.update(local_id), local_id }
                } else {
                    RowStep::Done { result: UpsertResult { local_id, is_new: false } }
                }
            },
        }
    }

    /// Goes on with the row that the lookup found.
    pub fn after_lookup(&self, existing: Option<Found>) -> (step: RowStep)
        ensures
            step@ == self@.after_lookup(existing),
    {
        let lookup: Option<Query> = match self {
            SyncRow::Transaction { row, .. } => resolve_proof_fk(&row.proof_txid),
            _ => None,
        };
        match lookup {
            Some(query) => RowStep::FindProof { query },
            None => self.decide(existing, None),
        }
    }

    /// Goes on with the proof that was found for the transaction.
    pub fn after_proof(&self, existing: Option<Found>, proof_fk: Option<i64>) -> (step: RowStep)
        ensures
            step@ == self@.decided(existing, proof_fk),
    {
        self.decide(existing, proof_fk)
    }

    /// Goes on with the id of the inserted row.
    pub fn after_insert(&self, local_id: i64) -> (step: RowStep)
        ensures
            step@ == self@.after_insert(local_id),
    {
        fill(self.blobs(local_id, true), None, UpsertResult { local_id, is_new: true })
    }

    /// Goes on after the row was updated.
    pub fn after_update(&self, local_id: i64, proof_fk: Option<i64>) -> (step: RowStep)
        ensures
            step@ == self@.after_update(local_id, proof_fk),
    {
        let link: Option<Query> = match proof_fk {
            Some(fk) => Some(link_proof(fk, local_id)),
            None => None,
        };
        fill(self.blobs(local_id, false), link, UpsertResult { local_id, is_new: false })
    }
}

/// A stored row is touched only by a newer one: for any other the store is asked nothing
/// more than the lookups.
pub proof fn a_stale_row_is_left_alone(row: SyncRowView, stored: Found, proof_fk: Option<i64>)
    requires
        !row.updated_at().after(stored.updated_at),
    ensures
        row.decided(Some(stored), proof_fk) == (RowStepView::Done {
            result: UpsertResult { local_id: stored.id.unwrap_or(0), is_new: false },
        }),
{
}

} // verus!
