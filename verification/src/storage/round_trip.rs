//! What a sync writes is what a sync reads: a row that a merge inserts comes back from its
//! page with the values that went in, under its local ids.

use crate::codec::hex_bytes;
use crate::entities::{
    TableCertificate, TableCertificateField, TableCommission, TableOutput, TableOutputBasket,
    TableOutputTag, TableOutputTagMap, TableProvenTx, TableProvenTxReq, TableTransaction,
    TableTxLabel, TableTxLabelMap,
};
use crate::error::ErrorView;
use crate::r2::THRESHOLD;
use crate::sql::expr::{at, Row};
use crate::sql::names::Column;
use crate::sql::query::{blob_value, bytes_of, SqlValue};
use crate::storage::apply::{overflow_fill, FillView};
use crate::storage::blob_column::{blob_source, BlobSourceView};
use crate::storage::fetch::{
    blob_or_empty, is_basket_of, is_certificate_field_of, is_certificate_of, is_commission_of,
    is_output_of, is_output_tag_map_of, is_output_tag_of, is_proven_tx_of, is_proven_tx_req_of,
    is_transaction_of, is_tx_label_map_of, is_tx_label_of, BasketSyncRow, CertificateFieldSyncRow,
    CertificateSyncRow, CommissionSyncRow, OutputSyncRow, OutputTagMapSyncRow, OutputTagSyncRow,
    ProvenTxReqSyncRow, ProvenTxSyncRow, TransactionSyncRow, TxLabelMapSyncRow, TxLabelSyncRow,
};
use crate::storage::merge::row_of;
use crate::storage::upsert::{
    basket_merge, basket_query, certificate_field_merge, certificate_field_query,
    certificate_merge, certificate_query, commission_merge, commission_query, inline_bytes,
    output_merge, output_query, output_tag_map_query, output_tag_merge, output_tag_query,
    proven_tx_merge, proven_tx_query, proven_tx_req_merge, proven_tx_req_query,
    provided_by_text, purpose_text, transaction_merge, transaction_query, tx_label_map_query,
    tx_label_merge, tx_label_query,
};
use crate::text::text_view;
use crate::time::Timestamp;
use vstd::prelude::*;

verus! {

// ---------------------------------------------------------------------------
// How the store gives values back
// ---------------------------------------------------------------------------

/// An integer comes back as it is, `NULL` as nothing.
pub open spec fn reads_int(stored: SqlValue, read: Option<i64>) -> bool {
    match stored {
        SqlValue::Int(n) => read is Some && read->0 == n,
        SqlValue::Null => read is None,
        _ => true,
    }
}

/// A text comes back as it is, `NULL` as nothing.
pub open spec fn reads_text(stored: SqlValue, read: Option<String>) -> bool {
    match stored {
        SqlValue::Text(s) => text_view(read) == Some(s),
        SqlValue::Null => read is None,
        _ => true,
    }
}

/// A status comes back as it is.
pub open spec fn reads_status(stored: SqlValue, read: String) -> bool {
    stored matches SqlValue::Text(s) ==> read@ == s
}

/// A flag comes back as whether it is not zero.
pub open spec fn reads_flag(stored: SqlValue, read: Option<bool>) -> bool {
    match stored {
        SqlValue::Int(n) => read == Some(n != 0),
        SqlValue::Null => read is None,
        _ => true,
    }
}

/// A blob comes back in hexadecimal, and `NULL` without any digits.
pub open spec fn reads_hex(stored: SqlValue, read: Option<String>) -> bool {
    match stored {
        SqlValue::Blob(b) => read is Some && hex_bytes(read->0@) == Some(b),
        SqlValue::Null => read is Some ==> read->0@.len() == 0,
        _ => true,
    }
}

pub open spec fn reads_times(row: Row, created_at: Timestamp, updated_at: Timestamp) -> bool {
    at(row, Column::CreatedAt) == SqlValue::Time(created_at) && at(row, Column::UpdatedAt)
        == SqlValue::Time(updated_at)
}

// ---------------------------------------------------------------------------
// Blobs
// ---------------------------------------------------------------------------

/// Where a blob that may overflow is found again: in its column where it is short, and else
/// at the very place of the object store that it is put after its batch. An empty blob
/// cannot be told from a missing one.
pub open spec fn blob_comes_back(
    table: Seq<char>,
    id: i64,
    column: Seq<char>,
    data: Option<Vec<u8>>,
    hex: Option<String>,
) -> bool {
    &&& data is Some && 0 < data->0@.len() <= THRESHOLD ==> blob_source(table, id, column, hex)
        == Ok::<BlobSourceView, ErrorView>(BlobSourceView::Inline(data->0@))
    &&& data is Some && data->0@.len() > THRESHOLD && id > 0 ==> blob_source(table, id, column, hex)
        == Ok::<BlobSourceView, ErrorView>(BlobSourceView::Store { table, id, column })
        && overflow_fill(table, column, data) == seq![
        FillView { table, column, bytes: data->0@ },
    ]
    &&& data is None && id > 0 ==> blob_source(table, id, column, hex) == Ok::<
        BlobSourceView,
        ErrorView,
    >(BlobSourceView::Store { table, id, column })
}

proof fn a_blob_comes_back(
    table: Seq<char>,
    id: i64,
    column: Seq<char>,
    data: Option<Vec<u8>>,
    hex: Option<String>,
)
    requires
        reads_hex(blob_value(inline_bytes(bytes_of(data))), hex),
    ensures
        blob_comes_back(table, id, column, data, hex),
{
    if hex is Some && hex_bytes(hex->0@) is Some {
        assert(hex_bytes(hex->0@)->0.len() == hex->0@.len() / 2);
    }
}

proof fn an_inline_blob_comes_back(
    table: Seq<char>,
    id: i64,
    column: Seq<char>,
    bytes: Seq<u8>,
    hex: Option<String>,
)
    requires
        reads_hex(SqlValue::Blob(bytes), hex),
    ensures
        bytes.len() > 0 ==> blob_source(table, id, column, hex) == Ok::<BlobSourceView, ErrorView>(
            BlobSourceView::Inline(bytes),
        ),
{
    assert(hex_bytes(hex->0@)->0.len() == hex->0@.len() / 2);
}

// ---------------------------------------------------------------------------
// Rows
// ---------------------------------------------------------------------------

/// The row that the merge of a basket inserts, with its id.
pub open spec fn inserted_basket(user_id: i64, b: TableOutputBasket, id: i64) -> Row {
    row_of(basket_merge().insert.columns, basket_query(user_id, b).params, 6).insert(
        Column::BasketId,
        SqlValue::Int(id as int),
    )
}

/// Whether the store gives a row back as `r`.
pub open spec fn reads_basket(row: Row, r: BasketSyncRow) -> bool {
    &&& reads_int(at(row, Column::BasketId), r.basket_id)
    &&& reads_int(at(row, Column::UserId), r.user_id)
    &&& reads_text(at(row, Column::Name), r.name)
    &&& reads_int(at(row, Column::NumberOfDesiredUtxos), r.number_of_desired_utxos)
    &&& reads_int(at(row, Column::MinimumDesiredUtxoValue), r.minimum_desired_utxo_value)
    &&& reads_times(row, r.created_at, r.updated_at)
}

/// A basket comes back as it went in, under its local ids.
pub proof fn a_basket_comes_back(
    user_id: i64,
    b: TableOutputBasket,
    id: i64,
    r: BasketSyncRow,
    reader: i64,
    t: TableOutputBasket,
)
    requires
        reads_basket(inserted_basket(user_id, b, id), r),
        is_basket_of(t, r, reader),
    ensures
        t.basket_id == id,
        t.user_id == user_id,
        t.name@ == b.name@,
        t.number_of_desired_utxos == b.number_of_desired_utxos,
        t.minimum_desired_utxo_value == b.minimum_desired_utxo_value,
        t.created_at == b.created_at,
        t.updated_at == b.updated_at,
{
    reveal_with_fuel(row_of, 7);
}

/// The row that the merge of a proven transaction inserts, with its id.
pub open spec fn inserted_proven_tx(p: TableProvenTx, id: i64) -> Row {
    row_of(proven_tx_merge().insert.columns, proven_tx_query(p).params, 9).insert(
        Column::ProvenTxId,
        SqlValue::Int(id as int),
    )
}

/// Whether the store gives a row back as `r`.
pub open spec fn reads_proven_tx(row: Row, r: ProvenTxSyncRow) -> bool {
    &&& reads_int(at(row, Column::ProvenTxId), r.proven_tx_id)
    &&& reads_text(at(row, Column::Txid), r.txid)
    &&& reads_int(at(row, Column::Height), r.height)
    &&& reads_int(at(row, Column::Idx), r.idx)
    &&& reads_text(at(row, Column::BlockHash), r.block_hash)
    &&& reads_text(at(row, Column::MerkleRoot), r.merkle_root)
    &&& reads_hex(at(row, Column::MerklePath), r.merkle_path_hex)
    &&& reads_hex(at(row, Column::RawTx), r.raw_tx_hex)
    &&& reads_times(row, r.created_at, r.updated_at)
}

/// A proven transaction comes back as it went in, under its local ids.
pub proof fn a_proven_tx_comes_back(
    p: TableProvenTx,
    id: i64,
    r: ProvenTxSyncRow,
    merkle_path: Option<Vec<u8>>,
    raw_tx: Option<Vec<u8>>,
    t: TableProvenTx,
)
    requires
        reads_proven_tx(inserted_proven_tx(p, id), r),
        is_proven_tx_of(t, r, merkle_path, raw_tx),
    ensures
        t.proven_tx_id == id,
        t.txid@ == p.txid@,
        t.height == p.height,
        t.index == p.index,
        t.block_hash@ == p.block_hash@,
        t.merkle_root@ == p.merkle_root@,
        t.merkle_path@ == blob_or_empty(merkle_path),
        t.raw_tx@ == blob_or_empty(raw_tx),
        p.merkle_path@.len() > 0 ==> blob_source("proven_txs"@, id, "merkle_path"@, r.merkle_path_hex)
            == Ok::<BlobSourceView, ErrorView>(BlobSourceView::Inline(p.merkle_path@)),
        p.raw_tx@.len() > 0 ==> blob_source("proven_txs"@, id, "raw_tx"@, r.raw_tx_hex) == Ok::<
            BlobSourceView,
            ErrorView,
        >(BlobSourceView::Inline(p.raw_tx@)),
        t.created_at == p.created_at,
        t.updated_at == p.updated_at,
{
    reveal_with_fuel(row_of, 10);
    let row = inserted_proven_tx(p, id);
    assert(at(row, Column::MerklePath) == SqlValue::Blob(p.merkle_path@));
    assert(at(row, Column::RawTx) == SqlValue::Blob(p.raw_tx@));
    an_inline_blob_comes_back(
        "proven_txs"@,
        id,
        "merkle_path"@,
        p.merkle_path@,
        r.merkle_path_hex,
    );
    an_inline_blob_comes_back("proven_txs"@, id, "raw_tx"@, p.raw_tx@, r.raw_tx_hex);
}

/// The row that the merge of a proof request inserts, with its id.
pub open spec fn inserted_proven_tx_req(req: TableProvenTxReq, id: i64) -> Row {
    row_of(proven_tx_req_merge().insert.columns, proven_tx_req_query(req).params, 12).insert(
        Column::ProvenTxReqId,
        SqlValue::Int(id as int),
    )
}

/// Whether the store gives a row back as `r`.
pub open spec fn reads_proven_tx_req(row: Row, r: ProvenTxReqSyncRow) -> bool {
    &&& reads_int(at(row, Column::ProvenTxReqId), r.proven_tx_req_id)
    &&& reads_int(at(row, Column::ProvenTxId), r.proven_tx_id)
    &&& reads_text(at(row, Column::Txid), r.txid)
    &&& reads_status(at(row, Column::Status), r.status)
    &&& reads_int(at(row, Column::Attempts), r.attempts)
    &&& reads_text(at(row, Column::History), r.history)
    &&& reads_flag(at(row, Column::Notified), r.notified)
    &&& reads_text(at(row, Column::Notify), r.notify)
    &&& reads_hex(at(row, Column::RawTx), r.raw_tx_hex)
    &&& reads_hex(at(row, Column::InputBeef), r.input_beef_hex)
    &&& reads_text(at(row, Column::Batch), r.batch)
    &&& reads_times(row, r.created_at, r.updated_at)
}

/// A proof request comes back as it went in, under its local ids.
pub proof fn a_proven_tx_req_comes_back(
    req: TableProvenTxReq,
    id: i64,
    r: ProvenTxReqSyncRow,
    raw_tx: Option<Vec<u8>>,
    input_beef: Option<Vec<u8>>,
    t: TableProvenTxReq,
)
    requires
        reads_proven_tx_req(inserted_proven_tx_req(req, id), r),
        is_proven_tx_req_of(t, r, raw_tx, input_beef),
    ensures
        t.proven_tx_req_id == id,
        t.proven_tx_id == req.proven_tx_id,
        t.txid@ == req.txid@,
        t.status@ == req.status@,
        t.attempts == req.attempts,
        t.history@ == req.history@,
        t.notified == req.notified,
        t.notify@ == req.notify@,
        text_view(t.batch) == text_view(req.batch),
        t.raw_tx == raw_tx,
        t.input_beef == input_beef,
        req.raw_tx is Some && req.raw_tx->0@.len() > 0 ==> blob_source(
            "proven_tx_reqs"@,
            id,
            "raw_tx"@,
            r.raw_tx_hex,
        ) == Ok::<BlobSourceView, ErrorView>(BlobSourceView::Inline(req.raw_tx->0@)),
        blob_comes_back("proven_tx_reqs"@, id, "input_beef"@, req.input_beef, r.input_beef_hex),
        t.created_at == req.created_at,
        t.updated_at == req.updated_at,
{
    reveal_with_fuel(row_of, 13);
    let row = inserted_proven_tx_req(req, id);
    if req.raw_tx is Some {
        assert(at(row, Column::RawTx) == SqlValue::Blob(req.raw_tx->0@));
        an_inline_blob_comes_back(
            "proven_tx_reqs"@,
            id,
            "raw_tx"@,
            req.raw_tx->0@,
            r.raw_tx_hex,
        );
    }
    a_blob_comes_back("proven_tx_reqs"@, id, "input_beef"@, req.input_beef, r.input_beef_hex);
}

/// The row that the merge of a label inserts, with its id.
pub open spec fn inserted_tx_label(user_id: i64, l: TableTxLabel, id: i64) -> Row {
    row_of(tx_label_merge().insert.columns, tx_label_query(user_id, l).params, 4).insert(
        Column::TxLabelId,
        SqlValue::Int(id as int),
    )
}

/// Whether the store gives a row back as `r`.
pub open spec fn reads_tx_label(row: Row, r: TxLabelSyncRow) -> bool {
    &&& reads_int(at(row, Column::TxLabelId), r.tx_label_id)
    &&& reads_int(at(row, Column::UserId), r.user_id)
    &&& reads_text(at(row, Column::Label), r.label)
    &&& reads_times(row, r.created_at, r.updated_at)
}

/// A label comes back as it went in, under its local ids.
pub proof fn a_tx_label_comes_back(
    user_id: i64,
    l: TableTxLabel,
    id: i64,
    r: TxLabelSyncRow,
    reader: i64,
    t: TableTxLabel,
)
    requires
        reads_tx_label(inserted_tx_label(user_id, l, id), r),
        is_tx_label_of(t, r, reader),
    ensures
        t.label_id == id,
        t.user_id == user_id,
        t.label@ == l.label@,
        t.created_at == l.created_at,
        t.updated_at == l.updated_at,
{
    reveal_with_fuel(row_of, 5);
}

/// The row that the merge of a tag inserts, with its id.
pub open spec fn inserted_output_tag(user_id: i64, g: TableOutputTag, id: i64) -> Row {
    row_of(output_tag_merge().insert.columns, output_tag_query(user_id, g).params, 4).insert(
        Column::OutputTagId,
        SqlValue::Int(id as int),
    )
}

/// Whether the store gives a row back as `r`.
pub open spec fn reads_output_tag(row: Row, r: OutputTagSyncRow) -> bool {
    &&& reads_int(at(row, Column::OutputTagId), r.output_tag_id)
    &&& reads_int(at(row, Column::UserId), r.user_id)
    &&& reads_text(at(row, Column::Tag), r.tag)
    &&& reads_times(row, r.created_at, r.updated_at)
}

/// A tag comes back as it went in, under its local ids.
pub proof fn an_output_tag_comes_back(
    user_id: i64,
    g: TableOutputTag,
    id: i64,
    r: OutputTagSyncRow,
    reader: i64,
    t: TableOutputTag,
)
    requires
        reads_output_tag(inserted_output_tag(user_id, g, id), r),
        is_output_tag_of(t, r, reader),
    ensures
        t.tag_id == id,
        t.user_id == user_id,
        t.tag@ == g.tag@,
        t.created_at == g.created_at,
        t.updated_at == g.updated_at,
{
    reveal_with_fuel(row_of, 5);
}

/// The row that the merge of a transaction inserts, with its id.
pub open spec fn inserted_transaction(
    user_id: i64,
    tx: TableTransaction,
    proof_fk: Option<i64>,
    id: i64,
) -> Row {
    row_of(
        transaction_merge().insert.columns,
        transaction_query(user_id, tx, proof_fk).params,
        14,
    ).insert(Column::TransactionId, SqlValue::Int(id as int))
}

/// Whether the store gives a row back as `r`.
pub open spec fn reads_transaction(row: Row, r: TransactionSyncRow) -> bool {
    &&& reads_int(at(row, Column::TransactionId), r.transaction_id)
    &&& reads_int(at(row, Column::UserId), r.user_id)
    &&& reads_text(at(row, Column::Txid), r.txid)
    &&& reads_status(at(row, Column::Status), r.status)
    &&& reads_text(at(row, Column::Reference), r.reference)
    &&& reads_text(at(row, Column::Description), r.description)
    &&& reads_int(at(row, Column::Satoshis), r.satoshis)
    &&& reads_int(at(row, Column::Version), r.version)
    &&& reads_int(at(row, Column::LockTime), r.lock_time)
    &&& reads_hex(at(row, Column::RawTx), r.raw_tx_hex)
    &&& reads_hex(at(row, Column::InputBeef), r.input_beef_hex)
    &&& reads_flag(at(row, Column::IsOutgoing), r.is_outgoing)
    &&& reads_times(row, r.created_at, r.updated_at)
}

/// A transaction comes back as it went in, under its local ids. Its proof goes by the txid
/// that the store has for the linked proof.
pub proof fn a_transaction_comes_back(
    user_id: i64,
    tx: TableTransaction,
    proof_fk: Option<i64>,
    id: i64,
    r: TransactionSyncRow,
    reader: i64,
    raw_tx: Option<Vec<u8>>,
    input_beef: Option<Vec<u8>>,
    t: TableTransaction,
)
    requires
        reads_transaction(inserted_transaction(user_id, tx, proof_fk, id), r),
        is_transaction_of(t, r, reader, raw_tx, input_beef),
    ensures
        t.transaction_id == id,
        t.user_id == user_id,
        text_view(t.txid) == text_view(tx.txid),
        t.status@ == tx.status@,
        t.reference@ == tx.reference@,
        t.description@ == tx.description@,
        t.satoshis == tx.satoshis,
        t.version == tx.version,
        t.lock_time == tx.lock_time,
        t.is_outgoing == tx.is_outgoing,
        t.proof_txid == r.proof_txid,
        t.raw_tx == raw_tx,
        t.input_beef == input_beef,
        blob_comes_back("transactions"@, id, "raw_tx"@, tx.raw_tx, r.raw_tx_hex),
        blob_comes_back("transactions"@, id, "input_beef"@, tx.input_beef, r.input_beef_hex),
        t.created_at == tx.created_at,
        t.updated_at == tx.updated_at,
{
    reveal_with_fuel(row_of, 15);
    a_blob_comes_back("transactions"@, id, "raw_tx"@, tx.raw_tx, r.raw_tx_hex);
    a_blob_comes_back("transactions"@, id, "input_beef"@, tx.input_beef, r.input_beef_hex);
}

/// The row that the merge of an output inserts, with its id.
pub open spec fn inserted_output(
    user_id: i64,
    o: TableOutput,
    tx_id: i64,
    basket_id: Option<i64>,
    spent_by: Option<i64>,
    id: i64,
) -> Row {
    row_of(
        output_merge().insert.columns,
        output_query(user_id, o, tx_id, basket_id, spent_by).params,
        21,
    ).insert(Column::OutputId, SqlValue::Int(id as int))
}

/// Whether the store gives a row back as `r`.
pub open spec fn reads_output(row: Row, r: OutputSyncRow) -> bool {
    &&& reads_int(at(row, Column::OutputId), r.output_id)
    &&& reads_int(at(row, Column::UserId), r.user_id)
    &&& reads_int(at(row, Column::TransactionId), r.transaction_id)
    &&& reads_int(at(row, Column::BasketId), r.basket_id)
    &&& reads_text(at(row, Column::Txid), r.txid)
    &&& reads_int(at(row, Column::Vout), r.vout)
    &&& reads_int(at(row, Column::Satoshis), r.satoshis)
    &&& reads_hex(at(row, Column::LockingScript), r.locking_script_hex)
    &&& reads_int(at(row, Column::ScriptLength), r.script_length)
    &&& reads_int(at(row, Column::ScriptOffset), r.script_offset)
    &&& reads_text(at(row, Column::Type), r.output_type)
    &&& reads_text(at(row, Column::ProvidedBy), r.provided_by)
    &&& reads_text(at(row, Column::Purpose), r.purpose)
    &&& reads_int(at(row, Column::SpentBy), r.spent_by)
    &&& reads_flag(at(row, Column::Spendable), r.spendable)
    &&& reads_flag(at(row, Column::Change), r.change)
    &&& reads_text(at(row, Column::DerivationPrefix), r.derivation_prefix)
    &&& reads_text(at(row, Column::DerivationSuffix), r.derivation_suffix)
    &&& reads_text(at(row, Column::SenderIdentityKey), r.sender_identity_key)
    &&& reads_text(at(row, Column::CustomInstructions), r.custom_instructions)
    &&& reads_times(row, r.created_at, r.updated_at)
}

/// An output comes back as it went in, under its local ids, and with what stands for a
/// purpose or a provider that it went in without. Its descriptions, its sequence number, the
/// name of its basket and the reference of its spender are not stored with it.
pub proof fn an_output_comes_back(
    user_id: i64,
    o: TableOutput,
    tx_id: i64,
    basket_id: Option<i64>,
    spent_by: Option<i64>,
    id: i64,
    r: OutputSyncRow,
    reader: i64,
    locking_script: Option<Vec<u8>>,
    t: TableOutput,
)
    requires
        reads_output(inserted_output(user_id, o, tx_id, basket_id, spent_by, id), r),
        is_output_of(t, r, reader, locking_script),
    ensures
        t.output_id == id,
        t.user_id == user_id,
        t.transaction_id == tx_id,
        t.basket_id == basket_id,
        t.txid@ == o.txid@,
        t.vout == o.vout,
        t.satoshis == o.satoshis,
        t.script_length == o.script_length,
        t.script_offset == o.script_offset,
        t.output_type@ == o.output_type@,
        t.provided_by@ == provided_by_text(o.provided_by@),
        text_view(t.purpose) == Some(purpose_text(o.purpose)),
        t.spent_by == spent_by,
        t.spendable == o.spendable,
        t.change == o.change,
        text_view(t.derivation_prefix) == text_view(o.derivation_prefix),
        text_view(t.derivation_suffix) == text_view(o.derivation_suffix),
        text_view(t.sender_identity_key) == text_view(o.sender_identity_key),
        text_view(t.custom_instructions) == text_view(o.custom_instructions),
        t.locking_script == locking_script,
        blob_comes_back("outputs"@, id, "locking_script"@, o.locking_script, r.locking_script_hex),
        t.created_at == o.created_at,
        t.updated_at == o.updated_at,
{
    reveal_with_fuel(row_of, 22);
    a_blob_comes_back("outputs"@, id, "locking_script"@, o.locking_script, r.locking_script_hex);
}

/// The row that the merge of a certificate inserts, with its id.
pub open spec fn inserted_certificate(user_id: i64, c: TableCertificate, id: i64) -> Row {
    row_of(certificate_merge().insert.columns, certificate_query(user_id, c).params, 10).insert(
        Column::CertificateId,
        SqlValue::Int(id as int),
    )
}

/// Whether the store gives a row back as `r`.
pub open spec fn reads_certificate(row: Row, r: CertificateSyncRow) -> bool {
    &&& reads_int(at(row, Column::CertificateId), r.certificate_id)
    &&& reads_int(at(row, Column::UserId), r.user_id)
    &&& reads_text(at(row, Column::Type), r.cert_type)
    &&& reads_text(at(row, Column::SerialNumber), r.serial_number)
    &&& reads_text(at(row, Column::Certifier), r.certifier)
    &&& reads_text(at(row, Column::Subject), r.subject)
    &&& reads_text(at(row, Column::Verifier), r.verifier)
    &&& reads_text(at(row, Column::RevocationOutpoint), r.revocation_outpoint)
    &&& reads_text(at(row, Column::Signature), r.signature)
    &&& reads_times(row, r.created_at, r.updated_at)
}

/// A certificate comes back as it went in, under its local ids.
pub proof fn a_certificate_comes_back(
    user_id: i64,
    c: TableCertificate,
    id: i64,
    r: CertificateSyncRow,
    reader: i64,
    t: TableCertificate,
)
    requires
        reads_certificate(inserted_certificate(user_id, c, id), r),
        is_certificate_of(t, r, reader),
    ensures
        t.certificate_id == id,
        t.user_id == user_id,
        t.cert_type@ == c.cert_type@,
        t.serial_number@ == c.serial_number@,
        t.certifier@ == c.certifier@,
        t.subject@ == c.subject@,
        text_view(t.verifier) == text_view(c.verifier),
        t.revocation_outpoint@ == c.revocation_outpoint@,
        t.signature@ == c.signature@,
        t.created_at == c.created_at,
        t.updated_at == c.updated_at,
{
    reveal_with_fuel(row_of, 11);
}

/// The row that the merge of a field of a certificate inserts, with its id.
pub open spec fn inserted_certificate_field(
    user_id: i64,
    f: TableCertificateField,
    cert_id: i64,
    id: i64,
) -> Row {
    row_of(
        certificate_field_merge().insert.columns,
        certificate_field_query(user_id, f, cert_id).params,
        7,
    ).insert(Column::CertificateFieldId, SqlValue::Int(id as int))
}

/// Whether the store gives a row back as `r`.
pub open spec fn reads_certificate_field(row: Row, r: CertificateFieldSyncRow) -> bool {
    &&& reads_int(at(row, Column::CertificateFieldId), r.certificate_field_id)
    &&& reads_int(at(row, Column::CertificateId), r.certificate_id)
    &&& reads_int(at(row, Column::UserId), r.user_id)
    &&& reads_text(at(row, Column::FieldName), r.field_name)
    &&& reads_text(at(row, Column::FieldValue), r.field_value)
    &&& reads_text(at(row, Column::MasterKey), r.master_key)
    &&& reads_times(row, r.created_at, r.updated_at)
}

/// A field of a certificate comes back as it went in, under its local ids.
pub proof fn a_certificate_field_comes_back(
    user_id: i64,
    f: TableCertificateField,
    cert_id: i64,
    id: i64,
    r: CertificateFieldSyncRow,
    reader: i64,
    t: TableCertificateField,
)
    requires
        reads_certificate_field(inserted_certificate_field(user_id, f, cert_id, id), r),
        is_certificate_field_of(t, r, reader),
    ensures
        t.certificate_field_id == id,
        t.certificate_id == cert_id,
        t.user_id == user_id,
        t.field_name@ == f.field_name@,
        t.field_value@ == f.field_value@,
        t.master_key@ == f.master_key@,
        t.created_at == f.created_at,
        t.updated_at == f.updated_at,
{
    reveal_with_fuel(row_of, 8);
}

/// The row that the merge of a commission inserts, with its id.
pub open spec fn inserted_commission(user_id: i64, c: TableCommission, tx_id: i64, id: i64) -> Row {
    row_of(commission_merge().insert.columns, commission_query(user_id, c, tx_id).params, 8).insert(
        Column::CommissionId,
        SqlValue::Int(id as int),
    )
}

/// Whether the store gives a row back as `r`.
pub open spec fn reads_commission(row: Row, r: CommissionSyncRow) -> bool {
    &&& reads_int(at(row, Column::CommissionId), r.commission_id)
    &&& reads_int(at(row, Column::UserId), r.user_id)
    &&& reads_int(at(row, Column::TransactionId), r.transaction_id)
    &&& reads_int(at(row, Column::Satoshis), r.satoshis)
    &&& reads_hex(at(row, Column::LockingScript), r.locking_script_hex)
    &&& reads_text(at(row, Column::KeyOffset), r.key_offset)
    &&& reads_flag(at(row, Column::IsRedeemed), r.is_redeemed)
    &&& reads_times(row, r.created_at, r.updated_at)
}

/// A commission comes back as it went in, under its local ids.
pub proof fn a_commission_comes_back(
    user_id: i64,
    c: TableCommission,
    tx_id: i64,
    id: i64,
    r: CommissionSyncRow,
    reader: i64,
    script: Option<Vec<u8>>,
    t: TableCommission,
)
    requires
        reads_commission(inserted_commission(user_id, c, tx_id, id), r),
        is_commission_of(t, r, reader, script),
    ensures
        t.commission_id == id,
        t.user_id == user_id,
        t.transaction_id == tx_id,
        t.satoshis == c.satoshis,
        t.key_offset@ == c.key_offset@,
        t.is_redeemed == c.is_redeemed,
        t.payer_locking_script@ == blob_or_empty(script),
        c.payer_locking_script@.len() > 0 ==> blob_source(
            "commissions"@,
            id,
            "locking_script"@,
            r.locking_script_hex,
        ) == Ok::<BlobSourceView, ErrorView>(BlobSourceView::Inline(c.payer_locking_script@)),
        t.created_at == c.created_at,
        t.updated_at == c.updated_at,
{
    reveal_with_fuel(row_of, 9);
    let row = inserted_commission(user_id, c, tx_id, id);
    assert(at(row, Column::LockingScript) == SqlValue::Blob(c.payer_locking_script@));
    an_inline_blob_comes_back(
        "commissions"@,
        id,
        "locking_script"@,
        c.payer_locking_script@,
        r.locking_script_hex,
    );
}

/// The row that the merge of a label of a transaction inserts, with its id.
pub open spec fn inserted_tx_label_map(
    tx_id: i64,
    label_id: i64,
    updated_at: Timestamp,
    created_at: Timestamp,
    id: i64,
) -> Row {
    let params = tx_label_map_query(tx_id, label_id, updated_at, created_at).params;
    Map::empty().insert(Column::TxLabelId, params[0]).insert(Column::TransactionId, params[1]).insert(
        Column::IsDeleted,
        SqlValue::Int(0),
    ).insert(Column::CreatedAt, params[2]).insert(Column::UpdatedAt, params[3]).insert(
        Column::TxLabelMapId,
        SqlValue::Int(id as int),
    )
}

/// A label of a transaction comes back as it went in, under its local ids.
pub proof fn a_tx_label_map_comes_back(
    tx_id: i64,
    label_id: i64,
    updated_at: Timestamp,
    created_at: Timestamp,
    id: i64,
    r: TxLabelMapSyncRow,
    t: TableTxLabelMap,
)
    requires
        ({
            let row = inserted_tx_label_map(tx_id, label_id, updated_at, created_at, id);
            &&& reads_int(at(row, Column::TxLabelMapId), r.tx_label_map_id)
            &&& reads_int(at(row, Column::TransactionId), r.transaction_id)
            &&& reads_int(at(row, Column::TxLabelId), r.tx_label_id)
            &&& reads_times(row, r.created_at, r.updated_at)
        }),
        is_tx_label_map_of(t, r),
    ensures
        t.tx_label_map_id == id,
        t.transaction_id == tx_id,
        t.label_id == label_id,
        t.created_at == created_at,
        t.updated_at == updated_at,
{
}

/// The row that the merge of a tag of an output inserts, with its id.
pub open spec fn inserted_output_tag_map(
    output_id: i64,
    tag_id: i64,
    updated_at: Timestamp,
    created_at: Timestamp,
    id: i64,
) -> Row {
    let params = output_tag_map_query(output_id, tag_id, updated_at, created_at).params;
    Map::empty().insert(Column::OutputTagId, params[0]).insert(Column::OutputId, params[1]).insert(
        Column::IsDeleted,
        SqlValue::Int(0),
    ).insert(Column::CreatedAt, params[2]).insert(Column::UpdatedAt, params[3]).insert(
        Column::OutputTagMapId,
        SqlValue::Int(id as int),
    )
}

/// A tag of an output comes back as it went in, under its local ids.
pub proof fn an_output_tag_map_comes_back(
    output_id: i64,
    tag_id: i64,
    updated_at: Timestamp,
    created_at: Timestamp,
    id: i64,
    r: OutputTagMapSyncRow,
    t: TableOutputTagMap,
)
    requires
        ({
            let row = inserted_output_tag_map(output_id, tag_id, updated_at, created_at, id);
            &&& reads_int(at(row, Column::OutputTagMapId), r.output_tag_map_id)
            &&& reads_int(at(row, Column::OutputId), r.output_id)
            &&& reads_int(at(row, Column::OutputTagId), r.output_tag_id)
            &&& reads_times(row, r.created_at, r.updated_at)
        }),
        is_output_tag_map_of(t, r),
    ensures
        t.output_tag_map_id == id,
        t.output_id == output_id,
        t.tag_id == tag_id,
        t.created_at == created_at,
        t.updated_at == updated_at,
{
}

} // verus!
