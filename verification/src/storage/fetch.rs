//! Reading pages of a user's rows: the statements, and what their results stand for.

use crate::entities::{
    TableCertificate, TableCertificateField, TableCommission, TableOutput, TableOutputBasket,
    TableOutputTag, TableOutputTagMap, TableProvenTx, TableProvenTxReq, TableTransaction,
    TableTxLabel, TableTxLabelMap,
};
use crate::error::Error;
use crate::sql::query::{Param, Query, QueryView, SqlValue};
use crate::storage::blob_column::{blob_source, decode_blob_with_r2, source_view, BlobSource};
use crate::time::Timestamp;
use vstd::prelude::*;

verus! {

// ---------------------------------------------------------------------------
// Statements
// ---------------------------------------------------------------------------

/// The text of a page: the rows of `select` that changed after an instant, if one is given,
/// the earliest change first.
pub open spec fn page_text(select: Seq<char>, qualifier: Seq<char>, filtered: bool) -> Seq<char> {
    select + (if filtered {
        " AND "@ + qualifier + "updated_at > ?"@
    } else {
        ""@
    }) + " ORDER BY "@ + qualifier + "updated_at ASC LIMIT ? OFFSET ?"@
}

/// The values of a page: the user, the instant, where one is given, how many rows at most,
/// and how many to skip.
pub open spec fn page_params(
    user_id: i64,
    since: Option<Timestamp>,
    offset: u32,
    limit: u32,
) -> Seq<SqlValue> {
    seq![SqlValue::Int(user_id as int)] + (match since {
        Some(t) => seq![SqlValue::Time(t)],
        None => Seq::empty(),
    }) + seq![SqlValue::Int(limit as int), SqlValue::Int(offset as int)]
}

pub open spec fn page(
    select: Seq<char>,
    qualifier: Seq<char>,
    user_id: i64,
    since: Option<Timestamp>,
    offset: u32,
    limit: u32,
) -> QueryView {
    QueryView {
        sql: page_text(select, qualifier, since is Some),
        params: page_params(user_id, since, offset, limit),
    }
}

fn page_query(
    select: &str,
    qualifier: &str,
    user_id: i64,
    since: Option<Timestamp>,
    offset: u32,
    limit: u32,
) -> (q: Query)
    ensures
        q@ == page(select@, qualifier@, user_id, since, offset, limit),
{
    let mut sql = select.to_owned();
    let mut params: Vec<Param> = vec![Param::Int(user_id)];
    if let Some(t) = since {
        let mut filter = " AND ".to_owned();
        filter.append(qualifier);
        filter.append("updated_at > ?");
        sql.append(filter.as_str());
        params.push(Param::Time(t));
    } else {
        proof {
            reveal_strlit("");
            assert(sql@ =~= select@ + ""@);
        }
    }
    sql.append(" ORDER BY ");
    sql.append(qualifier);
    sql.append("updated_at ASC LIMIT ? OFFSET ?");
    params.push(Param::Int(limit as i64));
    params.push(Param::Int(offset as i64));
    let q = Query { sql, params };
    assert(q@.params =~= page_params(user_id, since, offset, limit));
    q
}

pub const BASKETS_SELECT: &'static str = "SELECT basket_id, user_id, name, number_of_desired_utxos, minimum_desired_utxo_value, created_at, updated_at FROM output_baskets WHERE user_id = ? AND is_deleted = 0";

pub const PROVEN_TXS_SELECT: &'static str = "SELECT proven_tx_id, txid, height, idx, block_hash, merkle_root, hex(merkle_path) AS merkle_path_hex, hex(raw_tx) AS raw_tx_hex, created_at, updated_at FROM proven_txs WHERE txid IN (SELECT txid FROM transactions WHERE user_id = ?)";

pub const PROVEN_TX_REQS_SELECT: &'static str = "SELECT proven_tx_req_id, proven_tx_id, txid, status, attempts, history, notified, notify, hex(raw_tx) AS raw_tx_hex, hex(input_beef) AS input_beef_hex, batch, created_at, updated_at FROM proven_tx_reqs WHERE txid IN (SELECT txid FROM transactions WHERE user_id = ?)";

pub const TX_LABELS_SELECT: &'static str = "SELECT tx_label_id, user_id, label, created_at, updated_at FROM tx_labels WHERE user_id = ? AND is_deleted = 0";

pub const OUTPUT_TAGS_SELECT: &'static str = "SELECT output_tag_id, user_id, tag, created_at, updated_at FROM output_tags WHERE user_id = ? AND is_deleted = 0";

pub const TRANSACTIONS_SELECT: &'static str = "SELECT t.transaction_id, t.user_id, t.txid, t.status, t.reference, t.description, t.satoshis, t.version, t.lock_time, hex(t.raw_tx) AS raw_tx_hex, hex(t.input_beef) AS input_beef_hex, t.is_outgoing, p.txid AS proof_txid, t.created_at, t.updated_at FROM transactions t LEFT JOIN proven_txs p ON t.proven_tx_id = p.proven_tx_id WHERE t.user_id = ?";

pub const OUTPUTS_SELECT: &'static str = "SELECT o.output_id, o.user_id, o.transaction_id, o.basket_id, o.txid, o.vout, o.satoshis, hex(o.locking_script) AS locking_script_hex, o.script_length, o.script_offset, o.type, o.provided_by, o.purpose, o.output_description, o.spent_by, o.sequence_number, o.spending_description, o.spendable, o.change, o.derivation_prefix, o.derivation_suffix, o.sender_identity_key, o.custom_instructions, o.created_at, o.updated_at, st.reference AS spent_by_reference FROM outputs o LEFT JOIN transactions st ON st.transaction_id = o.spent_by AND st.user_id = o.user_id WHERE o.user_id = ?";

pub const TX_LABEL_MAPS_SELECT: &'static str = "SELECT m.tx_label_map_id, m.transaction_id, m.tx_label_id, m.created_at, m.updated_at FROM tx_labels_map m JOIN transactions t ON m.transaction_id = t.transaction_id WHERE t.user_id = ? AND m.is_deleted = 0";

pub const OUTPUT_TAG_MAPS_SELECT: &'static str = "SELECT m.output_tag_map_id, m.output_id, m.output_tag_id, m.created_at, m.updated_at FROM output_tags_map m JOIN outputs o ON m.output_id = o.output_id WHERE o.user_id = ? AND m.is_deleted = 0";

pub const CERTIFICATES_SELECT: &'static str = "SELECT certificate_id, user_id, type, serial_number, certifier, subject, verifier, revocation_outpoint, signature, created_at, updated_at FROM certificates WHERE user_id = ? AND is_deleted = 0";

pub const CERTIFICATE_FIELDS_SELECT: &'static str = "SELECT certificate_field_id, certificate_id, user_id, field_name, field_value, master_key, created_at, updated_at FROM certificate_fields WHERE user_id = ?";

pub const COMMISSIONS_SELECT: &'static str = "SELECT commission_id, user_id, transaction_id, satoshis, key_offset, is_redeemed, hex(locking_script) AS locking_script_hex, created_at, updated_at FROM commissions WHERE user_id = ?";

/// The statement for a page of baskets.
pub fn fetch_baskets_for_sync(
    user_id: i64,
    since: Option<Timestamp>,
    offset: u32,
    limit: u32,
) -> (q: Query)
    ensures
        q@ == page(BASKETS_SELECT@, ""@, user_id, since, offset, limit),
{
    page_query(BASKETS_SELECT, "", user_id, since, offset, limit)
}

/// The statement for a page of proven transactions.
pub fn fetch_proven_txs_for_sync(
    user_id: i64,
    since: Option<Timestamp>,
    offset: u32,
    limit: u32,
) -> (q: Query)
    ensures
        q@ == page(PROVEN_TXS_SELECT@, ""@, user_id, since, offset, limit),
{
    page_query(PROVEN_TXS_SELECT, "", user_id, since, offset, limit)
}

/// The statement for a page of proof requests.
pub fn fetch_proven_tx_reqs_for_sync(
    user_id: i64,
    since: Option<Timestamp>,
    offset: u32,
    limit: u32,
) -> (q: Query)
    ensures
        q@ == page(PROVEN_TX_REQS_SELECT@, ""@, user_id, since, offset, limit),
{
    page_query(PROVEN_TX_REQS_SELECT, "", user_id, since, offset, limit)
}

/// The statement for a page of labels.
pub fn fetch_tx_labels_for_sync(
    user_id: i64,
    since: Option<Timestamp>,
    offset: u32,
    limit: u32,
) -> (q: Query)
    ensures
        q@ == page(TX_LABELS_SELECT@, ""@, user_id, since, offset, limit),
{
    page_query(TX_LABELS_SELECT, "", user_id, since, offset, limit)
}

/// The statement for a page of tags.
pub fn fetch_output_tags_for_sync(
    user_id: i64,
    since: Option<Timestamp>,
    offset: u32,
    limit: u32,
) -> (q: Query)
    ensures
        q@ == page(OUTPUT_TAGS_SELECT@, ""@, user_id, since, offset, limit),
{
    page_query(OUTPUT_TAGS_SELECT, "", user_id, since, offset, limit)
}

/// The statement for a page of transactions.
pub fn fetch_transactions_for_sync(
    user_id: i64,
    since: Option<Timestamp>,
    offset: u32,
    limit: u32,
) -> (q: Query)
    ensures
        q@ == page(TRANSACTIONS_SELECT@, "t."@, user_id, since, offset, limit),
{
    page_query(TRANSACTIONS_SELECT, "t.", user_id, since, offset, limit)
}

/// The statement for a page of outputs.
pub fn fetch_outputs_for_sync(
    user_id: i64,
    since: Option<Timestamp>,
    offset: u32,
    limit: u32,
) -> (q: Query)
    ensures
        q@ == page(OUTPUTS_SELECT@, "o."@, user_id, since, offset, limit),
{
    page_query(OUTPUTS_SELECT, "o.", user_id, since, offset, limit)
}

/// The statement for a page of labels of transactions.
pub fn fetch_tx_label_maps_for_sync(
    user_id: i64,
    since: Option<Timestamp>,
    offset: u32,
    limit: u32,
) -> (q: Query)
    ensures
        q@ == page(TX_LABEL_MAPS_SELECT@, "m."@, user_id, since, offset, limit),
{
    page_query(TX_LABEL_MAPS_SELECT, "m.", user_id, since, offset, limit)
}

/// The statement for a page of tags of outputs.
pub fn fetch_output_tag_maps_for_sync(
    user_id: i64,
    since: Option<Timestamp>,
    offset: u32,
    limit: u32,
) -> (q: Query)
    ensures
        q@ == page(OUTPUT_TAG_MAPS_SELECT@, "m."@, user_id, since, offset, limit),
{
    page_query(OUTPUT_TAG_MAPS_SELECT, "m.", user_id, since, offset, limit)
}

/// The statement for a page of certificates.
pub fn fetch_certificates_for_sync(
    user_id: i64,
    since: Option<Timestamp>,
    offset: u32,
    limit: u32,
) -> (q: Query)
    ensures
        q@ == page(CERTIFICATES_SELECT@, ""@, user_id, since, offset, limit),
{
    page_query(CERTIFICATES_SELECT, "", user_id, since, offset, limit)
}

/// The statement for a page of fields of certificates.
pub fn fetch_certificate_fields_for_sync(
    user_id: i64,
    since: Option<Timestamp>,
    offset: u32,
    limit: u32,
) -> (q: Query)
    ensures
        q@ == page(CERTIFICATE_FIELDS_SELECT@, ""@, user_id, since, offset, limit),
{
    page_query(CERTIFICATE_FIELDS_SELECT, "", user_id, since, offset, limit)
}

/// The statement for a page of commissions.
pub fn fetch_commissions_for_sync(
    user_id: i64,
    since: Option<Timestamp>,
    offset: u32,
    limit: u32,
) -> (q: Query)
    ensures
        q@ == page(COMMISSIONS_SELECT@, ""@, user_id, since, offset, limit),
{
    page_query(COMMISSIONS_SELECT, "", user_id, since, offset, limit)
}

// ---------------------------------------------------------------------------
// Rows
// ---------------------------------------------------------------------------

/// The nearest 32-bit value.
pub open spec fn narrowed(n: i64) -> i32 {
    if n > i32::MAX {
        i32::MAX
    } else if n < i32::MIN {
        i32::MIN
    } else {
        n as i32
    }
}

pub fn narrow(n: i64) -> (small: i32)
    ensures
        small == narrowed(n),
{
    if n > 2147483647 {
        2147483647
    } else if n < -2147483648 {
        -2147483648
    } else {
        n as i32
    }
}

/// The nearest unsigned 32-bit value.
pub open spec fn narrowed_unsigned(n: i64) -> u32 {
    if n > u32::MAX {
        u32::MAX
    } else if n < 0 {
        0
    } else {
        n as u32
    }
}

pub fn narrow_unsigned(n: i64) -> (small: u32)
    ensures
        small == narrowed_unsigned(n),
{
    if n > 4294967295 {
        4294967295
    } else if n < 0 {
        0
    } else {
        n as u32
    }
}

/// A 32-bit column, with what stands for `NULL`.
pub open spec fn narrowed_or(n: Option<i64>, other: i32) -> i32 {
    match n {
        Some(n) => narrowed(n),
        None => other,
    }
}

fn narrow_or(n: Option<i64>, other: i32) -> (small: i32)
    ensures
        small == narrowed_or(n, other),
{
    match n {
        Some(n) => narrow(n),
        None => other,
    }
}

/// A text column, with what stands for `NULL`.
pub open spec fn text_or(text: Option<String>, other: Seq<char>) -> Seq<char> {
    match text {
        Some(t) => t@,
        None => other,
    }
}

fn take_text(text: Option<String>, other: &str) -> (t: String)
    ensures
        t@ == text_or(text, other@),
{
    match text {
        Some(t) => t,
        None => other.to_owned(),
    }
}

/// The bytes of a blob, none where it is missing.
pub open spec fn blob_or_empty(blob: Option<Vec<u8>>) -> Seq<u8> {
    match blob {
        Some(b) => b@,
        None => Seq::empty(),
    }
}

fn take_blob(blob: Option<Vec<u8>>) -> (b: Vec<u8>)
    ensures
        b@ == blob_or_empty(blob),
{
    match blob {
        Some(b) => b,
        None => Vec::new(),
    }
}

/// A row of a basket as the store gives it.
#[derive(Debug, PartialEq, Eq)]
pub struct BasketSyncRow {
    pub basket_id: Option<i64>,
    pub user_id: Option<i64>,
    pub name: Option<String>,
    pub number_of_desired_utxos: Option<i64>,
    pub minimum_desired_utxo_value: Option<i64>,
    pub created_at: Timestamp,
    pub updated_at: Timestamp,
}

/// Whether a value is a basket that a row stands for.
pub open spec fn is_basket_of(t: TableOutputBasket, r: BasketSyncRow, user_id: i64) -> bool {
    &&& t.basket_id == r.basket_id.unwrap_or(0)
    &&& t.user_id == r.user_id.unwrap_or(user_id)
    &&& t.name@ == text_or(r.name, ""@)
    &&& t.number_of_desired_utxos == narrowed_or(r.number_of_desired_utxos, 6)
    &&& t.minimum_desired_utxo_value == r.minimum_desired_utxo_value.unwrap_or(10000)
    &&& t.created_at == r.created_at
    &&& t.updated_at == r.updated_at
}

/// A basket from a row.
pub fn basket_of(r: BasketSyncRow, user_id: i64) -> (t: TableOutputBasket)
    ensures
        is_basket_of(t, r, user_id),
{
    TableOutputBasket {
        basket_id: r.basket_id.unwrap_or(0),
        user_id: r.user_id.unwrap_or(user_id),
        name: take_text(r.name, ""),
        number_of_desired_utxos: narrow_or(r.number_of_desired_utxos, 6),
        minimum_desired_utxo_value: r.minimum_desired_utxo_value.unwrap_or(10000),
        created_at: r.created_at,
        updated_at: r.updated_at,
    }
}

/// A row of a proven transaction as the store gives it.
/// Blobs come in hexadecimal.
#[derive(Debug, PartialEq, Eq)]
pub struct ProvenTxSyncRow {
    pub proven_tx_id: Option<i64>,
    pub txid: Option<String>,
    pub height: Option<i64>,
    pub idx: Option<i64>,
    pub block_hash: Option<String>,
    pub merkle_root: Option<String>,
    pub merkle_path_hex: Option<String>,
    pub raw_tx_hex: Option<String>,
    pub created_at: Timestamp,
    pub updated_at: Timestamp,
}

/// Whether a value is a proven transaction that a row and its blobs stand for.
pub open spec fn is_proven_tx_of(
    t: TableProvenTx,
    r: ProvenTxSyncRow,
    merkle_path: Option<Vec<u8>>,
    raw_tx: Option<Vec<u8>>,
) -> bool {
    &&& t.proven_tx_id == r.proven_tx_id.unwrap_or(0)
    &&& t.txid@ == text_or(r.txid, ""@)
    &&& t.height == r.height.unwrap_or(0)
    &&& t.index == r.idx.unwrap_or(0)
    &&& t.block_hash@ == text_or(r.block_hash, ""@)
    &&& t.merkle_root@ == text_or(r.merkle_root, ""@)
    &&& t.merkle_path@ == blob_or_empty(merkle_path)
    &&& t.raw_tx@ == blob_or_empty(raw_tx)
    &&& t.created_at == r.created_at
    &&& t.updated_at == r.updated_at
}

/// A proven transaction from a row and its blobs.
pub fn proven_tx_of(
    r: ProvenTxSyncRow,
    merkle_path: Option<Vec<u8>>,
    raw_tx: Option<Vec<u8>>,
) -> (t: TableProvenTx)
    ensures
        is_proven_tx_of(t, r, merkle_path, raw_tx),
{
    TableProvenTx {
        proven_tx_id: r.proven_tx_id.unwrap_or(0),
        txid: take_text(r.txid, ""),
        height: r.height.unwrap_or(0),
        index: r.idx.unwrap_or(0),
        block_hash: take_text(r.block_hash, ""),
        merkle_root: take_text(r.merkle_root, ""),
        merkle_path: take_blob(merkle_path),
        raw_tx: take_blob(raw_tx),
        created_at: r.created_at,
        updated_at: r.updated_at,
    }
}

/// A row of a proof request as the store gives it.
/// Blobs come in hexadecimal, and the status as the text of the status that was read.
#[derive(Debug, PartialEq, Eq)]
pub struct ProvenTxReqSyncRow {
    pub proven_tx_req_id: Option<i64>,
    pub proven_tx_id: Option<i64>,
    pub txid: Option<String>,
    pub status: String,
    pub attempts: Option<i64>,
    pub history: Option<String>,
    pub notified: Option<bool>,
    pub notify: Option<String>,
    pub raw_tx_hex: Option<String>,
    pub input_beef_hex: Option<String>,
    pub batch: Option<String>,
    pub created_at: Timestamp,
    pub updated_at: Timestamp,
}

/// Whether a value is a proof request that a row and its blobs stand for.
pub open spec fn is_proven_tx_req_of(
    t: TableProvenTxReq,
    r: ProvenTxReqSyncRow,
    raw_tx: Option<Vec<u8>>,
    input_beef: Option<Vec<u8>>,
) -> bool {
    &&& t.proven_tx_req_id == r.proven_tx_req_id.unwrap_or(0)
    &&& t.proven_tx_id == r.proven_tx_id
    &&& t.txid@ == text_or(r.txid, ""@)
    &&& t.status == r.status
    &&& t.attempts == narrowed_or(r.attempts, 0)
    &&& t.history@ == text_or(r.history, "{}"@)
    &&& t.notified == r.notified.unwrap_or(false)
    &&& t.notify@ == text_or(r.notify, "{}"@)
    &&& t.batch == r.batch
    &&& t.raw_tx == raw_tx
    &&& t.input_beef == input_beef
    &&& t.created_at == r.created_at
    &&& t.updated_at == r.updated_at
}

/// A proof request from a row and its blobs.
pub fn proven_tx_req_of(
    r: ProvenTxReqSyncRow,
    raw_tx: Option<Vec<u8>>,
    input_beef: Option<Vec<u8>>,
) -> (t: TableProvenTxReq)
    ensures
        is_proven_tx_req_of(t, r, raw_tx, input_beef),
{
    TableProvenTxReq {
        proven_tx_req_id: r.proven_tx_req_id.unwrap_or(0),
        proven_tx_id: r.proven_tx_id,
        txid: take_text(r.txid, ""),
        status: r.status,
        attempts: narrow_or(r.attempts, 0),
        history: take_text(r.history, "{}"),
        notified: r.notified.unwrap_or(false),
        notify: take_text(r.notify, "{}"),
        batch: r.batch,
        raw_tx,
        input_beef,
        created_at: r.created_at,
        updated_at: r.updated_at,
    }
}

/// A row of a label as the store gives it.
#[derive(Debug, PartialEq, Eq)]
pub struct TxLabelSyncRow {
    pub tx_label_id: Option<i64>,
    pub user_id: Option<i64>,
    pub label: Option<String>,
    pub created_at: Timestamp,
    pub updated_at: Timestamp,
}

/// Whether a value is a label that a row stands for.
pub open spec fn is_tx_label_of(t: TableTxLabel, r: TxLabelSyncRow, user_id: i64) -> bool {
    &&& t.label_id == r.tx_label_id.unwrap_or(0)
    &&& t.user_id == r.user_id.unwrap_or(user_id)
    &&& t.label@ == text_or(r.label, ""@)
    &&& t.created_at == r.created_at
    &&& t.updated_at == r.updated_at
}

/// A label from a row.
pub fn tx_label_of(r: TxLabelSyncRow, user_id: i64) -> (t: TableTxLabel)
    ensures
        is_tx_label_of(t, r, user_id),
{
    TableTxLabel {
        label_id: r.tx_label_id.unwrap_or(0),
        user_id: r.user_id.unwrap_or(user_id),
        label: take_text(r.label, ""),
        created_at: r.created_at,
        updated_at: r.updated_at,
    }
}

/// A row of a tag as the store gives it.
#[derive(Debug, PartialEq, Eq)]
pub struct OutputTagSyncRow {
    pub output_tag_id: Option<i64>,
    pub user_id: Option<i64>,
    pub tag: Option<String>,
    pub created_at: Timestamp,
    pub updated_at: Timestamp,
}

/// Whether a value is a tag that a row stands for.
pub open spec fn is_output_tag_of(t: TableOutputTag, r: OutputTagSyncRow, user_id: i64) -> bool {
    &&& t.tag_id == r.output_tag_id.unwrap_or(0)
    &&& t.user_id == r.user_id.unwrap_or(user_id)
    &&& t.tag@ == text_or(r.tag, ""@)
    &&& t.created_at == r.created_at
    &&& t.updated_at == r.updated_at
}

/// A tag from a row.
pub fn output_tag_of(r: OutputTagSyncRow, user_id: i64) -> (t: TableOutputTag)
    ensures
        is_output_tag_of(t, r, user_id),
{
    TableOutputTag {
        tag_id: r.output_tag_id.unwrap_or(0),
        user_id: r.user_id.unwrap_or(user_id),
        tag: take_text(r.tag, ""),
        created_at: r.created_at,
        updated_at: r.updated_at,
    }
}

/// A row of a transaction as the store gives it.
/// Blobs come in hexadecimal, and the status as the text of the status that was read.
#[derive(Debug, PartialEq, Eq)]
pub struct TransactionSyncRow {
    pub transaction_id: Option<i64>,
    pub user_id: Option<i64>,
    pub txid: Option<String>,
    pub status: String,
    pub reference: Option<String>,
    pub description: Option<String>,
    pub satoshis: Option<i64>,
    pub version: Option<i64>,
    pub lock_time: Option<i64>,
    pub raw_tx_hex: Option<String>,
    pub input_beef_hex: Option<String>,
    pub is_outgoing: Option<bool>,
    pub proof_txid: Option<String>,
    pub created_at: Timestamp,
    pub updated_at: Timestamp,
}

/// Whether a value is a transaction that a row and its blobs stand for.
pub open spec fn is_transaction_of(
    t: TableTransaction,
    r: TransactionSyncRow,
    user_id: i64,
    raw_tx: Option<Vec<u8>>,
    input_beef: Option<Vec<u8>>,
) -> bool {
    &&& t.transaction_id == r.transaction_id.unwrap_or(0)
    &&& t.user_id == r.user_id.unwrap_or(user_id)
    &&& t.txid == r.txid
    &&& t.status == r.status
    &&& t.reference@ == text_or(r.reference, ""@)
    &&& t.description@ == text_or(r.description, ""@)
    &&& t.satoshis == r.satoshis.unwrap_or(0)
    &&& t.version == narrowed_or(r.version, 0)
    &&& t.lock_time == r.lock_time.unwrap_or(0)
    &&& t.is_outgoing == r.is_outgoing.unwrap_or(false)
    &&& t.proof_txid == r.proof_txid
    &&& t.raw_tx == raw_tx
    &&& t.input_beef == input_beef
    &&& t.created_at == r.created_at
    &&& t.updated_at == r.updated_at
}

/// A transaction from a row and its blobs.
pub fn transaction_of(
    r: TransactionSyncRow,
    user_id: i64,
    raw_tx: Option<Vec<u8>>,
    input_beef: Option<Vec<u8>>,
) -> (t: TableTransaction)
    ensures
        is_transaction_of(t, r, user_id, raw_tx, input_beef),
{
    TableTransaction {
        transaction_id: r.transaction_id.unwrap_or(0),
        user_id: r.user_id.unwrap_or(user_id),
        txid: r.txid,
        status: r.status,
        reference: take_text(r.reference, ""),
        description: take_text(r.description, ""),
        satoshis: r.satoshis.unwrap_or(0),
        version: narrow_or(r.version, 0),
        lock_time: r.lock_time.unwrap_or(0),
        is_outgoing: r.is_outgoing.unwrap_or(false),
        proof_txid: r.proof_txid,
        raw_tx,
        input_beef,
        created_at: r.created_at,
        updated_at: r.updated_at,
    }
}

/// A row of an output as the store gives it.
/// Blobs come in hexadecimal.
#[derive(Debug, PartialEq, Eq)]
pub struct OutputSyncRow {
    pub output_id: Option<i64>,
    pub user_id: Option<i64>,
    pub transaction_id: Option<i64>,
    pub basket_id: Option<i64>,
    pub txid: Option<String>,
    pub vout: Option<i64>,
    pub satoshis: Option<i64>,
    pub locking_script_hex: Option<String>,
    pub script_length: Option<i64>,
    pub script_offset: Option<i64>,
    pub output_type: Option<String>,
    pub provided_by: Option<String>,
    pub purpose: Option<String>,
    pub output_description: Option<String>,
    pub spent_by: Option<i64>,
    pub spent_by_reference: Option<String>,
    pub sequence_number: Option<i64>,
    pub spending_description: Option<String>,
    pub spendable: Option<bool>,
    pub change: Option<bool>,
    pub derivation_prefix: Option<String>,
    pub derivation_suffix: Option<String>,
    pub sender_identity_key: Option<String>,
    pub custom_instructions: Option<String>,
    pub created_at: Timestamp,
    pub updated_at: Timestamp,
}

/// Whether a value is an output that a row and its blob stand for.
pub open spec fn is_output_of(
    t: TableOutput,
    r: OutputSyncRow,
    user_id: i64,
    locking_script: Option<Vec<u8>>,
) -> bool {
    &&& t.output_id == r.output_id.unwrap_or(0)
    &&& t.user_id == r.user_id.unwrap_or(user_id)
    &&& t.transaction_id == r.transaction_id.unwrap_or(0)
    &&& t.basket_id == r.basket_id
    &&& t.txid@ == text_or(r.txid, ""@)
    &&& t.vout == narrowed_or(r.vout, 0)
    &&& t.satoshis == r.satoshis.unwrap_or(0)
    &&& t.script_length == narrowed_or(r.script_length, 0)
    &&& t.script_offset == narrowed_or(r.script_offset, 0)
    &&& t.output_type@ == text_or(r.output_type, ""@)
    &&& t.provided_by@ == text_or(r.provided_by, ""@)
    &&& t.purpose == r.purpose
    &&& t.output_description == r.output_description
    &&& t.spent_by == r.spent_by
    &&& t.spent_by_reference == r.spent_by_reference
    &&& t.sequence_number == (match r.sequence_number {
            Some(n) => Some(narrowed_unsigned(n)),
            None => None,
        })
    &&& t.spending_description == r.spending_description
    &&& t.spendable == r.spendable.unwrap_or(false)
    &&& t.change == r.change.unwrap_or(false)
    &&& t.derivation_prefix == r.derivation_prefix
    &&& t.derivation_suffix == r.derivation_suffix
    &&& t.sender_identity_key == r.sender_identity_key
    &&& t.custom_instructions == r.custom_instructions
    &&& t.basket_name is None
    &&& t.locking_script == locking_script
    &&& t.created_at == r.created_at
    &&& t.updated_at == r.updated_at
}

/// An output from a row and its blob.
pub fn output_of(
    r: OutputSyncRow,
    user_id: i64,
    locking_script: Option<Vec<u8>>,
) -> (t: TableOutput)
    ensures
        is_output_of(t, r, user_id, locking_script),
{
    TableOutput {
        output_id: r.output_id.unwrap_or(0),
        user_id: r.user_id.unwrap_or(user_id),
        transaction_id: r.transaction_id.unwrap_or(0),
        basket_id: r.basket_id,
        txid: take_text(r.txid, ""),
        vout: narrow_or(r.vout, 0),
        satoshis: r.satoshis.unwrap_or(0),
        script_length: narrow_or(r.script_length, 0),
        script_offset: narrow_or(r.script_offset, 0),
        output_type: take_text(r.output_type, ""),
        provided_by: take_text(r.provided_by, ""),
        purpose: r.purpose,
        output_description: r.output_description,
        spent_by: r.spent_by,
        spent_by_reference: r.spent_by_reference,
        sequence_number: match r.sequence_number {
            Some(n) => Some(narrow_unsigned(n)),
            None => None,
        },
        spending_description: r.spending_description,
        spendable: r.spendable.unwrap_or(false),
        change: r.change.unwrap_or(false),
        derivation_prefix: r.derivation_prefix,
        derivation_suffix: r.derivation_suffix,
        sender_identity_key: r.sender_identity_key,
        custom_instructions: r.custom_instructions,
        basket_name: None,
        locking_script,
        created_at: r.created_at,
        updated_at: r.updated_at,
    }
}

/// A row of a label of a transaction as the store gives it.
#[derive(Debug, PartialEq, Eq)]
pub struct TxLabelMapSyncRow {
    pub tx_label_map_id: Option<i64>,
    pub transaction_id: Option<i64>,
    pub tx_label_id: Option<i64>,
    pub created_at: Timestamp,
    pub updated_at: Timestamp,
}

/// Whether a value is a label of a transaction that a row stands for.
pub open spec fn is_tx_label_map_of(t: TableTxLabelMap, r: TxLabelMapSyncRow) -> bool {
    &&& t.tx_label_map_id == r.tx_label_map_id.unwrap_or(0)
    &&& t.transaction_id == r.transaction_id.unwrap_or(0)
    &&& t.label_id == r.tx_label_id.unwrap_or(0)
    &&& t.created_at == r.created_at
    &&& t.updated_at == r.updated_at
}

/// A label of a transaction from a row.
pub fn tx_label_map_of(r: TxLabelMapSyncRow) -> (t: TableTxLabelMap)
    ensures
        is_tx_label_map_of(t, r),
{
    TableTxLabelMap {
        tx_label_map_id: r.tx_label_map_id.unwrap_or(0),
        transaction_id: r.transaction_id.unwrap_or(0),
        label_id: r.tx_label_id.unwrap_or(0),
        created_at: r.created_at,
        updated_at: r.updated_at,
    }
}

/// A row of a tag of an output as the store gives it.
#[derive(Debug, PartialEq, Eq)]
pub struct OutputTagMapSyncRow {
    pub output_tag_map_id: Option<i64>,
    pub output_id: Option<i64>,
    pub output_tag_id: Option<i64>,
    pub created_at: Timestamp,
    pub updated_at: Timestamp,
}

/// Whether a value is a tag of an output that a row stands for.
pub open spec fn is_output_tag_map_of(t: TableOutputTagMap, r: OutputTagMapSyncRow) -> bool {
    &&& t.output_tag_map_id == r.output_tag_map_id.unwrap_or(0)
    &&& t.output_id == r.output_id.unwrap_or(0)
    &&& t.tag_id == r.output_tag_id.unwrap_or(0)
    &&& t.created_at == r.created_at
    &&& t.updated_at == r.updated_at
}

/// A tag of an output from a row.
pub fn output_tag_map_of(r: OutputTagMapSyncRow) -> (t: TableOutputTagMap)
    ensures
        is_output_tag_map_of(t, r),
{
    TableOutputTagMap {
        output_tag_map_id: r.output_tag_map_id.unwrap_or(0),
        output_id: r.output_id.unwrap_or(0),
        tag_id: r.output_tag_id.unwrap_or(0),
        created_at: r.created_at,
        updated_at: r.updated_at,
    }
}

/// A row of a certificate as the store gives it.
#[derive(Debug, PartialEq, Eq)]
pub struct CertificateSyncRow {
    pub certificate_id: Option<i64>,
    pub user_id: Option<i64>,
    pub cert_type: Option<String>,
    pub serial_number: Option<String>,
    pub certifier: Option<String>,
    pub subject: Option<String>,
    pub verifier: Option<String>,
    pub revocation_outpoint: Option<String>,
    pub signature: Option<String>,
    pub created_at: Timestamp,
    pub updated_at: Timestamp,
}

/// Whether a value is a certificate that a row stands for.
pub open spec fn is_certificate_of(
    t: TableCertificate,
    r: CertificateSyncRow,
    user_id: i64,
) -> bool {
    &&& t.certificate_id == r.certificate_id.unwrap_or(0)
    &&& t.user_id == r.user_id.unwrap_or(user_id)
    &&& t.cert_type@ == text_or(r.cert_type, ""@)
    &&& t.serial_number@ == text_or(r.serial_number, ""@)
    &&& t.certifier@ == text_or(r.certifier, ""@)
    &&& t.subject@ == text_or(r.subject, ""@)
    &&& t.verifier == r.verifier
    &&& t.revocation_outpoint@ == text_or(r.revocation_outpoint, ""@)
    &&& t.signature@ == text_or(r.signature, ""@)
    &&& t.created_at == r.created_at
    &&& t.updated_at == r.updated_at
}

/// A certificate from a row.
pub fn certificate_of(r: CertificateSyncRow, user_id: i64) -> (t: TableCertificate)
    ensures
        is_certificate_of(t, r, user_id),
{
    TableCertificate {
        certificate_id: r.certificate_id.unwrap_or(0),
        user_id: r.user_id.unwrap_or(user_id),
        cert_type: take_text(r.cert_type, ""),
        serial_number: take_text(r.serial_number, ""),
        certifier: take_text(r.certifier, ""),
        subject: take_text(r.subject, ""),
        verifier: r.verifier,
        revocation_outpoint: take_text(r.revocation_outpoint, ""),
        signature: take_text(r.signature, ""),
        created_at: r.created_at,
        updated_at: r.updated_at,
    }
}

/// A row of a field of a certificate as the store gives it.
#[derive(Debug, PartialEq, Eq)]
pub struct CertificateFieldSyncRow {
    pub certificate_field_id: Option<i64>,
    pub certificate_id: Option<i64>,
    pub user_id: Option<i64>,
    pub field_name: Option<String>,
    pub field_value: Option<String>,
    pub master_key: Option<String>,
    pub created_at: Timestamp,
    pub updated_at: Timestamp,
}

/// Whether a value is a field of a certificate that a row stands for.
pub open spec fn is_certificate_field_of(
    t: TableCertificateField,
    r: CertificateFieldSyncRow,
    user_id: i64,
) -> bool {
    &&& t.certificate_field_id == r.certificate_field_id.unwrap_or(0)
    &&& t.certificate_id == r.certificate_id.unwrap_or(0)
    &&& t.user_id == r.user_id.unwrap_or(user_id)
    &&& t.field_name@ == text_or(r.field_name, ""@)
    &&& t.field_value@ == text_or(r.field_value, ""@)
    &&& t.master_key@ == text_or(r.master_key, ""@)
    &&& t.created_at == r.created_at
    &&& t.updated_at == r.updated_at
}

/// A field of a certificate from a row.
pub fn certificate_field_of(r: CertificateFieldSyncRow, user_id: i64) -> (t: TableCertificateField)
    ensures
        is_certificate_field_of(t, r, user_id),
{
    TableCertificateField {
        certificate_field_id: r.certificate_field_id.unwrap_or(0),
        certificate_id: r.certificate_id.unwrap_or(0),
        user_id: r.user_id.unwrap_or(user_id),
        field_name: take_text(r.field_name, ""),
        field_value: take_text(r.field_value, ""),
        master_key: take_text(r.master_key, ""),
        created_at: r.created_at,
        updated_at: r.updated_at,
    }
}

/// A row of a commission as the store gives it.
/// Blobs come in hexadecimal.
#[derive(Debug, PartialEq, Eq)]
pub struct CommissionSyncRow {
    pub commission_id: Option<i64>,
    pub user_id: Option<i64>,
    pub transaction_id: Option<i64>,
    pub satoshis: Option<i64>,
    pub locking_script_hex: Option<String>,
    pub key_offset: Option<String>,
    pub is_redeemed: Option<bool>,
    pub created_at: Timestamp,
    pub updated_at: Timestamp,
}

/// Whether a value is a commission that a row and its blob stand for.
pub open spec fn is_commission_of(
    t: TableCommission,
    r: CommissionSyncRow,
    user_id: i64,
    payer_locking_script: Option<Vec<u8>>,
) -> bool {
    &&& t.commission_id == r.commission_id.unwrap_or(0)
    &&& t.user_id == r.user_id.unwrap_or(user_id)
    &&& t.transaction_id == r.transaction_id.unwrap_or(0)
    &&& t.satoshis == r.satoshis.unwrap_or(0)
    &&& t.key_offset@ == text_or(r.key_offset, ""@)
    &&& t.is_redeemed == r.is_redeemed.unwrap_or(false)
    &&& t.payer_locking_script@ == blob_or_empty(payer_locking_script)
    &&& t.created_at == r.created_at
    &&& t.updated_at == r.updated_at
}

/// A commission from a row and its blob.
pub fn commission_of(
    r: CommissionSyncRow,
    user_id: i64,
    payer_locking_script: Option<Vec<u8>>,
) -> (t: TableCommission)
    ensures
        is_commission_of(t, r, user_id, payer_locking_script),
{
    TableCommission {
        commission_id: r.commission_id.unwrap_or(0),
        user_id: r.user_id.unwrap_or(user_id),
        transaction_id: r.transaction_id.unwrap_or(0),
        satoshis: r.satoshis.unwrap_or(0),
        key_offset: take_text(r.key_offset, ""),
        is_redeemed: r.is_redeemed.unwrap_or(false),
        payer_locking_script: take_blob(payer_locking_script),
        created_at: r.created_at,
        updated_at: r.updated_at,
    }
}

impl ProvenTxSyncRow {
    /// Where the bytes of the `merkle_path` column are.
    pub fn merkle_path_source(&self) -> (source: Result<BlobSource, Error>)
        ensures
            source_view(source) == blob_source(
                "proven_txs"@,
                self.proven_tx_id.unwrap_or(0),
                "merkle_path"@,
                self.merkle_path_hex,
            ),
    {
        decode_blob_with_r2(
            "proven_txs",
            self.proven_tx_id.unwrap_or(0),
            "merkle_path",
            &self.merkle_path_hex,
        )
    }

    /// Where the bytes of the `raw_tx` column are.
    pub fn raw_tx_source(&self) -> (source: Result<BlobSource, Error>)
        ensures
            source_view(source) == blob_source(
                "proven_txs"@,
                self.proven_tx_id.unwrap_or(0),
                "raw_tx"@,
                self.raw_tx_hex,
            ),
    {
        decode_blob_with_r2(
            "proven_txs",
            self.proven_tx_id.unwrap_or(0),
            "raw_tx",
            &self.raw_tx_hex,
        )
    }
}

impl ProvenTxReqSyncRow {
    /// Where the bytes of the `raw_tx` column are.
    pub fn raw_tx_source(&self) -> (source: Result<BlobSource, Error>)
        ensures
            source_view(source) == blob_source(
                "proven_tx_reqs"@,
                self.proven_tx_req_id.unwrap_or(0),
                "raw_tx"@,
                self.raw_tx_hex,
            ),
    {
        decode_blob_with_r2(
            "proven_tx_reqs",
            self.proven_tx_req_id.unwrap_or(0),
            "raw_tx",
            &self.raw_tx_hex,
        )
    }

    /// Where the bytes of the `input_beef` column are.
    pub fn input_beef_source(&self) -> (source: Result<BlobSource, Error>)
        ensures
            source_view(source) == blob_source(
                "proven_tx_reqs"@,
                self.proven_tx_req_id.unwrap_or(0),
                "input_beef"@,
                self.input_beef_hex,
            ),
    {
        decode_blob_with_r2(
            "proven_tx_reqs",
            self.proven_tx_req_id.unwrap_or(0),
            "input_beef",
            &self.input_beef_hex,
        )
    }
}

impl TransactionSyncRow {
    /// Where the bytes of the `raw_tx` column are.
    pub fn raw_tx_source(&self) -> (source: Result<BlobSource, Error>)
        ensures
            source_view(source) == blob_source(
                "transactions"@,
                self.transaction_id.unwrap_or(0),
                "raw_tx"@,
                self.raw_tx_hex,
            ),
    {
        decode_blob_with_r2(
            "transactions",
            self.transaction_id.unwrap_or(0),
            "raw_tx",
            &self.raw_tx_hex,
        )
    }

    /// Where the bytes of the `input_beef` column are.
    pub fn input_beef_source(&self) -> (source: Result<BlobSource, Error>)
        ensures
            source_view(source) == blob_source(
                "transactions"@,
                self.transaction_id.unwrap_or(0),
                "input_beef"@,
                self.input_beef_hex,
            ),
    {
        decode_blob_with_r2(
            "transactions",
            self.transaction_id.unwrap_or(0),
            "input_beef",
            &self.input_beef_hex,
        )
    }
}

impl OutputSyncRow {
    /// Where the bytes of the `locking_script` column are.
    pub fn locking_script_source(&self) -> (source: Result<BlobSource, Error>)
        ensures
            source_view(source) == blob_source(
                "outputs"@,
                self.output_id.unwrap_or(0),
                "locking_script"@,
                self.locking_script_hex,
            ),
    {
        decode_blob_with_r2(
            "outputs",
            self.output_id.unwrap_or(0),
            "locking_script",
            &self.locking_script_hex,
        )
    }
}

impl CommissionSyncRow {
    /// Where the bytes of the `locking_script` column are.
    pub fn locking_script_source(&self) -> (source: Result<BlobSource, Error>)
        ensures
            source_view(source) == blob_source(
                "commissions"@,
                self.commission_id.unwrap_or(0),
                "locking_script"@,
                self.locking_script_hex,
            ),
    {
        decode_blob_with_r2(
            "commissions",
            self.commission_id.unwrap_or(0),
            "locking_script",
            &self.locking_script_hex,
        )
    }
}

} // verus!
