//! How a page is asked for and how its rows are read, said of the columns.

use crate::entities::{
    TableCertificate, TableCertificateField, TableCommission, TableOutput, TableOutputBasket,
    TableOutputTag, TableOutputTagMap, TableProvenTx, TableProvenTxReq, TableTransaction,
    TableTxLabel, TableTxLabelMap,
};
use crate::sql::query::{blob_value, flag_value, int_value, text_value, SqlValue};
use crate::storage::fetch::{
    is_basket_of, is_certificate_field_of, is_certificate_of, is_commission_of, is_output_of,
    is_output_tag_map_of, is_output_tag_of, is_proven_tx_of, is_proven_tx_req_of, is_transaction_of,
    is_tx_label_map_of, is_tx_label_of, narrowed, narrowed_unsigned, page, BasketSyncRow,
    CertificateFieldSyncRow, CertificateSyncRow, CommissionSyncRow, OutputSyncRow,
    OutputTagMapSyncRow, OutputTagSyncRow, ProvenTxReqSyncRow, ProvenTxSyncRow, TransactionSyncRow,
    TxLabelMapSyncRow, TxLabelSyncRow,
};
use crate::storage::upsert::{
    bytes_or_none, inline_bytes, overflows, provided_by_text, purpose_text,
};
use crate::time::Timestamp;
use vstd::prelude::*;

verus! {

// ---------------------------------------------------------------------------
// Pages
// ---------------------------------------------------------------------------

/// A page is of a user, of rows that changed after an instant where one is given, the
/// earliest change first, and skips and takes as many rows as it is told.
pub proof fn a_page_asks_for_its_rows(
    select: Seq<char>,
    qualifier: Seq<char>,
    user_id: i64,
    since: Timestamp,
    offset: u32,
    limit: u32,
)
    ensures
        ({
            let all = page(select, qualifier, user_id, None, offset, limit);
            let changed = page(select, qualifier, user_id, Some(since), offset, limit);
            &&& all.params == seq![
                SqlValue::Int(user_id as int),
                SqlValue::Int(limit as int),
                SqlValue::Int(offset as int),
            ]
            &&& changed.params == seq![
                SqlValue::Int(user_id as int),
                SqlValue::Time(since),
                SqlValue::Int(limit as int),
                SqlValue::Int(offset as int),
            ]
            &&& all.sql == select + " ORDER BY "@ + qualifier
                + "updated_at ASC LIMIT ? OFFSET ?"@
            &&& changed.sql == select + (" AND "@ + qualifier + "updated_at > ?"@) + " ORDER BY "@
                + qualifier + "updated_at ASC LIMIT ? OFFSET ?"@
        }),
{
    reveal_strlit("");
    let all = page(select, qualifier, user_id, None, offset, limit);
    assert(all.params =~= seq![
        SqlValue::Int(user_id as int),
        SqlValue::Int(limit as int),
        SqlValue::Int(offset as int),
    ]);
    assert(page(select, qualifier, user_id, Some(since), offset, limit).params =~= seq![
        SqlValue::Int(user_id as int),
        SqlValue::Time(since),
        SqlValue::Int(limit as int),
        SqlValue::Int(offset as int),
    ]);
    assert(select + ""@ =~= select);
}

// ---------------------------------------------------------------------------
// Values
// ---------------------------------------------------------------------------

/// A value that fits in fewer bits is kept, and any other becomes the nearest that fits.
pub proof fn a_narrow_value_is_the_nearest(n: i64)
    ensures
        -0x8000_0000 <= n <= 0x7fff_ffff ==> narrowed(n) == n,
        n > 0x7fff_ffff ==> narrowed(n) == 0x7fff_ffff,
        n < -0x8000_0000 ==> narrowed(n) == -0x8000_0000,
        0 <= n <= 0xffff_ffff ==> narrowed_unsigned(n) == n,
        n > 0xffff_ffff ==> narrowed_unsigned(n) == 0xffff_ffff,
        n < 0 ==> narrowed_unsigned(n) == 0,
{
}

/// A value is bound as it is, a flag as one or zero, and one that is missing as `NULL`.
pub proof fn values_are_bound_as_they_are(
    n: i64,
    text: String,
    bytes: Seq<u8>,
)
    ensures
        int_value(Some(n)) == SqlValue::Int(n as int),
        int_value(None) == SqlValue::Null,
        text_value(Some(text)) == SqlValue::Text(text@),
        text_value(None) == SqlValue::Null,
        blob_value(Some(bytes)) == SqlValue::Blob(bytes),
        blob_value(None) == SqlValue::Null,
        flag_value(true) == SqlValue::Int(1),
        flag_value(false) == SqlValue::Int(0),
{
}

/// A blob of up to 4096 bytes stands in its column and a longer one does not; an output
/// without a purpose is change, and one without a provider is the user's own.
pub proof fn values_are_written_as_they_are(
    data: Seq<u8>,
    purpose: Option<String>,
    provider: Seq<char>,
    bytes: Option<Vec<u8>>,
)
    ensures
        data.len() <= 4096 ==> inline_bytes(Some(data)) == Some(data) && !overflows(Some(data)),
        data.len() > 4096 ==> inline_bytes(Some(data)) is None && overflows(Some(data)),
        inline_bytes(None) is None,
        !overflows(None),
        purpose matches Some(p) ==> purpose_text(purpose) == p@,
        purpose is None ==> purpose_text(purpose) == "change"@,
        provider.len() > 0 ==> provided_by_text(provider) == provider,
        provider.len() == 0 ==> provided_by_text(provider) == "you"@,
        bytes matches Some(b) ==> bytes_or_none(bytes) == b@,
        bytes is None ==> bytes_or_none(bytes).len() == 0,
{
}

/// Whether a value is that of a column, or another where the column is `NULL`.
pub open spec fn is_or<T>(value: T, column: Option<T>, other: T) -> bool {
    match column {
        Some(v) => value == v,
        None => value == other,
    }
}

/// Whether a text is that of a column, or another where the column is `NULL`.
pub open spec fn text_is_or(text: Seq<char>, column: Option<String>, other: Seq<char>) -> bool {
    match column {
        Some(t) => text == t@,
        None => text == other,
    }
}

/// Whether a value is the nearest to that of a column, or another where the column is `NULL`.
pub open spec fn small_is_or(value: i32, column: Option<i64>, other: i32) -> bool {
    match column {
        Some(n) => if n > 0x7fff_ffff {
            value == 0x7fff_ffff
        } else if n < -0x8000_0000 {
            value == -0x8000_0000
        } else {
            value == n
        },
        None => value == other,
    }
}

/// Whether bytes are those of a blob, or none where there is none.
pub open spec fn bytes_are_or_none(bytes: Seq<u8>, blob: Option<Vec<u8>>) -> bool {
    match blob {
        Some(b) => bytes == b@,
        None => bytes == Seq::<u8>::empty(),
    }
}

// ---------------------------------------------------------------------------
// Rows
// ---------------------------------------------------------------------------

/// Baskets, labels and tags are read column by column.
pub proof fn rows_of_a_user_are_read(
    b: TableOutputBasket,
    br: BasketSyncRow,
    l: TableTxLabel,
    lr: TxLabelSyncRow,
    t: TableOutputTag,
    tr: OutputTagSyncRow,
    user_id: i64,
)
    ensures
        is_basket_of(b, br, user_id) <==> {
            &&& is_or(b.basket_id, br.basket_id, 0)
            &&& is_or(b.user_id, br.user_id, user_id)
            &&& text_is_or(b.name@, br.name, ""@)
            &&& small_is_or(b.number_of_desired_utxos, br.number_of_desired_utxos, 6)
            &&& is_or(b.minimum_desired_utxo_value, br.minimum_desired_utxo_value, 10000)
            &&& b.created_at == br.created_at
            &&& b.updated_at == br.updated_at
        },
        is_tx_label_of(l, lr, user_id) <==> {
            &&& is_or(l.label_id, lr.tx_label_id, 0)
            &&& is_or(l.user_id, lr.user_id, user_id)
            &&& text_is_or(l.label@, lr.label, ""@)
            &&& l.created_at == lr.created_at
            &&& l.updated_at == lr.updated_at
        },
        is_output_tag_of(t, tr, user_id) <==> {
            &&& is_or(t.tag_id, tr.output_tag_id, 0)
            &&& is_or(t.user_id, tr.user_id, user_id)
            &&& text_is_or(t.tag@, tr.tag, ""@)
            &&& t.created_at == tr.created_at
            &&& t.updated_at == tr.updated_at
        },
{
}

/// Proofs and the requests for them are read column by column, with the blobs that were found.
pub proof fn proofs_are_read(
    p: TableProvenTx,
    pr: ProvenTxSyncRow,
    q: TableProvenTxReq,
    qr: ProvenTxReqSyncRow,
    a: Option<Vec<u8>>,
    b: Option<Vec<u8>>,
)
    ensures
        is_proven_tx_of(p, pr, a, b) <==> {
            &&& is_or(p.proven_tx_id, pr.proven_tx_id, 0)
            &&& text_is_or(p.txid@, pr.txid, ""@)
            &&& is_or(p.height, pr.height, 0)
            &&& is_or(p.index, pr.idx, 0)
            &&& text_is_or(p.block_hash@, pr.block_hash, ""@)
            &&& text_is_or(p.merkle_root@, pr.merkle_root, ""@)
            &&& bytes_are_or_none(p.merkle_path@, a)
            &&& bytes_are_or_none(p.raw_tx@, b)
            &&& p.created_at == pr.created_at
            &&& p.updated_at == pr.updated_at
        },
        is_proven_tx_req_of(q, qr, a, b) <==> {
            &&& is_or(q.proven_tx_req_id, qr.proven_tx_req_id, 0)
            &&& q.proven_tx_id == qr.proven_tx_id
            &&& text_is_or(q.txid@, qr.txid, ""@)
            &&& q.status == qr.status
            &&& small_is_or(q.attempts, qr.attempts, 0)
            &&& text_is_or(q.history@, qr.history, "{}"@)
            &&& is_or(q.notified, qr.notified, false)
            &&& text_is_or(q.notify@, qr.notify, "{}"@)
            &&& q.batch == qr.batch
            &&& q.raw_tx == a
            &&& q.input_beef == b
            &&& q.created_at == qr.created_at
            &&& q.updated_at == qr.updated_at
        },
{
}

/// Transactions are read column by column, with the blobs that were found.
pub proof fn transactions_are_read(
    t: TableTransaction,
    r: TransactionSyncRow,
    user_id: i64,
    a: Option<Vec<u8>>,
    b: Option<Vec<u8>>,
)
    ensures
        is_transaction_of(t, r, user_id, a, b) <==> {
            &&& is_or(t.transaction_id, r.transaction_id, 0)
            &&& is_or(t.user_id, r.user_id, user_id)
            &&& t.txid == r.txid
            &&& t.status == r.status
            &&& text_is_or(t.reference@, r.reference, ""@)
            &&& text_is_or(t.description@, r.description, ""@)
            &&& is_or(t.satoshis, r.satoshis, 0)
            &&& small_is_or(t.version, r.version, 0)
            &&& is_or(t.lock_time, r.lock_time, 0)
            &&& is_or(t.is_outgoing, r.is_outgoing, false)
            &&& t.proof_txid == r.proof_txid
            &&& t.raw_tx == a
            &&& t.input_beef == b
            &&& t.created_at == r.created_at
            &&& t.updated_at == r.updated_at
        },
{
}

/// Outputs are read column by column, with the blob that was found.
pub proof fn outputs_are_read(
    t: TableOutput,
    r: OutputSyncRow,
    user_id: i64,
    script: Option<Vec<u8>>,
)
    ensures
        is_output_of(t, r, user_id, script) <==> {
            &&& is_or(t.output_id, r.output_id, 0)
            &&& is_or(t.user_id, r.user_id, user_id)
            &&& is_or(t.transaction_id, r.transaction_id, 0)
            &&& t.basket_id == r.basket_id
            &&& text_is_or(t.txid@, r.txid, ""@)
            &&& small_is_or(t.vout, r.vout, 0)
            &&& is_or(t.satoshis, r.satoshis, 0)
            &&& small_is_or(t.script_length, r.script_length, 0)
            &&& small_is_or(t.script_offset, r.script_offset, 0)
            &&& text_is_or(t.output_type@, r.output_type, ""@)
            &&& text_is_or(t.provided_by@, r.provided_by, ""@)
            &&& t.purpose == r.purpose
            &&& t.output_description == r.output_description
            &&& t.spent_by == r.spent_by
            &&& t.spent_by_reference == r.spent_by_reference
            &&& match r.sequence_number {
                Some(n) => t.sequence_number matches Some(m) && m == if n < 0 {
                    0int
                } else if n > 0xffff_ffff {
                    0xffff_ffff
                } else {
                    n as int
                },
                None => t.sequence_number is None,
            }
            &&& t.spending_description == r.spending_description
            &&& is_or(t.spendable, r.spendable, false)
            &&& is_or(t.change, r.change, false)
            &&& t.derivation_prefix == r.derivation_prefix
            &&& t.derivation_suffix == r.derivation_suffix
            &&& t.sender_identity_key == r.sender_identity_key
            &&& t.custom_instructions == r.custom_instructions
            &&& t.basket_name is None
            &&& t.locking_script == script
            &&& t.created_at == r.created_at
            &&& t.updated_at == r.updated_at
        },
{
}

/// Labels on transactions and tags on outputs are read column by column.
pub proof fn links_are_read(
    l: TableTxLabelMap,
    lr: TxLabelMapSyncRow,
    t: TableOutputTagMap,
    tr: OutputTagMapSyncRow,
)
    ensures
        is_tx_label_map_of(l, lr) <==> {
            &&& is_or(l.tx_label_map_id, lr.tx_label_map_id, 0)
            &&& is_or(l.transaction_id, lr.transaction_id, 0)
            &&& is_or(l.label_id, lr.tx_label_id, 0)
            &&& l.created_at == lr.created_at
            &&& l.updated_at == lr.updated_at
        },
        is_output_tag_map_of(t, tr) <==> {
            &&& is_or(t.output_tag_map_id, tr.output_tag_map_id, 0)
            &&& is_or(t.output_id, tr.output_id, 0)
            &&& is_or(t.tag_id, tr.output_tag_id, 0)
            &&& t.created_at == tr.created_at
            &&& t.updated_at == tr.updated_at
        },
{
}

/// Certificates, their fields and commissions are read column by column.
pub proof fn certificates_and_commissions_are_read(
    c: TableCertificate,
    cr: CertificateSyncRow,
    f: TableCertificateField,
    fr: CertificateFieldSyncRow,
    m: TableCommission,
    mr: CommissionSyncRow,
    user_id: i64,
    script: Option<Vec<u8>>,
)
    ensures
        is_certificate_of(c, cr, user_id) <==> {
            &&& is_or(c.certificate_id, cr.certificate_id, 0)
            &&& is_or(c.user_id, cr.user_id, user_id)
            &&& text_is_or(c.cert_type@, cr.cert_type, ""@)
            &&& text_is_or(c.serial_number@, cr.serial_number, ""@)
            &&& text_is_or(c.certifier@, cr.certifier, ""@)
            &&& text_is_or(c.subject@, cr.subject, ""@)
            &&& c.verifier == cr.verifier
            &&& text_is_or(c.revocation_outpoint@, cr.revocation_outpoint, ""@)
            &&& text_is_or(c.signature@, cr.signature, ""@)
            &&& c.created_at == cr.created_at
            &&& c.updated_at == cr.updated_at
        },
        is_certificate_field_of(f, fr, user_id) <==> {
            &&& is_or(f.certificate_field_id, fr.certificate_field_id, 0)
            &&& is_or(f.certificate_id, fr.certificate_id, 0)
            &&& is_or(f.user_id, fr.user_id, user_id)
            &&& text_is_or(f.field_name@, fr.field_name, ""@)
            &&& text_is_or(f.field_value@, fr.field_value, ""@)
            &&& text_is_or(f.master_key@, fr.master_key, ""@)
            &&& f.created_at == fr.created_at
            &&& f.updated_at == fr.updated_at
        },
        is_commission_of(m, mr, user_id, script) <==> {
            &&& is_or(m.commission_id, mr.commission_id, 0)
            &&& is_or(m.user_id, mr.user_id, user_id)
            &&& is_or(m.transaction_id, mr.transaction_id, 0)
            &&& is_or(m.satoshis, mr.satoshis, 0)
            &&& text_is_or(m.key_offset@, mr.key_offset, ""@)
            &&& is_or(m.is_redeemed, mr.is_redeemed, false)
            &&& bytes_are_or_none(m.payer_locking_script@, script)
            &&& m.created_at == mr.created_at
            &&& m.updated_at == mr.updated_at
        },
{
}

} // verus!
