//! The rows that stores exchange.

use crate::time::Timestamp;
use vstd::prelude::*;

verus! {

/// The record of a user.
#[derive(Debug, PartialEq, Eq)]
pub struct TableUser {
    pub user_id: i64,
    pub identity_key: String,
    pub active_storage: Option<String>,
    pub created_at: Timestamp,
    pub updated_at: Timestamp,
}

/// A basket that outputs are kept in.
#[derive(Debug, PartialEq, Eq)]
pub struct TableOutputBasket {
    pub basket_id: i64,
    pub user_id: i64,
    pub name: String,
    pub number_of_desired_utxos: i32,
    pub minimum_desired_utxo_value: i64,
    pub created_at: Timestamp,
    pub updated_at: Timestamp,
}

/// A transaction with its proof of inclusion in a block.
#[derive(Debug, PartialEq, Eq)]
pub struct TableProvenTx {
    pub proven_tx_id: i64,
    pub txid: String,
    pub height: i64,
    pub index: i64,
    pub block_hash: String,
    pub merkle_root: String,
    pub merkle_path: Vec<u8>,
    pub raw_tx: Vec<u8>,
    pub created_at: Timestamp,
    pub updated_at: Timestamp,
}

/// A transaction whose proof is being sought. The status is the text that the store keeps.
#[derive(Debug, PartialEq, Eq)]
pub struct TableProvenTxReq {
    pub proven_tx_req_id: i64,
    pub txid: String,
    pub status: String,
    pub attempts: i32,
    pub history: String,
    pub notified: bool,
    pub notify: String,
    pub raw_tx: Option<Vec<u8>>,
    pub input_beef: Option<Vec<u8>>,
    pub proven_tx_id: Option<i64>,
    pub batch: Option<String>,
    pub created_at: Timestamp,
    pub updated_at: Timestamp,
}

/// A label for transactions.
#[derive(Debug, PartialEq, Eq)]
pub struct TableTxLabel {
    pub label_id: i64,
    pub user_id: i64,
    pub label: String,
    pub created_at: Timestamp,
    pub updated_at: Timestamp,
}

/// A tag for outputs.
#[derive(Debug, PartialEq, Eq)]
pub struct TableOutputTag {
    pub tag_id: i64,
    pub user_id: i64,
    pub tag: String,
    pub created_at: Timestamp,
    pub updated_at: Timestamp,
}

/// A transaction of a user. The status is the text that the store keeps; the proof goes by
/// the txid of the proven transaction.
#[derive(Debug, PartialEq, Eq)]
pub struct TableTransaction {
    pub transaction_id: i64,
    pub user_id: i64,
    pub txid: Option<String>,
    pub status: String,
    pub reference: String,
    pub description: String,
    pub satoshis: i64,
    pub version: i32,
    pub lock_time: i64,
    pub raw_tx: Option<Vec<u8>>,
    pub input_beef: Option<Vec<u8>>,
    pub is_outgoing: bool,
    pub proof_txid: Option<String>,
    pub created_at: Timestamp,
    pub updated_at: Timestamp,
}

/// An output of a transaction. The basket and the spending transaction also go by what is
/// stable across stores: a name and a reference.
#[derive(Debug, PartialEq, Eq)]
pub struct TableOutput {
    pub output_id: i64,
    pub user_id: i64,
    pub transaction_id: i64,
    pub basket_id: Option<i64>,
    pub basket_name: Option<String>,
    pub txid: String,
    pub vout: i32,
    pub satoshis: i64,
    pub locking_script: Option<Vec<u8>>,
    pub script_length: i32,
    pub script_offset: i32,
    pub output_type: String,
    pub provided_by: String,
    pub purpose: Option<String>,
    pub output_description: Option<String>,
    pub spent_by: Option<i64>,
    pub spent_by_reference: Option<String>,
    pub sequence_number: Option<u32>,
    pub spending_description: Option<String>,
    pub spendable: bool,
    pub change: bool,
    pub derivation_prefix: Option<String>,
    pub derivation_suffix: Option<String>,
    pub sender_identity_key: Option<String>,
    pub custom_instructions: Option<String>,
    pub created_at: Timestamp,
    pub updated_at: Timestamp,
}

/// That a transaction carries a label.
#[derive(Debug, PartialEq, Eq)]
pub struct TableTxLabelMap {
    pub tx_label_map_id: i64,
    pub transaction_id: i64,
    pub label_id: i64,
    pub created_at: Timestamp,
    pub updated_at: Timestamp,
}

/// That an output carries a tag.
#[derive(Debug, PartialEq, Eq)]
pub struct TableOutputTagMap {
    pub output_tag_map_id: i64,
    pub output_id: i64,
    pub tag_id: i64,
    pub created_at: Timestamp,
    pub updated_at: Timestamp,
}

/// A certificate of a user.
#[derive(Debug, PartialEq, Eq)]
pub struct TableCertificate {
    pub certificate_id: i64,
    pub user_id: i64,
    pub cert_type: String,
    pub serial_number: String,
    pub certifier: String,
    pub subject: String,
    pub verifier: Option<String>,
    pub revocation_outpoint: String,
    pub signature: String,
    pub created_at: Timestamp,
    pub updated_at: Timestamp,
}

/// A field of a certificate.
#[derive(Debug, PartialEq, Eq)]
pub struct TableCertificateField {
    pub certificate_field_id: i64,
    pub certificate_id: i64,
    pub user_id: i64,
    pub field_name: String,
    pub field_value: String,
    pub master_key: String,
    pub created_at: Timestamp,
    pub updated_at: Timestamp,
}

/// A commission on a transaction.
#[derive(Debug, PartialEq, Eq)]
pub struct TableCommission {
    pub commission_id: i64,
    pub user_id: i64,
    pub transaction_id: i64,
    pub satoshis: i64,
    pub payer_locking_script: Vec<u8>,
    pub key_offset: String,
    pub is_redeemed: bool,
    pub created_at: Timestamp,
    pub updated_at: Timestamp,
}

} // verus!
