//! What a sync exchange carries.

use crate::entities::{
    TableCertificate, TableCertificateField, TableCommission, TableOutput, TableOutputBasket,
    TableOutputTag, TableOutputTagMap, TableProvenTx, TableProvenTxReq, TableTransaction,
    TableTxLabel, TableTxLabelMap, TableUser,
};
use crate::time::Timestamp;
use vstd::prelude::*;

verus! {

/// The identity that a request was authenticated as.
#[derive(Debug, PartialEq, Eq)]
pub struct AuthId {
    pub identity_key: String,
}

/// How many rows of an entity the caller already has.
#[derive(Debug, PartialEq, Eq)]
pub struct SyncOffset {
    pub name: String,
    pub offset: u32,
}

/// A request for a chunk, or the request that a received chunk answers.
#[derive(Debug, PartialEq, Eq)]
pub struct RequestSyncChunkArgs {
    pub from_storage_identity_key: String,
    pub to_storage_identity_key: String,
    pub identity_key: String,
    pub since: Option<Timestamp>,
    pub max_rough_size: u32,
    pub max_items: u32,
    pub offsets: Vec<SyncOffset>,
}

/// A chunk of a user's data. An entity that the chunk does not carry is `None`.
#[derive(Debug, PartialEq, Eq)]
pub struct SyncChunk {
    pub from_storage_identity_key: String,
    pub to_storage_identity_key: String,
    pub user_identity_key: String,
    pub user: Option<TableUser>,
    pub output_baskets: Option<Vec<TableOutputBasket>>,
    pub proven_txs: Option<Vec<TableProvenTx>>,
    pub proven_tx_reqs: Option<Vec<TableProvenTxReq>>,
    pub tx_labels: Option<Vec<TableTxLabel>>,
    pub output_tags: Option<Vec<TableOutputTag>>,
    pub transactions: Option<Vec<TableTransaction>>,
    pub outputs: Option<Vec<TableOutput>>,
    pub tx_label_maps: Option<Vec<TableTxLabelMap>>,
    pub output_tag_maps: Option<Vec<TableOutputTagMap>>,
    pub certificates: Option<Vec<TableCertificate>>,
    pub certificate_fields: Option<Vec<TableCertificateField>>,
    pub commissions: Option<Vec<TableCommission>>,
}

/// The answer to a received chunk.
#[derive(Debug, PartialEq, Eq)]
pub struct ProcessSyncChunkResult {
    pub done: bool,
    pub max_updated_at: Option<Timestamp>,
    pub updates: u32,
    pub inserts: u32,
    pub error: Option<String>,
}

} // verus!
