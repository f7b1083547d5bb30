//! The tables and columns of the store.

use vstd::prelude::*;

verus! {

/// A table of the store.
#[derive(Clone, Copy, Debug, PartialEq, Eq, Structural)]
pub enum Table {
    OutputBaskets,
    ProvenTxs,
    ProvenTxReqs,
    TxLabels,
    OutputTags,
    Transactions,
    Outputs,
    TxLabelsMap,
    OutputTagsMap,
    Certificates,
    CertificateFields,
    Commissions,
}

impl Table {
    /// The name of the table in SQL.
    pub open spec fn text(self) -> Seq<char> {
        match self {
            Table::OutputBaskets => "output_baskets"@,
            Table::ProvenTxs => "proven_txs"@,
            Table::ProvenTxReqs => "proven_tx_reqs"@,
            Table::TxLabels => "tx_labels"@,
            Table::OutputTags => "output_tags"@,
            Table::Transactions => "transactions"@,
            Table::Outputs => "outputs"@,
            Table::TxLabelsMap => "tx_labels_map"@,
            Table::OutputTagsMap => "output_tags_map"@,
            Table::Certificates => "certificates"@,
            Table::CertificateFields => "certificate_fields"@,
            Table::Commissions => "commissions"@,
        }
    }

    /// The name of the table in SQL.
    pub fn name(&self) -> (name: &'static str)
        ensures
            name@ == self.text(),
    {
        match self {
            Table::OutputBaskets => "output_baskets",
            Table::ProvenTxs => "proven_txs",
            Table::ProvenTxReqs => "proven_tx_reqs",
            Table::TxLabels => "tx_labels",
            Table::OutputTags => "output_tags",
            Table::Transactions => "transactions",
            Table::Outputs => "outputs",
            Table::TxLabelsMap => "tx_labels_map",
            Table::OutputTagsMap => "output_tags_map",
            Table::Certificates => "certificates",
            Table::CertificateFields => "certificate_fields",
            Table::Commissions => "commissions",
        }
    }
}

/// A column of a table of the store.
#[derive(Clone, Copy, Debug, PartialEq, Eq, Structural)]
pub enum Column {
    UserId,
    Name,
    NumberOfDesiredUtxos,
    MinimumDesiredUtxoValue,
    CreatedAt,
    UpdatedAt,
    BasketId,
    Txid,
    Height,
    Idx,
    BlockHash,
    MerkleRoot,
    MerklePath,
    RawTx,
    ProvenTxId,
    Status,
    Attempts,
    History,
    Notify,
    Notified,
    InputBeef,
    Batch,
    ProvenTxReqId,
    Label,
    TxLabelId,
    Tag,
    OutputTagId,
    Reference,
    Description,
    Satoshis,
    Version,
    LockTime,
    IsOutgoing,
    TransactionId,
    Vout,
    LockingScript,
    ScriptLength,
    ScriptOffset,
    Type,
    ProvidedBy,
    Purpose,
    Spendable,
    Change,
    DerivationPrefix,
    DerivationSuffix,
    SenderIdentityKey,
    CustomInstructions,
    SpentBy,
    OutputId,
    IsDeleted,
    TxLabelMapId,
    OutputTagMapId,
    SerialNumber,
    Certifier,
    Subject,
    Verifier,
    RevocationOutpoint,
    Signature,
    CertificateId,
    FieldName,
    FieldValue,
    MasterKey,
    CertificateFieldId,
    KeyOffset,
    IsRedeemed,
    CommissionId,
}

impl Column {
    /// The name of the column in SQL.
    pub open spec fn text(self) -> Seq<char> {
        match self {
            Column::UserId => "user_id"@,
            Column::Name => "name"@,
            Column::NumberOfDesiredUtxos => "number_of_desired_utxos"@,
            Column::MinimumDesiredUtxoValue => "minimum_desired_utxo_value"@,
            Column::CreatedAt => "created_at"@,
            Column::UpdatedAt => "updated_at"@,
            Column::BasketId => "basket_id"@,
            Column::Txid => "txid"@,
            Column::Height => "height"@,
            Column::Idx => "idx"@,
            Column::BlockHash => "block_hash"@,
            Column::MerkleRoot => "merkle_root"@,
            Column::MerklePath => "merkle_path"@,
            Column::RawTx => "raw_tx"@,
            Column::ProvenTxId => "proven_tx_id"@,
            Column::Status => "status"@,
            Column::Attempts => "attempts"@,
            Column::History => "history"@,
            Column::Notify => "notify"@,
            Column::Notified => "notified"@,
            Column::InputBeef => "input_beef"@,
            Column::Batch => "batch"@,
            Column::ProvenTxReqId => "proven_tx_req_id"@,
            Column::Label => "label"@,
            Column::TxLabelId => "tx_label_id"@,
            Column::Tag => "tag"@,
            Column::OutputTagId => "output_tag_id"@,
            Column::Reference => "reference"@,
            Column::Description => "description"@,
            Column::Satoshis => "satoshis"@,
            Column::Version => "version"@,
            Column::LockTime => "lock_time"@,
            Column::IsOutgoing => "is_outgoing"@,
            Column::TransactionId => "transaction_id"@,
            Column::Vout => "vout"@,
            Column::LockingScript => "locking_script"@,
            Column::ScriptLength => "script_length"@,
            Column::ScriptOffset => "script_offset"@,
            Column::Type => "type"@,
            Column::ProvidedBy => "provided_by"@,
            Column::Purpose => "purpose"@,
            Column::Spendable => "spendable"@,
            Column::Change => "change"@,
            Column::DerivationPrefix => "derivation_prefix"@,
            Column::DerivationSuffix => "derivation_suffix"@,
            Column::SenderIdentityKey => "sender_identity_key"@,
            Column::CustomInstructions => "custom_instructions"@,
            Column::SpentBy => "spent_by"@,
            Column::OutputId => "output_id"@,
            Column::IsDeleted => "is_deleted"@,
            Column::TxLabelMapId => "tx_label_map_id"@,
            Column::OutputTagMapId => "output_tag_map_id"@,
            Column::SerialNumber => "serial_number"@,
            Column::Certifier => "certifier"@,
            Column::Subject => "subject"@,
            Column::Verifier => "verifier"@,
            Column::RevocationOutpoint => "revocation_outpoint"@,
            Column::Signature => "signature"@,
            Column::CertificateId => "certificate_id"@,
            Column::FieldName => "field_name"@,
            Column::FieldValue => "field_value"@,
            Column::MasterKey => "master_key"@,
            Column::CertificateFieldId => "certificate_field_id"@,
            Column::KeyOffset => "key_offset"@,
            Column::IsRedeemed => "is_redeemed"@,
            Column::CommissionId => "commission_id"@,
        }
    }

    /// The name of the column in SQL.
    pub fn name(&self) -> (name: &'static str)
        ensures
            name@ == self.text(),
    {
        match self {
            Column::UserId => "user_id",
            Column::Name => "name",
            Column::NumberOfDesiredUtxos => "number_of_desired_utxos",
            Column::MinimumDesiredUtxoValue => "minimum_desired_utxo_value",
            Column::CreatedAt => "created_at",
            Column::UpdatedAt => "updated_at",
            Column::BasketId => "basket_id",
            Column::Txid => "txid",
            Column::Height => "height",
            Column::Idx => "idx",
            Column::BlockHash => "block_hash",
            Column::MerkleRoot => "merkle_root",
            Column::MerklePath => "merkle_path",
            Column::RawTx => "raw_tx",
            Column::ProvenTxId => "proven_tx_id",
            Column::Status => "status",
            Column::Attempts => "attempts",
            Column::History => "history",
            Column::Notify => "notify",
            Column::Notified => "notified",
            Column::InputBeef => "input_beef",
            Column::Batch => "batch",
            Column::ProvenTxReqId => "proven_tx_req_id",
            Column::Label => "label",
            Column::TxLabelId => "tx_label_id",
            Column::Tag => "tag",
            Column::OutputTagId => "output_tag_id",
            Column::Reference => "reference",
            Column::Description => "description",
            Column::Satoshis => "satoshis",
            Column::Version => "version",
            Column::LockTime => "lock_time",
            Column::IsOutgoing => "is_outgoing",
            Column::TransactionId => "transaction_id",
            Column::Vout => "vout",
            Column::LockingScript => "locking_script",
            Column::ScriptLength => "script_length",
            Column::ScriptOffset => "script_offset",
            Column::Type => "type",
            Column::ProvidedBy => "provided_by",
            Column::Purpose => "purpose",
            Column::Spendable => "spendable",
            Column::Change => "change",
            Column::DerivationPrefix => "derivation_prefix",
            Column::DerivationSuffix => "derivation_suffix",
            Column::SenderIdentityKey => "sender_identity_key",
            Column::CustomInstructions => "custom_instructions",
            Column::SpentBy => "spent_by",
            Column::OutputId => "output_id",
            Column::IsDeleted => "is_deleted",
            Column::TxLabelMapId => "tx_label_map_id",
            Column::OutputTagMapId => "output_tag_map_id",
            Column::SerialNumber => "serial_number",
            Column::Certifier => "certifier",
            Column::Subject => "subject",
            Column::Verifier => "verifier",
            Column::RevocationOutpoint => "revocation_outpoint",
            Column::Signature => "signature",
            Column::CertificateId => "certificate_id",
            Column::FieldName => "field_name",
            Column::FieldValue => "field_value",
            Column::MasterKey => "master_key",
            Column::CertificateFieldId => "certificate_field_id",
            Column::KeyOffset => "key_offset",
            Column::IsRedeemed => "is_redeemed",
            Column::CommissionId => "commission_id",
        }
    }
}

} // verus!
