//! The merge of a chunk row by row.

use wallet_infra::entities::{
    TableCertificate,
    TableCertificateField,
    TableCommission,
    TableOutput,
    TableOutputBasket,
    TableOutputTag,
    TableOutputTagMap,
    TableProvenTx,
    TableProvenTxReq,
    TableTransaction,
    TableTxLabel,
    TableTxLabelMap,
    TableUser,
};
use wallet_infra::error::Error;
use wallet_infra::sql::query::Param;
use wallet_infra::storage::apply_rows::{Rows, RowsStep};
use wallet_infra::storage::lookup::KeyedId;
use wallet_infra::storage::store::StorageD1;
use wallet_infra::storage::sync_row::{after_fills, Found, RowStep, SyncRow, UpsertResult};
use wallet_infra::time::Timestamp;
use wallet_infra::types::{ProcessSyncChunkResult, RequestSyncChunkArgs, SyncChunk};

fn at(seconds: i64) -> Timestamp {
    Timestamp { seconds, nanos: 0 }
}

fn text(s: &str) -> Option<String> {
    Some(s.to_string())
}

fn basket() -> TableOutputBasket {
    TableOutputBasket {
        basket_id: 7,
        user_id: 99,
        name: "default".to_string(),
        number_of_desired_utxos: 6,
        minimum_desired_utxo_value: 10000,
        created_at: at(1),
        updated_at: at(2),
    }
}

fn proven_tx() -> TableProvenTx {
    TableProvenTx {
        proven_tx_id: 3,
        txid: "aa".to_string(),
        height: 800000,
        index: 4,
        block_hash: "bh".to_string(),
        merkle_root: "mr".to_string(),
        merkle_path: vec![1, 2],
        raw_tx: vec![3, 4, 5],
        created_at: at(1),
        updated_at: at(2),
    }
}

fn proven_tx_req() -> TableProvenTxReq {
    TableProvenTxReq {
        proven_tx_req_id: 5,
        txid: "aa".to_string(),
        status: "unmined".to_string(),
        attempts: 2,
        history: "{}".to_string(),
        notified: true,
        notify: "{\"a\":1}".to_string(),
        raw_tx: Some(vec![9]),
        input_beef: Some(vec![8; 4096]),
        proven_tx_id: Some(3),
        batch: None,
        created_at: at(1),
        updated_at: at(2),
    }
}

fn tx_label() -> TableTxLabel {
    TableTxLabel {
        label_id: 11,
        user_id: 99,
        label: "rent".to_string(),
        created_at: at(1),
        updated_at: at(2),
    }
}

fn output_tag() -> TableOutputTag {
    TableOutputTag {
        tag_id: 12,
        user_id: 99,
        tag: "coin".to_string(),
        created_at: at(1),
        updated_at: at(2),
    }
}

fn transaction() -> TableTransaction {
    TableTransaction {
        transaction_id: 21,
        user_id: 99,
        txid: text("bb"),
        status: "completed".to_string(),
        reference: "ref".to_string(),
        description: "pay".to_string(),
        satoshis: -5,
        version: 1,
        lock_time: 0,
        raw_tx: Some(vec![1; 4097]),
        input_beef: None,
        is_outgoing: true,
        proof_txid: text("aa"),
        created_at: at(1),
        updated_at: at(2),
    }
}

fn output() -> TableOutput {
    TableOutput {
        output_id: 31,
        user_id: 99,
        transaction_id: 21,
        basket_id: Some(7),
        basket_name: text("default"),
        txid: "bb".to_string(),
        vout: 1,
        satoshis: 1000,
        locking_script: Some(vec![0x76]),
        script_length: 1,
        script_offset: 9,
        output_type: "P2PKH".to_string(),
        provided_by: "".to_string(),
        purpose: None,
        output_description: None,
        spent_by: Some(21),
        spent_by_reference: text("ref"),
        sequence_number: None,
        spending_description: None,
        spendable: true,
        change: false,
        derivation_prefix: text("p"),
        derivation_suffix: None,
        sender_identity_key: None,
        custom_instructions: text("ci"),
        created_at: at(1),
        updated_at: at(2),
    }
}

fn certificate() -> TableCertificate {
    TableCertificate {
        certificate_id: 41,
        user_id: 99,
        cert_type: "ct".to_string(),
        serial_number: "sn".to_string(),
        certifier: "cf".to_string(),
        subject: "sj".to_string(),
        verifier: None,
        revocation_outpoint: "ro".to_string(),
        signature: "sg".to_string(),
        created_at: at(1),
        updated_at: at(2),
    }
}

fn certificate_field() -> TableCertificateField {
    TableCertificateField {
        certificate_field_id: 42,
        certificate_id: 41,
        user_id: 99,
        field_name: "fn".to_string(),
        field_value: "fv".to_string(),
        master_key: "mk".to_string(),
        created_at: at(1),
        updated_at: at(2),
    }
}

fn commission() -> TableCommission {
    TableCommission {
        commission_id: 51,
        user_id: 99,
        transaction_id: 21,
        satoshis: 12,
        payer_locking_script: vec![5],
        key_offset: "ko".to_string(),
        is_redeemed: false,
        created_at: at(1),
        updated_at: at(2),
    }
}

fn tx_label_map() -> TableTxLabelMap {
    TableTxLabelMap {
        tx_label_map_id: 61,
        transaction_id: 21,
        label_id: 11,
        created_at: at(1),
        updated_at: at(2),
    }
}

fn output_tag_map() -> TableOutputTagMap {
    TableOutputTagMap {
        output_tag_map_id: 62,
        output_id: 31,
        tag_id: 12,
        created_at: at(1),
        updated_at: at(2),
    }
}

fn user() -> TableUser {
    TableUser {
        user_id: 99,
        identity_key: "02ab".to_string(),
        active_storage: text("store"),
        created_at: at(1),
        updated_at: at(9),
    }
}

fn args(identity_key: &str) -> RequestSyncChunkArgs {
    RequestSyncChunkArgs {
        from_storage_identity_key: "from".to_string(),
        to_storage_identity_key: "to".to_string(),
        identity_key: identity_key.to_string(),
        since: None,
        max_rough_size: 1000,
        max_items: 10,
        offsets: vec![],
    }
}

fn nothing() -> SyncChunk {
    SyncChunk {
        from_storage_identity_key: "from".to_string(),
        to_storage_identity_key: "to".to_string(),
        user_identity_key: "02ab".to_string(),
        user: None,
        output_baskets: None,
        proven_txs: None,
        proven_tx_reqs: None,
        tx_labels: None,
        output_tags: None,
        transactions: None,
        outputs: None,
        tx_label_maps: None,
        output_tag_maps: None,
        certificates: None,
        certificate_fields: None,
        commissions: None,
    }
}

fn everything() -> SyncChunk {
    SyncChunk {
        user: Some(user()),
        output_baskets: Some(vec![basket()]),
        proven_txs: Some(vec![proven_tx()]),
        proven_tx_reqs: Some(vec![proven_tx_req()]),
        tx_labels: Some(vec![tx_label()]),
        output_tags: Some(vec![output_tag()]),
        transactions: Some(vec![transaction()]),
        outputs: Some(vec![output()]),
        tx_label_maps: Some(vec![tx_label_map()]),
        output_tag_maps: Some(vec![output_tag_map()]),
        certificates: Some(vec![certificate()]),
        certificate_fields: Some(vec![certificate_field()]),
        commissions: Some(vec![commission()]),
        ..nothing()
    }
}

fn begin(chunk: SyncChunk) -> RowsStep {
    StorageD1::process_sync_chunk_legacy(1, args("02ab"), chunk).unwrap()
}

fn rows(step: RowsStep) -> Rows {
    match step {
        RowsStep::Upsert { rows } => rows,
        other => panic!("unexpected step {other:?}"),
    }
}

fn new(local_id: i64) -> UpsertResult {
    UpsertResult { local_id, is_new: true }
}

#[test]
fn another_user_is_refused_row_by_row() {
    assert_eq!(
        StorageD1::process_sync_chunk_legacy(1, args("02ff"), nothing()),
        Err(Error::ValidationError(
            "processSyncChunk: chunk user identity key 02ab does not match args identity key 02ff"
                .to_string()
        ))
    );
}

#[test]
fn nothing_is_done_at_once() {
    match begin(nothing()) {
        RowsStep::Done { result } => assert!(result.done),
        other => panic!("unexpected step {other:?}"),
    }
}

#[test]
fn a_whole_chunk_is_merged_row_by_row() {
    let mut step = match begin(everything()) {
        RowsStep::MergeUser { rows } => rows.after_user(true),
        other => panic!("unexpected step {other:?}"),
    };
    let mut id = 100;
    let mut order: Vec<&str> = vec![];
    let result = loop {
        step = match step {
            RowsStep::LoadBasketNames { rows, query } => {
                assert_eq!(query.params, vec![Param::Int(1)]);
                order.push("names");
                rows.after_basket_names(vec![KeyedId { key: text("default"), id: Some(998) }])
            }
            RowsStep::Upsert { rows } => {
                order.push(match rows.current().unwrap() {
                    SyncRow::Basket { .. } => "basket",
                    SyncRow::ProvenTxReq { .. } => "req",
                    SyncRow::ProvenTx { .. } => "proven",
                    SyncRow::TxLabel { .. } => "label",
                    SyncRow::OutputTag { .. } => "tag",
                    SyncRow::Transaction { .. } => "tx",
                    SyncRow::Output { tx_id, basket_id, .. } => {
                        assert_eq!(tx_id, 105);
                        assert_eq!(basket_id, Some(100));
                        "output"
                    }
                    SyncRow::TxLabelMap { tx_id, label_id, .. } => {
                        assert_eq!((tx_id, label_id), (105, 103));
                        "label map"
                    }
                    SyncRow::OutputTagMap { output_id, tag_id, .. } => {
                        assert_eq!((output_id, tag_id), (106, 104));
                        "tag map"
                    }
                    SyncRow::Certificate { .. } => "certificate",
                    SyncRow::CertificateField { cert_id, .. } => {
                        assert_eq!(cert_id, 109);
                        "field"
                    }
                    SyncRow::Commission { tx_id, .. } => {
                        assert_eq!(tx_id, 105);
                        "commission"
                    }
                });
                id += 1;
                rows.after_row(UpsertResult { local_id: id - 1, is_new: id % 2 == 0 })
            }
            RowsStep::Done { result } => break result,
            other => panic!("unexpected step {other:?}"),
        };
    };
    assert_eq!(
        order,
        vec![
            "basket",
            "req",
            "proven",
            "label",
            "tag",
            "tx",
            "names",
            "output",
            "label map",
            "tag map",
            "certificate",
            "field",
            "commission",
        ]
    );
    assert_eq!(
        result,
        ProcessSyncChunkResult {
            done: false,
            max_updated_at: Some(at(9)),
            updates: 7,
            inserts: 6,
            error: None
        }
    );
}

#[test]
fn an_output_falls_back_on_its_own_transaction_id_and_basket_name() {
    let step = match begin(SyncChunk { outputs: Some(vec![output()]), ..nothing() }) {
        RowsStep::LoadBasketNames { rows, .. } => {
            rows.after_basket_names(vec![KeyedId { key: text("default"), id: Some(71) }])
        }
        other => panic!("unexpected step {other:?}"),
    };
    match rows(step).current() {
        Some(SyncRow::Output { tx_id, basket_id, .. }) => {
            assert_eq!(tx_id, 21);
            assert_eq!(basket_id, Some(71));
        }
        other => panic!("unexpected row {other:?}"),
    };
}

#[test]
fn rows_without_parents_are_skipped() {
    let chunk = SyncChunk {
        tx_label_maps: Some(vec![tx_label_map()]),
        certificate_fields: Some(vec![certificate_field()]),
        commissions: Some(vec![commission()]),
        tx_labels: Some(vec![tx_label()]),
        ..nothing()
    };
    match rows(begin(chunk)).after_row(new(5)) {
        RowsStep::Done { result } => {
            assert_eq!(result.inserts, 1);
            assert_eq!(result.max_updated_at, Some(at(2)));
        }
        other => panic!("unexpected step {other:?}"),
    }
}

#[test]
fn a_row_is_looked_up_first() {
    let b = basket();
    let row = SyncRow::Basket { user_id: 1, row: &b };
    match row.start() {
        RowStep::Lookup { query } => {
            assert_eq!(query.params, vec![Param::Int(1), Param::Text("default".to_string())]);
        }
        other => panic!("unexpected step {other:?}"),
    }
    match row.after_lookup(None) {
        RowStep::Insert { query } => assert!(query.sql.starts_with("INSERT INTO output_baskets")),
        other => panic!("unexpected step {other:?}"),
    }
    assert_eq!(row.after_insert(5), RowStep::Done { result: new(5) });
}

#[test]
fn only_an_older_row_is_updated() {
    let b = basket();
    let row = SyncRow::Basket { user_id: 1, row: &b };
    match row.after_lookup(Some(Found { id: Some(5), updated_at: at(1) })) {
        RowStep::Update { query, local_id } => {
            assert_eq!(local_id, 5);
            assert_eq!(query.params[3], Param::Int(5));
        }
        other => panic!("unexpected step {other:?}"),
    }
    let old = UpsertResult { local_id: 5, is_new: false };
    assert_eq!(row.after_update(5, None), RowStep::Done { result: old });
    for t in [2, 3] {
        let old = UpsertResult { local_id: 5, is_new: false };
        assert_eq!(
            row.after_lookup(Some(Found { id: Some(5), updated_at: at(t) })),
            RowStep::Done { result: old }
        );
    }
    assert_eq!(
        row.after_lookup(Some(Found { id: None, updated_at: at(3) })),
        RowStep::Done { result: UpsertResult { local_id: 0, is_new: false } }
    );
}

#[test]
fn a_transaction_finds_its_proof() {
    let t = transaction();
    let row = SyncRow::Transaction { user_id: 1, row: &t };
    match row.after_lookup(None) {
        RowStep::FindProof { query } => {
            assert_eq!(query.params, vec![Param::Text("aa".to_string())]);
        }
        other => panic!("unexpected step {other:?}"),
    }
    match row.after_proof(None, Some(3)) {
        RowStep::Insert { query } => assert_eq!(query.params[9], Param::Int(3)),
        other => panic!("unexpected step {other:?}"),
    }
    match row.after_insert(21) {
        RowStep::PutBlobs { writes, link, result } => {
            assert_eq!(writes.len(), 1);
            assert_eq!(writes[0].column, "raw_tx");
            assert!(!writes[0].also_updated);
            assert_eq!(link, None);
            assert_eq!(result, new(21));
        }
        other => panic!("unexpected step {other:?}"),
    }
    match row.after_update(21, Some(3)) {
        RowStep::PutBlobs { link, result, .. } => {
            let old = UpsertResult { local_id: 21, is_new: false };
            assert_eq!(result, old);
            match after_fills(link, result) {
                RowStep::Link { query, .. } => {
                    assert_eq!(query.params, vec![Param::Int(3), Param::Int(21)]);
                }
                other => panic!("unexpected step {other:?}"),
            }
        }
        other => panic!("unexpected step {other:?}"),
    }
    assert_eq!(after_fills(None, new(21)), RowStep::Done { result: new(21) });
}
