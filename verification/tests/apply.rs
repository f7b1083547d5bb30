//! The batched merge of a chunk.

use wallet_infra::entities::{
    TableCertificate,
    TableCertificateField,
    TableCommission,
    TableOutput,
    TableOutputBasket,
    TableOutputTag,
    TableOutputTagMap,
    TableProvenTx,
    TableProvenTxReq,
    TableTransaction,
    TableTxLabel,
    TableTxLabelMap,
    TableUser,
};
use wallet_infra::error::Error;
use wallet_infra::sql::query::Param;
use wallet_infra::storage::apply::{
    chunk_is_empty, vec_is_empty, Batch, BlobColumn, EmptyRow, Phase, Progress,
};
use wallet_infra::storage::lookup::KeyedId;
use wallet_infra::storage::store::StorageD1;
use wallet_infra::time::Timestamp;
use wallet_infra::types::{ProcessSyncChunkResult, RequestSyncChunkArgs, SyncChunk};

fn at(seconds: i64) -> Timestamp {
    Timestamp { seconds, nanos: 0 }
}

fn text(s: &str) -> Option<String> {
    Some(s.to_string())
}

fn basket() -> TableOutputBasket {
    TableOutputBasket {
        basket_id: 7,
        user_id: 99,
        name: "default".to_string(),
        number_of_desired_utxos: 6,
        minimum_desired_utxo_value: 10000,
        created_at: at(1),
        updated_at: at(2),
    }
}

fn proven_tx() -> TableProvenTx {
    TableProvenTx {
        proven_tx_id: 3,
        txid: "aa".to_string(),
        height: 800000,
        index: 4,
        block_hash: "bh".to_string(),
        merkle_root: "mr".to_string(),
        merkle_path: vec![1, 2],
        raw_tx: vec![3, 4, 5],
        created_at: at(1),
        updated_at: at(2),
    }
}

fn proven_tx_req() -> TableProvenTxReq {
    TableProvenTxReq {
        proven_tx_req_id: 5,
        txid: "aa".to_string(),
        status: "unmined".to_string(),
        attempts: 2,
        history: "{}".to_string(),
        notified: true,
        notify: "{\"a\":1}".to_string(),
        raw_tx: Some(vec![9]),
        input_beef: Some(vec![8; 4096]),
        proven_tx_id: Some(3),
        batch: None,
        created_at: at(1),
        updated_at: at(2),
    }
}

fn tx_label() -> TableTxLabel {
    TableTxLabel {
        label_id: 11,
        user_id: 99,
        label: "rent".to_string(),
        created_at: at(1),
        updated_at: at(2),
    }
}

fn output_tag() -> TableOutputTag {
    TableOutputTag {
        tag_id: 12,
        user_id: 99,
        tag: "coin".to_string(),
        created_at: at(1),
        updated_at: at(2),
    }
}

fn transaction() -> TableTransaction {
    TableTransaction {
        transaction_id: 21,
        user_id: 99,
        txid: text("bb"),
        status: "completed".to_string(),
        reference: "ref".to_string(),
        description: "pay".to_string(),
        satoshis: -5,
        version: 1,
        lock_time: 0,
        raw_tx: Some(vec![1; 4097]),
        input_beef: None,
        is_outgoing: true,
        proof_txid: text("aa"),
        created_at: at(1),
        updated_at: at(2),
    }
}

fn output() -> TableOutput {
    TableOutput {
        output_id: 31,
        user_id: 99,
        transaction_id: 21,
        basket_id: Some(7),
        basket_name: text("default"),
        txid: "bb".to_string(),
        vout: 1,
        satoshis: 1000,
        locking_script: Some(vec![0x76]),
        script_length: 1,
        script_offset: 9,
        output_type: "P2PKH".to_string(),
        provided_by: "".to_string(),
        purpose: None,
        output_description: None,
        spent_by: Some(21),
        spent_by_reference: text("ref"),
        sequence_number: None,
        spending_description: None,
        spendable: true,
        change: false,
        derivation_prefix: text("p"),
        derivation_suffix: None,
        sender_identity_key: None,
        custom_instructions: text("ci"),
        created_at: at(1),
        updated_at: at(2),
    }
}

fn certificate() -> TableCertificate {
    TableCertificate {
        certificate_id: 41,
        user_id: 99,
        cert_type: "ct".to_string(),
        serial_number: "sn".to_string(),
        certifier: "cf".to_string(),
        subject: "sj".to_string(),
        verifier: None,
        revocation_outpoint: "ro".to_string(),
        signature: "sg".to_string(),
        created_at: at(1),
        updated_at: at(2),
    }
}

fn certificate_field() -> TableCertificateField {
    TableCertificateField {
        certificate_field_id: 42,
        certificate_id: 41,
        user_id: 99,
        field_name: "fn".to_string(),
        field_value: "fv".to_string(),
        master_key: "mk".to_string(),
        created_at: at(1),
        updated_at: at(2),
    }
}

fn commission() -> TableCommission {
    TableCommission {
        commission_id: 51,
        user_id: 99,
        transaction_id: 21,
        satoshis: 12,
        payer_locking_script: vec![5],
        key_offset: "ko".to_string(),
        is_redeemed: false,
        created_at: at(1),
        updated_at: at(2),
    }
}

fn tx_label_map() -> TableTxLabelMap {
    TableTxLabelMap {
        tx_label_map_id: 61,
        transaction_id: 21,
        label_id: 11,
        created_at: at(1),
        updated_at: at(2),
    }
}

fn output_tag_map() -> TableOutputTagMap {
    TableOutputTagMap {
        output_tag_map_id: 62,
        output_id: 31,
        tag_id: 12,
        created_at: at(1),
        updated_at: at(2),
    }
}

fn user() -> TableUser {
    TableUser {
        user_id: 99,
        identity_key: "02ab".to_string(),
        active_storage: text("store"),
        created_at: at(1),
        updated_at: at(9),
    }
}

fn args(identity_key: &str) -> RequestSyncChunkArgs {
    RequestSyncChunkArgs {
        from_storage_identity_key: "from".to_string(),
        to_storage_identity_key: "to".to_string(),
        identity_key: identity_key.to_string(),
        since: None,
        max_rough_size: 1000,
        max_items: 10,
        offsets: vec![],
    }
}

fn nothing() -> SyncChunk {
    SyncChunk {
        from_storage_identity_key: "from".to_string(),
        to_storage_identity_key: "to".to_string(),
        user_identity_key: "02ab".to_string(),
        user: None,
        output_baskets: None,
        proven_txs: None,
        proven_tx_reqs: None,
        tx_labels: None,
        output_tags: None,
        transactions: None,
        outputs: None,
        tx_label_maps: None,
        output_tag_maps: None,
        certificates: None,
        certificate_fields: None,
        commissions: None,
    }
}

fn everything() -> SyncChunk {
    SyncChunk {
        user: Some(user()),
        output_baskets: Some(vec![basket()]),
        proven_txs: Some(vec![proven_tx()]),
        proven_tx_reqs: Some(vec![proven_tx_req()]),
        tx_labels: Some(vec![tx_label()]),
        output_tags: Some(vec![output_tag()]),
        transactions: Some(vec![transaction()]),
        outputs: Some(vec![output()]),
        tx_label_maps: Some(vec![tx_label_map()]),
        output_tag_maps: Some(vec![output_tag_map()]),
        certificates: Some(vec![certificate()]),
        certificate_fields: Some(vec![certificate_field()]),
        commissions: Some(vec![commission()]),
        ..nothing()
    }
}

fn begin(chunk: SyncChunk) -> Progress {
    StorageD1::process_sync_chunk(1, args("02ab"), chunk).unwrap()
}

fn keyed(key: &str, id: i64) -> KeyedId {
    KeyedId { key: text(key), id: Some(id) }
}

fn batch(step: Progress, phase: Phase) -> Batch {
    match step {
        Progress::RunUpserts { batch } => {
            assert_eq!(batch.phase, phase);
            batch
        }
        other => panic!("unexpected step {other:?}"),
    }
}

/// Goes on where no row with an empty column is there.
fn none_empty(step: Progress, wanted: BlobColumn) -> Progress {
    match step {
        Progress::FindEmpty { apply, column, .. } => {
            assert_eq!(column, wanted);
            apply.after_empty(column, vec![])
        }
        other => panic!("unexpected step {other:?}"),
    }
}

fn outcome(step: Progress) -> ProcessSyncChunkResult {
    match step {
        Progress::Done { result } => result,
        other => panic!("unexpected step {other:?}"),
    }
}

#[test]
fn a_chunk_of_another_user_is_refused() {
    assert_eq!(
        StorageD1::process_sync_chunk(1, args("02ff"), nothing()),
        Err(Error::ValidationError(
            "processSyncChunk: chunk user identity key 02ab does not match args identity key 02ff"
                .to_string()
        ))
    );
}

#[test]
fn an_empty_chunk_is_done() {
    assert!(chunk_is_empty(&nothing()));
    assert!(!chunk_is_empty(&everything()));
    assert!(vec_is_empty(&Some(Vec::<u8>::new())));
    assert!(!vec_is_empty(&Some(vec![1u8])));
    let result = outcome(begin(SyncChunk { outputs: Some(vec![]), ..nothing() }));
    assert_eq!(
        result,
        ProcessSyncChunkResult {
            done: true,
            max_updated_at: None,
            updates: 0,
            inserts: 0,
            error: None
        }
    );
}

#[test]
fn the_user_record_comes_first() {
    for (updated, updates) in [(true, 1), (false, 0)] {
        match begin(SyncChunk { user: Some(user()), ..nothing() }) {
            Progress::MergeUser { apply } => {
                let result = outcome(apply.after_user(updated));
                assert!(result.done);
                assert_eq!(result.updates, updates);
                assert_eq!(result.max_updated_at, Some(at(9)));
            }
            other => panic!("unexpected step {other:?}"),
        }
    }
}

#[test]
fn a_whole_chunk_goes_through_its_phases() {
    let step = match begin(everything()) {
        Progress::MergeUser { apply } => apply.after_user(true),
        other => panic!("unexpected step {other:?}"),
    };
    let step = batch(step, Phase::Baskets).after_ids(vec![107]);
    let step = none_empty(step, BlobColumn::RequestBeef);
    let step = match batch(step, Phase::ProvenTxReqs).after_ids(vec![105]) {
        Progress::RunUpserts { batch } => Progress::RunUpserts { batch },
        other => panic!("unexpected step {other:?}"),
    };
    let step = batch(step, Phase::ProvenTxs).after_ids(vec![103]);
    let step = batch(step, Phase::TxLabels).after_ids(vec![111]);
    let step = batch(step, Phase::OutputTags).after_ids(vec![112]);
    let step = batch(step, Phase::Certificates).after_ids(vec![141]);
    let step = match step {
        Progress::LoadProofs { apply, queries } => {
            assert_eq!(queries.len(), 1);
            assert_eq!(queries[0].params, vec![Param::Text("aa".to_string())]);
            apply.after_proofs(vec![keyed("aa", 103)])
        }
        other => panic!("unexpected step {other:?}"),
    };
    let transactions = batch(step, Phase::Transactions);
    assert_eq!(transactions.entries[0].query.params[9], Param::Int(103));
    let step = match transactions.after_ids(vec![121]) {
        Progress::PutBlobs { blobs } => {
            assert_eq!(blobs.writes.len(), 1);
            assert_eq!(blobs.writes[0].table, "transactions");
            assert_eq!(blobs.writes[0].id, 121);
            assert_eq!(blobs.writes[0].column, "raw_tx");
            assert_eq!(blobs.writes[0].bytes.len(), 4097);
            assert!(!blobs.writes[0].also_updated);
            blobs.after_fills()
        }
        other => panic!("unexpected step {other:?}"),
    };
    let step = match step {
        Progress::LoadTxids { apply, queries } => {
            assert_eq!(queries.len(), 1);
            assert_eq!(queries[0].params, vec![Param::Int(1), Param::Text("bb".to_string())]);
            apply.after_txids(vec![keyed("bb", 999)])
        }
        other => panic!("unexpected step {other:?}"),
    };
    let step = match step {
        Progress::LoadBasketNames { apply, query } => {
            assert_eq!(query.params, vec![Param::Int(1)]);
            apply.after_basket_names(vec![keyed("default", 998)])
        }
        other => panic!("unexpected step {other:?}"),
    };
    let step = match step {
        Progress::LoadSpends { apply, queries } => {
            assert_eq!(queries.len(), 1);
            assert_eq!(queries[0].params, vec![Param::Int(1), Param::Text("ref".to_string())]);
            apply.after_spends(vec![keyed("ref", 997)])
        }
        other => panic!("unexpected step {other:?}"),
    };
    let step = none_empty(step, BlobColumn::LockingScript);
    let outputs = batch(step, Phase::Outputs);
    assert_eq!(outputs.entries[0].query.params[1], Param::Int(121));
    assert_eq!(outputs.entries[0].query.params[2], Param::Int(107));
    assert_eq!(outputs.entries[0].query.params[18], Param::Int(121));
    let fields = batch(outputs.after_ids(vec![131]), Phase::CertificateFields);
    assert_eq!(fields.entries[0].query.params[1], Param::Int(141));
    let labels = batch(fields.after_ids(vec![142]), Phase::TxLabelMaps);
    assert_eq!(labels.entries[0].query.params[..2], [Param::Int(111), Param::Int(121)]);
    let tags = batch(labels.after_ids(vec![161]), Phase::OutputTagMaps);
    assert_eq!(tags.entries[0].query.params[..2], [Param::Int(112), Param::Int(131)]);
    let commissions = batch(tags.after_ids(vec![162]), Phase::Commissions);
    assert_eq!(commissions.entries[0].query.params[1], Param::Int(121));
    assert_eq!(
        outcome(commissions.after_ids(vec![151])),
        ProcessSyncChunkResult {
            done: false,
            max_updated_at: Some(at(9)),
            updates: 1,
            inserts: 12,
            error: None
        }
    );
}

#[test]
fn an_output_of_an_earlier_chunk_finds_its_parents() {
    let step = begin(SyncChunk { outputs: Some(vec![output()]), ..nothing() });
    let step = match step {
        Progress::LoadTxids { apply, .. } => apply.after_txids(vec![keyed("bb", 70)]),
        other => panic!("unexpected step {other:?}"),
    };
    let step = match step {
        Progress::LoadBasketNames { apply, .. } => {
            apply.after_basket_names(vec![keyed("other", 1), keyed("default", 71)])
        }
        other => panic!("unexpected step {other:?}"),
    };
    let step = match step {
        Progress::LoadSpends { apply, .. } => apply.after_spends(vec![keyed("ref", 77)]),
        other => panic!("unexpected step {other:?}"),
    };
    let step = none_empty(step, BlobColumn::LockingScript);
    let outputs = batch(step, Phase::Outputs);
    assert_eq!(outputs.entries[0].query.params[1], Param::Int(70));
    assert_eq!(outputs.entries[0].query.params[2], Param::Int(71));
    assert_eq!(outputs.entries[0].query.params[18], Param::Int(77));
    let result = outcome(outputs.after_ids(vec![131]));
    assert_eq!(result.inserts, 1);
    assert_eq!(result.max_updated_at, Some(at(2)));
}

#[test]
fn an_orphan_is_left_out() {
    let mut second = output();
    second.txid = "known".to_string();
    second.spent_by = None;
    second.spent_by_reference = None;
    second.basket_name = None;
    let mut first = output();
    first.spent_by_reference = None;
    let step = begin(SyncChunk { outputs: Some(vec![first, second]), ..nothing() });
    let step = match step {
        Progress::LoadTxids { apply, .. } => apply.after_txids(vec![keyed("known", 70)]),
        other => panic!("unexpected step {other:?}"),
    };
    let step = match step {
        Progress::LoadBasketNames { apply, .. } => apply.after_basket_names(vec![]),
        other => panic!("unexpected step {other:?}"),
    };
    let step = none_empty(step, BlobColumn::LockingScript);
    let outputs = batch(step, Phase::Outputs);
    assert_eq!(outputs.entries.len(), 1);
    assert_eq!(outputs.entries[0].query.params[1], Param::Int(70));
    assert_eq!(outputs.entries[0].query.params[2], Param::Null);
    assert_eq!(outputs.entries[0].query.params[18], Param::Null);
    assert_eq!(outcome(outputs.after_ids(vec![131])).inserts, 1);
}

#[test]
fn children_without_parents_are_left_out() {
    let chunk = SyncChunk {
        certificate_fields: Some(vec![certificate_field()]),
        tx_label_maps: Some(vec![tx_label_map()]),
        output_tag_maps: Some(vec![output_tag_map()]),
        commissions: Some(vec![commission()]),
        ..nothing()
    };
    let result = outcome(begin(chunk));
    assert!(!result.done);
    assert_eq!(result.inserts, 0);
    assert_eq!(result.max_updated_at, Some(at(2)));
}

#[test]
fn a_long_blob_of_a_request_is_put_afterwards() {
    let mut req = proven_tx_req();
    req.input_beef = Some(vec![8; 4097]);
    let step = begin(SyncChunk { proven_tx_reqs: Some(vec![req]), ..nothing() });
    match batch(step, Phase::ProvenTxReqs).after_ids(vec![105]) {
        Progress::PutBlobs { blobs } => {
            assert_eq!(blobs.writes[0].table, "proven_tx_reqs");
            assert_eq!(blobs.writes[0].column, "input_beef");
            assert_eq!(blobs.writes[0].updated_at, at(2));
            assert_eq!(outcome(blobs.after_fills()).inserts, 1);
        }
        other => panic!("unexpected step {other:?}"),
    }
}

#[test]
fn an_empty_list_of_outputs_still_reads_the_baskets() {
    let chunk = SyncChunk {
        outputs: Some(vec![]),
        tx_labels: Some(vec![tx_label()]),
        ..nothing()
    };
    let step = batch(begin(chunk), Phase::TxLabels).after_ids(vec![111]);
    assert!(matches!(step, Progress::LoadBasketNames { .. }));
}

#[test]
fn a_blob_in_the_object_store_is_not_filled_beside_it() {
    let mut there = transaction();
    there.proof_txid = None;
    there.raw_tx = Some(vec![1, 2]);
    there.input_beef = Some(vec![3]);
    let mut other = transaction();
    other.proof_txid = None;
    other.reference = "other".to_string();
    other.raw_tx = Some(vec![4]);
    other.input_beef = Some(vec![]);
    let step = begin(SyncChunk { transactions: Some(vec![there, other]), ..nothing() });
    let step = match step {
        Progress::FindEmpty { apply, column, queries } => {
            assert_eq!(column, BlobColumn::RawTx);
            assert_eq!(queries.len(), 1);
            assert_eq!(
                queries[0].sql,
                "SELECT reference AS k, transaction_id AS id FROM transactions WHERE (raw_tx IS \
                 NULL OR length(raw_tx) = 0) AND user_id = ? AND reference IN (?, ?)"
            );
            assert_eq!(
                queries[0].params,
                vec![
                    Param::Int(1),
                    Param::Text("other".to_string()),
                    Param::Text("ref".to_string())
                ]
            );
            apply.after_empty(column, vec![keyed("ref", 121), keyed("other", 122)])
        }
        other => panic!("unexpected step {other:?}"),
    };
    let step = match step {
        Progress::AskStore { asking } => {
            assert_eq!(asking.column.table_name(), "transactions");
            assert_eq!(asking.column.name(), "raw_tx");
            assert_eq!(
                asking.found,
                vec![
                    EmptyRow { key: "ref".to_string(), id: 121 },
                    EmptyRow { key: "other".to_string(), id: 122 },
                ]
            );
            asking.after_store(vec![true, false])
        }
        other => panic!("unexpected step {other:?}"),
    };
    let step = match step {
        Progress::FindEmpty { apply, column, queries } => {
            assert_eq!(column, BlobColumn::InputBeef);
            assert_eq!(
                queries[0].params,
                vec![Param::Int(1), Param::Text("ref".to_string())]
            );
            apply.after_empty(
                column,
                vec![KeyedId { key: text("ref"), id: None }, KeyedId { key: None, id: Some(1) }],
            )
        }
        other => panic!("unexpected step {other:?}"),
    };
    let transactions = batch(step, Phase::Transactions);
    assert_eq!(transactions.entries[0].query.params[10], Param::Null);
    assert_eq!(transactions.entries[0].query.params[11], Param::Blob(vec![3]));
    assert_eq!(transactions.entries[1].query.params[10], Param::Blob(vec![4]));
    assert_eq!(transactions.entries[1].query.params[11], Param::Blob(vec![]));
}

#[test]
fn an_answer_that_is_missing_withholds_the_blob() {
    let step = begin(SyncChunk { proven_tx_reqs: Some(vec![proven_tx_req()]), ..nothing() });
    let step = match step {
        Progress::FindEmpty { apply, column, queries } => {
            assert_eq!(
                queries[0].sql,
                "SELECT txid AS k, proven_tx_req_id AS id FROM proven_tx_reqs WHERE (input_beef \
                 IS NULL OR length(input_beef) = 0) AND txid IN (?)"
            );
            assert_eq!(queries[0].params, vec![Param::Text("aa".to_string())]);
            apply.after_empty(column, vec![keyed("aa", 105)])
        }
        other => panic!("unexpected step {other:?}"),
    };
    match step {
        Progress::AskStore { asking } => {
            assert_eq!(asking.column.table_name(), "proven_tx_reqs");
            assert_eq!(asking.column.name(), "input_beef");
            let requests = batch(asking.after_store(vec![]), Phase::ProvenTxReqs);
            assert_eq!(requests.entries[0].query.params[7], Param::Null);
            assert_eq!(requests.entries[0].query.params[6], Param::Blob(vec![9]));
        }
        other => panic!("unexpected step {other:?}"),
    }
}

#[test]
fn an_output_is_asked_for_by_its_place_in_its_transaction() {
    let mut one = output();
    one.spent_by_reference = None;
    let step = begin(SyncChunk { outputs: Some(vec![one]), ..nothing() });
    let step = match step {
        Progress::LoadTxids { apply, .. } => apply.after_txids(vec![keyed("bb", 70)]),
        other => panic!("unexpected step {other:?}"),
    };
    let step = match step {
        Progress::LoadBasketNames { apply, .. } => apply.after_basket_names(vec![]),
        other => panic!("unexpected step {other:?}"),
    };
    let step = match step {
        Progress::FindEmpty { apply, column, queries } => {
            assert_eq!(
                queries[0].sql,
                "SELECT transaction_id || ':' || vout AS k, output_id AS id FROM outputs WHERE \
                 (locking_script IS NULL OR length(locking_script) = 0) AND user_id = ? AND \
                 transaction_id || ':' || vout IN (?)"
            );
            assert_eq!(
                queries[0].params,
                vec![Param::Int(1), Param::Text("70:1".to_string())]
            );
            apply.after_empty(column, vec![keyed("70:1", 131)])
        }
        other => panic!("unexpected step {other:?}"),
    };
    let outputs = match step {
        Progress::AskStore { asking } => {
            assert_eq!(asking.column.table_name(), "outputs");
            assert_eq!(asking.column.name(), "locking_script");
            batch(asking.after_store(vec![true]), Phase::Outputs)
        }
        other => panic!("unexpected step {other:?}"),
    };
    assert_eq!(outputs.entries[0].query.params[6], Param::Null);
    assert_eq!(outputs.entries[0].query.params[7], Param::Int(1));
}
