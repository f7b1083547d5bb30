//! The statements of the batched merge.

use wallet_infra::entities::{
    TableCertificate,
    TableCertificateField,
    TableCommission,
    TableOutput,
    TableOutputBasket,
    TableOutputTag,
    TableProvenTx,
    TableProvenTxReq,
    TableTransaction,
    TableTxLabel,
};
use wallet_infra::sql::query::Param;
use wallet_infra::storage::upsert::{
    build_upsert_basket,
    build_upsert_certificate,
    build_upsert_certificate_field,
    build_upsert_commission,
    build_upsert_output,
    build_upsert_output_tag,
    build_upsert_output_tag_map,
    build_upsert_proven_tx,
    build_upsert_proven_tx_req,
    build_upsert_transaction,
    build_upsert_tx_label,
    build_upsert_tx_label_map,
    inline_blob_bind,
    nw,
    nw_blob,
};
use wallet_infra::time::Timestamp;

fn at(seconds: i64) -> Timestamp {
    Timestamp { seconds, nanos: 0 }
}

fn text(s: &str) -> Option<String> {
    Some(s.to_string())
}

fn basket() -> TableOutputBasket {
    TableOutputBasket {
        basket_id: 7,
        user_id: 99,
        name: "default".to_string(),
        number_of_desired_utxos: 6,
        minimum_desired_utxo_value: 10000,
        created_at: at(1),
        updated_at: at(2),
    }
}

fn proven_tx() -> TableProvenTx {
    TableProvenTx {
        proven_tx_id: 3,
        txid: "aa".to_string(),
        height: 800000,
        index: 4,
        block_hash: "bh".to_string(),
        merkle_root: "mr".to_string(),
        merkle_path: vec![1, 2],
        raw_tx: vec![3, 4, 5],
        created_at: at(1),
        updated_at: at(2),
    }
}

fn proven_tx_req() -> TableProvenTxReq {
    TableProvenTxReq {
        proven_tx_req_id: 5,
        txid: "aa".to_string(),
        status: "unmined".to_string(),
        attempts: 2,
        history: "{}".to_string(),
        notified: true,
        notify: "{\"a\":1}".to_string(),
        raw_tx: Some(vec![9]),
        input_beef: Some(vec![8; 4096]),
        proven_tx_id: Some(3),
        batch: None,
        created_at: at(1),
        updated_at: at(2),
    }
}

fn tx_label() -> TableTxLabel {
    TableTxLabel {
        label_id: 11,
        user_id: 99,
        label: "rent".to_string(),
        created_at: at(1),
        updated_at: at(2),
    }
}

fn output_tag() -> TableOutputTag {
    TableOutputTag {
        tag_id: 12,
        user_id: 99,
        tag: "coin".to_string(),
        created_at: at(1),
        updated_at: at(2),
    }
}

fn transaction() -> TableTransaction {
    TableTransaction {
        transaction_id: 21,
        user_id: 99,
        txid: text("bb"),
        status: "completed".to_string(),
        reference: "ref".to_string(),
        description: "pay".to_string(),
        satoshis: -5,
        version: 1,
        lock_time: 0,
        raw_tx: Some(vec![1; 4097]),
        input_beef: None,
        is_outgoing: true,
        proof_txid: text("aa"),
        created_at: at(1),
        updated_at: at(2),
    }
}

fn output() -> TableOutput {
    TableOutput {
        output_id: 31,
        user_id: 99,
        transaction_id: 21,
        basket_id: Some(7),
        basket_name: text("default"),
        txid: "bb".to_string(),
        vout: 1,
        satoshis: 1000,
        locking_script: Some(vec![0x76]),
        script_length: 1,
        script_offset: 9,
        output_type: "P2PKH".to_string(),
        provided_by: "".to_string(),
        purpose: None,
        output_description: None,
        spent_by: Some(21),
        spent_by_reference: text("ref"),
        sequence_number: None,
        spending_description: None,
        spendable: true,
        change: false,
        derivation_prefix: text("p"),
        derivation_suffix: None,
        sender_identity_key: None,
        custom_instructions: text("ci"),
        created_at: at(1),
        updated_at: at(2),
    }
}

fn certificate() -> TableCertificate {
    TableCertificate {
        certificate_id: 41,
        user_id: 99,
        cert_type: "ct".to_string(),
        serial_number: "sn".to_string(),
        certifier: "cf".to_string(),
        subject: "sj".to_string(),
        verifier: None,
        revocation_outpoint: "ro".to_string(),
        signature: "sg".to_string(),
        created_at: at(1),
        updated_at: at(2),
    }
}

fn certificate_field() -> TableCertificateField {
    TableCertificateField {
        certificate_field_id: 42,
        certificate_id: 41,
        user_id: 99,
        field_name: "fn".to_string(),
        field_value: "fv".to_string(),
        master_key: "mk".to_string(),
        created_at: at(1),
        updated_at: at(2),
    }
}

fn commission() -> TableCommission {
    TableCommission {
        commission_id: 51,
        user_id: 99,
        transaction_id: 21,
        satoshis: 12,
        payer_locking_script: vec![5],
        key_offset: "ko".to_string(),
        is_redeemed: false,
        created_at: at(1),
        updated_at: at(2),
    }
}

#[test]
fn upsert_basket_statement() {
    let q = build_upsert_basket(1, &basket());
    assert_eq!(
        q.sql,
        "INSERT INTO output_baskets (user_id, name, number_of_desired_utxos, minimum_desired_utxo_value, created_at, updated_at) VALUES (?, ?, ?, ?, ?, ?) ON CONFLICT(name, user_id) DO UPDATE SET number_of_desired_utxos = CASE WHEN excluded.updated_at > output_baskets.updated_at THEN excluded.number_of_desired_utxos ELSE output_baskets.number_of_desired_utxos END, minimum_desired_utxo_value = CASE WHEN excluded.updated_at > output_baskets.updated_at THEN excluded.minimum_desired_utxo_value ELSE output_baskets.minimum_desired_utxo_value END, updated_at = CASE WHEN excluded.updated_at > output_baskets.updated_at THEN excluded.updated_at ELSE output_baskets.updated_at END RETURNING basket_id AS id"
    );
    assert_eq!(
        q.params,
        vec![
            Param::Int(1),
            Param::Text("default".to_string()),
            Param::Int(6),
            Param::Int(10000),
            Param::Time(at(1)),
            Param::Time(at(2)),
        ]
    );
    assert_eq!(q.sql.matches('?').count(), q.params.len());
}

#[test]
fn upsert_proven_tx_statement() {
    let q = build_upsert_proven_tx(&proven_tx());
    assert_eq!(
        q.sql,
        "INSERT INTO proven_txs (txid, height, idx, block_hash, merkle_root, merkle_path, raw_tx, created_at, updated_at) VALUES (?, ?, ?, ?, ?, ?, ?, ?, ?) ON CONFLICT(txid) DO UPDATE SET height = CASE WHEN excluded.updated_at > proven_txs.updated_at THEN excluded.height ELSE proven_txs.height END, idx = CASE WHEN excluded.updated_at > proven_txs.updated_at THEN excluded.idx ELSE proven_txs.idx END, block_hash = CASE WHEN excluded.updated_at > proven_txs.updated_at THEN excluded.block_hash ELSE proven_txs.block_hash END, merkle_root = CASE WHEN excluded.updated_at > proven_txs.updated_at THEN excluded.merkle_root ELSE proven_txs.merkle_root END, merkle_path = CASE WHEN excluded.updated_at > proven_txs.updated_at THEN excluded.merkle_path ELSE proven_txs.merkle_path END, raw_tx = CASE WHEN excluded.updated_at > proven_txs.updated_at THEN excluded.raw_tx ELSE proven_txs.raw_tx END, updated_at = CASE WHEN excluded.updated_at > proven_txs.updated_at THEN excluded.updated_at ELSE proven_txs.updated_at END RETURNING proven_tx_id AS id"
    );
    assert_eq!(
        q.params,
        vec![
            Param::Text("aa".to_string()),
            Param::Int(800000),
            Param::Int(4),
            Param::Text("bh".to_string()),
            Param::Text("mr".to_string()),
            Param::Blob(vec![1, 2]),
            Param::Blob(vec![3, 4, 5]),
            Param::Time(at(1)),
            Param::Time(at(2)),
        ]
    );
    assert_eq!(q.sql.matches('?').count(), q.params.len());
}

#[test]
fn upsert_proven_tx_req_statement() {
    let q = build_upsert_proven_tx_req(&proven_tx_req());
    assert_eq!(
        q.sql,
        "INSERT INTO proven_tx_reqs (txid, status, attempts, history, notify, notified, raw_tx, input_beef, proven_tx_id, batch, created_at, updated_at) VALUES (?, ?, ?, ?, ?, ?, ?, ?, ?, ?, ?, ?) ON CONFLICT(txid) DO UPDATE SET status = CASE WHEN excluded.updated_at > proven_tx_reqs.updated_at THEN excluded.status ELSE proven_tx_reqs.status END, attempts = CASE WHEN excluded.updated_at > proven_tx_reqs.updated_at THEN excluded.attempts ELSE proven_tx_reqs.attempts END, history = CASE WHEN excluded.updated_at > proven_tx_reqs.updated_at THEN excluded.history ELSE proven_tx_reqs.history END, notified = CASE WHEN excluded.updated_at > proven_tx_reqs.updated_at THEN excluded.notified ELSE proven_tx_reqs.notified END, notify = CASE WHEN excluded.updated_at > proven_tx_reqs.updated_at THEN excluded.notify ELSE proven_tx_reqs.notify END, raw_tx = CASE WHEN excluded.updated_at > proven_tx_reqs.updated_at THEN excluded.raw_tx ELSE proven_tx_reqs.raw_tx END, input_beef = CASE WHEN (proven_tx_reqs.input_beef IS NULL OR length(proven_tx_reqs.input_beef)=0) AND excluded.updated_at > proven_tx_reqs.updated_at THEN excluded.input_beef ELSE proven_tx_reqs.input_beef END, proven_tx_id = CASE WHEN excluded.updated_at > proven_tx_reqs.updated_at THEN excluded.proven_tx_id ELSE proven_tx_reqs.proven_tx_id END, batch = CASE WHEN excluded.updated_at > proven_tx_reqs.updated_at THEN excluded.batch ELSE proven_tx_reqs.batch END, updated_at = CASE WHEN excluded.updated_at > proven_tx_reqs.updated_at THEN excluded.updated_at ELSE proven_tx_reqs.updated_at END RETURNING proven_tx_req_id AS id"
    );
    assert_eq!(
        q.params,
        vec![
            Param::Text("aa".to_string()),
            Param::Text("unmined".to_string()),
            Param::Int(2),
            Param::Text("{}".to_string()),
            Param::Text("{\"a\":1}".to_string()),
            Param::Int(1),
            Param::Blob(vec![9]),
            Param::Blob(vec![8; 4096]),
            Param::Int(3),
            Param::Null,
            Param::Time(at(1)),
            Param::Time(at(2)),
        ]
    );
    assert_eq!(q.sql.matches('?').count(), q.params.len());
}

#[test]
fn upsert_tx_label_statement() {
    let q = build_upsert_tx_label(1, &tx_label());
    assert_eq!(
        q.sql,
        "INSERT INTO tx_labels (user_id, label, created_at, updated_at) VALUES (?, ?, ?, ?) ON CONFLICT(label, user_id) DO UPDATE SET updated_at = CASE WHEN excluded.updated_at > tx_labels.updated_at THEN excluded.updated_at ELSE tx_labels.updated_at END RETURNING tx_label_id AS id"
    );
    assert_eq!(
        q.params,
        vec![
            Param::Int(1),
            Param::Text("rent".to_string()),
            Param::Time(at(1)),
            Param::Time(at(2)),
        ]
    );
    assert_eq!(q.sql.matches('?').count(), q.params.len());
}

#[test]
fn upsert_output_tag_statement() {
    let q = build_upsert_output_tag(1, &output_tag());
    assert_eq!(
        q.sql,
        "INSERT INTO output_tags (user_id, tag, created_at, updated_at) VALUES (?, ?, ?, ?) ON CONFLICT(tag, user_id) DO UPDATE SET updated_at = CASE WHEN excluded.updated_at > output_tags.updated_at THEN excluded.updated_at ELSE output_tags.updated_at END RETURNING output_tag_id AS id"
    );
    assert_eq!(
        q.params,
        vec![
            Param::Int(1),
            Param::Text("coin".to_string()),
            Param::Time(at(1)),
            Param::Time(at(2)),
        ]
    );
    assert_eq!(q.sql.matches('?').count(), q.params.len());
}

#[test]
fn upsert_transaction_statement() {
    let q = build_upsert_transaction(1, &transaction(), Some(3));
    assert_eq!(
        q.sql,
        "INSERT INTO transactions (user_id, txid, status, reference, description, satoshis, version, lock_time, is_outgoing, proven_tx_id, raw_tx, input_beef, created_at, updated_at) VALUES (?, ?, ?, ?, ?, ?, ?, ?, ?, ?, ?, ?, ?, ?) ON CONFLICT(reference) DO UPDATE SET txid = CASE WHEN excluded.updated_at > transactions.updated_at THEN excluded.txid ELSE transactions.txid END, status = CASE WHEN excluded.updated_at > transactions.updated_at THEN excluded.status ELSE transactions.status END, description = CASE WHEN excluded.updated_at > transactions.updated_at THEN excluded.description ELSE transactions.description END, satoshis = CASE WHEN excluded.updated_at > transactions.updated_at THEN excluded.satoshis ELSE transactions.satoshis END, version = CASE WHEN excluded.updated_at > transactions.updated_at THEN excluded.version ELSE transactions.version END, lock_time = CASE WHEN excluded.updated_at > transactions.updated_at THEN excluded.lock_time ELSE transactions.lock_time END, is_outgoing = CASE WHEN excluded.updated_at > transactions.updated_at THEN excluded.is_outgoing ELSE transactions.is_outgoing END, raw_tx = CASE WHEN (transactions.raw_tx IS NULL OR length(transactions.raw_tx)=0) AND excluded.updated_at > transactions.updated_at THEN excluded.raw_tx ELSE transactions.raw_tx END, input_beef = CASE WHEN (transactions.input_beef IS NULL OR length(transactions.input_beef)=0) AND excluded.updated_at > transactions.updated_at THEN excluded.input_beef ELSE transactions.input_beef END, proven_tx_id = CASE WHEN excluded.updated_at > transactions.updated_at AND excluded.proven_tx_id IS NOT NULL THEN excluded.proven_tx_id ELSE transactions.proven_tx_id END, updated_at = CASE WHEN excluded.updated_at > transactions.updated_at THEN excluded.updated_at ELSE transactions.updated_at END WHERE transactions.user_id = excluded.user_id RETURNING transaction_id AS id"
    );
    assert_eq!(
        q.params,
        vec![
            Param::Int(1),
            Param::Text("bb".to_string()),
            Param::Text("completed".to_string()),
            Param::Text("ref".to_string()),
            Param::Text("pay".to_string()),
            Param::Int(-5),
            Param::Int(1),
            Param::Int(0),
            Param::Int(1),
            Param::Int(3),
            Param::Null,
            Param::Null,
            Param::Time(at(1)),
            Param::Time(at(2)),
        ]
    );
    assert_eq!(q.sql.matches('?').count(), q.params.len());
}

#[test]
fn upsert_output_statement() {
    let q = build_upsert_output(1, &output(), 70, Some(71), None);
    assert_eq!(
        q.sql,
        "INSERT INTO outputs (user_id, transaction_id, basket_id, txid, vout, satoshis, locking_script, script_length, script_offset, type, provided_by, purpose, spendable, change, derivation_prefix, derivation_suffix, sender_identity_key, custom_instructions, spent_by, created_at, updated_at) VALUES (?, ?, ?, ?, ?, ?, ?, ?, ?, ?, ?, ?, ?, ?, ?, ?, ?, ?, ?, ?, ?) ON CONFLICT(transaction_id, vout, user_id) DO UPDATE SET locking_script = CASE WHEN (outputs.locking_script IS NULL OR length(outputs.locking_script)=0) AND excluded.updated_at > outputs.updated_at THEN excluded.locking_script ELSE outputs.locking_script END, transaction_id = CASE WHEN excluded.updated_at > outputs.updated_at THEN excluded.transaction_id ELSE outputs.transaction_id END, basket_id = CASE WHEN outputs.basket_id = (SELECT basket_id FROM output_baskets WHERE user_id = outputs.user_id AND name = 'default') THEN outputs.basket_id WHEN excluded.updated_at > outputs.updated_at THEN excluded.basket_id ELSE outputs.basket_id END, satoshis = CASE WHEN outputs.satoshis = 0 AND excluded.updated_at > outputs.updated_at THEN excluded.satoshis ELSE outputs.satoshis END, script_length = CASE WHEN (outputs.locking_script IS NULL OR length(outputs.locking_script)=0) AND excluded.updated_at > outputs.updated_at THEN excluded.script_length ELSE outputs.script_length END, script_offset = CASE WHEN (outputs.locking_script IS NULL OR length(outputs.locking_script)=0) AND excluded.updated_at > outputs.updated_at THEN excluded.script_offset ELSE outputs.script_offset END, type = CASE WHEN excluded.updated_at > outputs.updated_at THEN excluded.type ELSE outputs.type END, spent_by = CASE WHEN outputs.spent_by IS NULL THEN excluded.spent_by ELSE outputs.spent_by END, spendable = CASE WHEN outputs.spent_by IS NOT NULL THEN 0 WHEN excluded.spent_by IS NOT NULL THEN 0 WHEN outputs.spendable = 1 THEN 1 WHEN excluded.updated_at > outputs.updated_at THEN excluded.spendable ELSE outputs.spendable END, change = CASE WHEN outputs.change = 1 THEN 1 WHEN excluded.updated_at > outputs.updated_at THEN excluded.change ELSE outputs.change END, derivation_prefix = CASE WHEN outputs.derivation_prefix IS NULL AND excluded.updated_at > outputs.updated_at THEN excluded.derivation_prefix ELSE outputs.derivation_prefix END, derivation_suffix = CASE WHEN outputs.derivation_suffix IS NULL AND excluded.updated_at > outputs.updated_at THEN excluded.derivation_suffix ELSE outputs.derivation_suffix END, sender_identity_key = CASE WHEN excluded.updated_at > outputs.updated_at THEN excluded.sender_identity_key ELSE outputs.sender_identity_key END, custom_instructions = CASE WHEN excluded.updated_at > outputs.updated_at THEN excluded.custom_instructions ELSE outputs.custom_instructions END, updated_at = CASE WHEN excluded.updated_at > outputs.updated_at THEN excluded.updated_at ELSE outputs.updated_at END RETURNING output_id AS id"
    );
    assert_eq!(
        q.params,
        vec![
            Param::Int(1),
            Param::Int(70),
            Param::Int(71),
            Param::Text("bb".to_string()),
            Param::Int(1),
            Param::Int(1000),
            Param::Blob(vec![0x76]),
            Param::Int(1),
            Param::Int(9),
            Param::Text("P2PKH".to_string()),
            Param::Text("you".to_string()),
            Param::Text("change".to_string()),
            Param::Int(1),
            Param::Int(0),
            Param::Text("p".to_string()),
            Param::Null,
            Param::Null,
            Param::Text("ci".to_string()),
            Param::Null,
            Param::Time(at(1)),
            Param::Time(at(2)),
        ]
    );
    assert_eq!(q.sql.matches('?').count(), q.params.len());
}

#[test]
fn upsert_tx_label_map_statement() {
    let q = build_upsert_tx_label_map(70, 80, at(2), at(1));
    assert_eq!(
        q.sql,
        "INSERT INTO tx_labels_map (tx_label_id, transaction_id, is_deleted, created_at, updated_at) VALUES (?, ?, 0, ?, ?) ON CONFLICT(tx_label_id, transaction_id) DO UPDATE SET is_deleted = CASE WHEN excluded.updated_at > tx_labels_map.updated_at THEN 0 ELSE tx_labels_map.is_deleted END, updated_at = CASE WHEN excluded.updated_at > tx_labels_map.updated_at THEN excluded.updated_at ELSE tx_labels_map.updated_at END RETURNING tx_label_map_id AS id"
    );
    assert_eq!(
        q.params,
        vec![
            Param::Int(80),
            Param::Int(70),
            Param::Time(at(1)),
            Param::Time(at(2)),
        ]
    );
    assert_eq!(q.sql.matches('?').count(), q.params.len());
}

#[test]
fn upsert_output_tag_map_statement() {
    let q = build_upsert_output_tag_map(90, 91, at(2), at(1));
    assert_eq!(
        q.sql,
        "INSERT INTO output_tags_map (output_tag_id, output_id, is_deleted, created_at, updated_at) VALUES (?, ?, 0, ?, ?) ON CONFLICT(output_tag_id, output_id) DO UPDATE SET is_deleted = CASE WHEN excluded.updated_at > output_tags_map.updated_at THEN 0 ELSE output_tags_map.is_deleted END, updated_at = CASE WHEN excluded.updated_at > output_tags_map.updated_at THEN excluded.updated_at ELSE output_tags_map.updated_at END RETURNING output_tag_map_id AS id"
    );
    assert_eq!(
        q.params,
        vec![
            Param::Int(91),
            Param::Int(90),
            Param::Time(at(1)),
            Param::Time(at(2)),
        ]
    );
    assert_eq!(q.sql.matches('?').count(), q.params.len());
}

#[test]
fn upsert_certificate_statement() {
    let q = build_upsert_certificate(1, &certificate());
    assert_eq!(
        q.sql,
        "INSERT INTO certificates (user_id, serial_number, type, certifier, subject, verifier, revocation_outpoint, signature, created_at, updated_at) VALUES (?, ?, ?, ?, ?, ?, ?, ?, ?, ?) ON CONFLICT(user_id, type, certifier, serial_number) DO UPDATE SET subject = CASE WHEN excluded.updated_at > certificates.updated_at THEN excluded.subject ELSE certificates.subject END, verifier = CASE WHEN excluded.updated_at > certificates.updated_at THEN excluded.verifier ELSE certificates.verifier END, revocation_outpoint = CASE WHEN excluded.updated_at > certificates.updated_at THEN excluded.revocation_outpoint ELSE certificates.revocation_outpoint END, signature = CASE WHEN excluded.updated_at > certificates.updated_at THEN excluded.signature ELSE certificates.signature END, updated_at = CASE WHEN excluded.updated_at > certificates.updated_at THEN excluded.updated_at ELSE certificates.updated_at END RETURNING certificate_id AS id"
    );
    assert_eq!(
        q.params,
        vec![
            Param::Int(1),
            Param::Text("sn".to_string()),
            Param::Text("ct".to_string()),
            Param::Text("cf".to_string()),
            Param::Text("sj".to_string()),
            Param::Null,
            Param::Text("ro".to_string()),
            Param::Text("sg".to_string()),
            Param::Time(at(1)),
            Param::Time(at(2)),
        ]
    );
    assert_eq!(q.sql.matches('?').count(), q.params.len());
}

#[test]
fn upsert_certificate_field_statement() {
    let q = build_upsert_certificate_field(1, &certificate_field(), 60);
    assert_eq!(
        q.sql,
        "INSERT INTO certificate_fields (user_id, certificate_id, field_name, field_value, master_key, created_at, updated_at) VALUES (?, ?, ?, ?, ?, ?, ?) ON CONFLICT(field_name, certificate_id) DO UPDATE SET field_value = CASE WHEN excluded.updated_at > certificate_fields.updated_at THEN excluded.field_value ELSE certificate_fields.field_value END, master_key = CASE WHEN excluded.updated_at > certificate_fields.updated_at THEN excluded.master_key ELSE certificate_fields.master_key END, updated_at = CASE WHEN excluded.updated_at > certificate_fields.updated_at THEN excluded.updated_at ELSE certificate_fields.updated_at END RETURNING certificate_field_id AS id"
    );
    assert_eq!(
        q.params,
        vec![
            Param::Int(1),
            Param::Int(60),
            Param::Text("fn".to_string()),
            Param::Text("fv".to_string()),
            Param::Text("mk".to_string()),
            Param::Time(at(1)),
            Param::Time(at(2)),
        ]
    );
    assert_eq!(q.sql.matches('?').count(), q.params.len());
}

#[test]
fn upsert_commission_statement() {
    let q = build_upsert_commission(1, &commission(), 70);
    assert_eq!(
        q.sql,
        "INSERT INTO commissions (user_id, transaction_id, satoshis, key_offset, is_redeemed, locking_script, created_at, updated_at) VALUES (?, ?, ?, ?, ?, ?, ?, ?) ON CONFLICT(transaction_id) DO UPDATE SET satoshis = CASE WHEN excluded.updated_at > commissions.updated_at THEN excluded.satoshis ELSE commissions.satoshis END, key_offset = CASE WHEN excluded.updated_at > commissions.updated_at THEN excluded.key_offset ELSE commissions.key_offset END, is_redeemed = CASE WHEN excluded.updated_at > commissions.updated_at THEN excluded.is_redeemed ELSE commissions.is_redeemed END, locking_script = CASE WHEN excluded.updated_at > commissions.updated_at THEN excluded.locking_script ELSE commissions.locking_script END, updated_at = CASE WHEN excluded.updated_at > commissions.updated_at THEN excluded.updated_at ELSE commissions.updated_at END RETURNING commission_id AS id"
    );
    assert_eq!(
        q.params,
        vec![
            Param::Int(1),
            Param::Int(70),
            Param::Int(12),
            Param::Text("ko".to_string()),
            Param::Int(0),
            Param::Blob(vec![5]),
            Param::Time(at(1)),
            Param::Time(at(2)),
        ]
    );
    assert_eq!(q.sql.matches('?').count(), q.params.len());
}

#[test]
fn nw_writes_one_assignment() {
    assert_eq!(
        nw("t", "c"),
        "c = CASE WHEN excluded.updated_at > t.updated_at THEN excluded.c ELSE t.c END"
    );
}

#[test]
fn nw_blob_fills_only_an_empty_column() {
    assert_eq!(
        nw_blob("outputs", "locking_script"),
        "locking_script = CASE WHEN (outputs.locking_script IS NULL OR \
         length(outputs.locking_script)=0) AND excluded.updated_at > outputs.updated_at \
         THEN excluded.locking_script ELSE outputs.locking_script END"
    );
}

#[test]
fn inline_blob_bind_keeps_the_bytes() {
    assert_eq!(inline_blob_bind(Some(&[1, 2, 3])), Some(vec![1, 2, 3]));
    assert_eq!(inline_blob_bind(Some(&[])), Some(vec![]));
}

#[test]
fn a_spend_that_is_known_is_bound() {
    let mut o = output();
    o.provided_by = "storage".to_string();
    o.purpose = text("service");
    let q = build_upsert_output(1, &o, 70, None, Some(77));
    assert_eq!(q.params[2], Param::Null);
    assert_eq!(q.params[10], Param::Text("storage".to_string()));
    assert_eq!(q.params[11], Param::Text("service".to_string()));
    assert_eq!(q.params[18], Param::Int(77));
}

#[test]
fn a_request_without_bytes_binds_an_empty_blob() {
    let mut req = proven_tx_req();
    req.raw_tx = None;
    req.input_beef = Some(vec![7; 4097]);
    let q = build_upsert_proven_tx_req(&req);
    assert_eq!(q.params[6], Param::Blob(vec![]));
    assert_eq!(q.params[7], Param::Null);
}
