//! The statements of the merge row by row.

use wallet_infra::entities::{
    TableCertificate,
    TableCertificateField,
    TableCommission,
    TableOutput,
    TableOutputBasket,
    TableOutputTag,
    TableProvenTx,
    TableProvenTxReq,
    TableTransaction,
    TableTxLabel,
};
use wallet_infra::sql::query::Param;
use wallet_infra::storage::sequential::{
    insert_basket,
    lookup_basket,
    update_basket,
    insert_certificate,
    lookup_certificate,
    update_certificate,
    insert_certificate_field,
    lookup_certificate_field,
    update_certificate_field,
    insert_commission,
    lookup_commission,
    update_commission,
    insert_output,
    lookup_output,
    update_output,
    insert_output_tag,
    lookup_output_tag,
    update_output_tag,
    insert_output_tag_map,
    lookup_output_tag_map,
    update_output_tag_map,
    insert_proven_tx,
    lookup_proven_tx,
    update_proven_tx,
    insert_proven_tx_req,
    lookup_proven_tx_req,
    update_proven_tx_req,
    insert_transaction,
    lookup_transaction,
    update_transaction,
    insert_tx_label,
    lookup_tx_label,
    update_tx_label,
    insert_tx_label_map,
    lookup_tx_label_map,
    update_tx_label_map,
    link_proof,
    resolve_proof_fk,
};
use wallet_infra::time::Timestamp;

fn at(seconds: i64) -> Timestamp {
    Timestamp { seconds, nanos: 0 }
}

fn text(s: &str) -> Option<String> {
    Some(s.to_string())
}

fn basket() -> TableOutputBasket {
    TableOutputBasket {
        basket_id: 7,
        user_id: 99,
        name: "default".to_string(),
        number_of_desired_utxos: 6,
        minimum_desired_utxo_value: 10000,
        created_at: at(1),
        updated_at: at(2),
    }
}

fn proven_tx() -> TableProvenTx {
    TableProvenTx {
        proven_tx_id: 3,
        txid: "aa".to_string(),
        height: 800000,
        index: 4,
        block_hash: "bh".to_string(),
        merkle_root: "mr".to_string(),
        merkle_path: vec![1, 2],
        raw_tx: vec![3, 4, 5],
        created_at: at(1),
        updated_at: at(2),
    }
}

fn proven_tx_req() -> TableProvenTxReq {
    TableProvenTxReq {
        proven_tx_req_id: 5,
        txid: "aa".to_string(),
        status: "unmined".to_string(),
        attempts: 2,
        history: "{}".to_string(),
        notified: true,
        notify: "{\"a\":1}".to_string(),
        raw_tx: Some(vec![9]),
        input_beef: Some(vec![8; 4096]),
        proven_tx_id: Some(3),
        batch: None,
        created_at: at(1),
        updated_at: at(2),
    }
}

fn tx_label() -> TableTxLabel {
    TableTxLabel {
        label_id: 11,
        user_id: 99,
        label: "rent".to_string(),
        created_at: at(1),
        updated_at: at(2),
    }
}

fn output_tag() -> TableOutputTag {
    TableOutputTag {
        tag_id: 12,
        user_id: 99,
        tag: "coin".to_string(),
        created_at: at(1),
        updated_at: at(2),
    }
}

fn transaction() -> TableTransaction {
    TableTransaction {
        transaction_id: 21,
        user_id: 99,
        txid: text("bb"),
        status: "completed".to_string(),
        reference: "ref".to_string(),
        description: "pay".to_string(),
        satoshis: -5,
        version: 1,
        lock_time: 0,
        raw_tx: Some(vec![1; 4097]),
        input_beef: None,
        is_outgoing: true,
        proof_txid: text("aa"),
        created_at: at(1),
        updated_at: at(2),
    }
}

fn output() -> TableOutput {
    TableOutput {
        output_id: 31,
        user_id: 99,
        transaction_id: 21,
        basket_id: Some(7),
        basket_name: text("default"),
        txid: "bb".to_string(),
        vout: 1,
        satoshis: 1000,
        locking_script: Some(vec![0x76]),
        script_length: 1,
        script_offset: 9,
        output_type: "P2PKH".to_string(),
        provided_by: "".to_string(),
        purpose: None,
        output_description: None,
        spent_by: Some(21),
        spent_by_reference: text("ref"),
        sequence_number: None,
        spending_description: None,
        spendable: true,
        change: false,
        derivation_prefix: text("p"),
        derivation_suffix: None,
        sender_identity_key: None,
        custom_instructions: text("ci"),
        created_at: at(1),
        updated_at: at(2),
    }
}

fn certificate() -> TableCertificate {
    TableCertificate {
        certificate_id: 41,
        user_id: 99,
        cert_type: "ct".to_string(),
        serial_number: "sn".to_string(),
        certifier: "cf".to_string(),
        subject: "sj".to_string(),
        verifier: None,
        revocation_outpoint: "ro".to_string(),
        signature: "sg".to_string(),
        created_at: at(1),
        updated_at: at(2),
    }
}

fn certificate_field() -> TableCertificateField {
    TableCertificateField {
        certificate_field_id: 42,
        certificate_id: 41,
        user_id: 99,
        field_name: "fn".to_string(),
        field_value: "fv".to_string(),
        master_key: "mk".to_string(),
        created_at: at(1),
        updated_at: at(2),
    }
}

fn commission() -> TableCommission {
    TableCommission {
        commission_id: 51,
        user_id: 99,
        transaction_id: 21,
        satoshis: 12,
        payer_locking_script: vec![5],
        key_offset: "ko".to_string(),
        is_redeemed: false,
        created_at: at(1),
        updated_at: at(2),
    }
}

#[test]
fn lookup_basket_statement() {
    let q = lookup_basket(1, &basket());
    assert_eq!(
        q.sql,
        "SELECT basket_id AS id, updated_at FROM output_baskets WHERE user_id = ? AND name = ?"
    );
    assert_eq!(
        q.params,
        vec![
            Param::Int(1),
            Param::Text("default".to_string()),
        ]
    );
    assert_eq!(q.sql.matches('?').count(), q.params.len());
}

#[test]
fn insert_basket_statement() {
    let q = insert_basket(1, &basket());
    assert_eq!(
        q.sql,
        "INSERT INTO output_baskets (user_id, name, number_of_desired_utxos, minimum_desired_utxo_value, created_at, updated_at) VALUES (?, ?, ?, ?, ?, ?)"
    );
    assert_eq!(
        q.params,
        vec![
            Param::Int(1),
            Param::Text("default".to_string()),
            Param::Int(6),
            Param::Int(10000),
            Param::Time(at(1)),
            Param::Time(at(2)),
        ]
    );
    assert_eq!(q.sql.matches('?').count(), q.params.len());
}

#[test]
fn update_basket_statement() {
    let q = update_basket(&basket(), 5);
    assert_eq!(
        q.sql,
        "UPDATE output_baskets SET number_of_desired_utxos = ?, minimum_desired_utxo_value = ?, updated_at = ? WHERE basket_id = ?"
    );
    assert_eq!(
        q.params,
        vec![
            Param::Int(6),
            Param::Int(10000),
            Param::Time(at(2)),
            Param::Int(5),
        ]
    );
    assert_eq!(q.sql.matches('?').count(), q.params.len());
}

#[test]
fn lookup_proven_tx_statement() {
    let q = lookup_proven_tx(&proven_tx());
    assert_eq!(
        q.sql,
        "SELECT proven_tx_id AS id, updated_at FROM proven_txs WHERE txid = ?"
    );
    assert_eq!(
        q.params,
        vec![
            Param::Text("aa".to_string()),
        ]
    );
    assert_eq!(q.sql.matches('?').count(), q.params.len());
}

#[test]
fn insert_proven_tx_statement() {
    let q = insert_proven_tx(&proven_tx());
    assert_eq!(
        q.sql,
        "INSERT INTO proven_txs (txid, height, idx, block_hash, merkle_root, merkle_path, raw_tx, created_at, updated_at) VALUES (?, ?, ?, ?, ?, ?, ?, ?, ?)"
    );
    assert_eq!(
        q.params,
        vec![
            Param::Text("aa".to_string()),
            Param::Int(800000),
            Param::Int(4),
            Param::Text("bh".to_string()),
            Param::Text("mr".to_string()),
            Param::Blob(vec![1, 2]),
            Param::Blob(vec![3, 4, 5]),
            Param::Time(at(1)),
            Param::Time(at(2)),
        ]
    );
    assert_eq!(q.sql.matches('?').count(), q.params.len());
}

#[test]
fn update_proven_tx_statement() {
    let q = update_proven_tx(&proven_tx(), 5);
    assert_eq!(
        q.sql,
        "UPDATE proven_txs SET height = ?, idx = ?, block_hash = ?, merkle_root = ?, merkle_path = ?, raw_tx = ?, updated_at = ? WHERE proven_tx_id = ?"
    );
    assert_eq!(
        q.params,
        vec![
            Param::Int(800000),
            Param::Int(4),
            Param::Text("bh".to_string()),
            Param::Text("mr".to_string()),
            Param::Blob(vec![1, 2]),
            Param::Blob(vec![3, 4, 5]),
            Param::Time(at(2)),
            Param::Int(5),
        ]
    );
    assert_eq!(q.sql.matches('?').count(), q.params.len());
}

#[test]
fn lookup_proven_tx_req_statement() {
    let q = lookup_proven_tx_req(&proven_tx_req());
    assert_eq!(
        q.sql,
        "SELECT proven_tx_req_id AS id, updated_at FROM proven_tx_reqs WHERE txid = ?"
    );
    assert_eq!(
        q.params,
        vec![
            Param::Text("aa".to_string()),
        ]
    );
    assert_eq!(q.sql.matches('?').count(), q.params.len());
}

#[test]
fn insert_proven_tx_req_statement() {
    let q = insert_proven_tx_req(&proven_tx_req());
    assert_eq!(
        q.sql,
        "INSERT INTO proven_tx_reqs (txid, status, attempts, history, notify, notified, raw_tx, input_beef, proven_tx_id, batch, created_at, updated_at) VALUES (?, ?, ?, ?, ?, ?, ?, NULL, ?, ?, ?, ?)"
    );
    assert_eq!(
        q.params,
        vec![
            Param::Text("aa".to_string()),
            Param::Text("unmined".to_string()),
            Param::Int(2),
            Param::Text("{}".to_string()),
            Param::Text("{\"a\":1}".to_string()),
            Param::Int(1),
            Param::Blob(vec![9]),
            Param::Int(3),
            Param::Null,
            Param::Time(at(1)),
            Param::Time(at(2)),
        ]
    );
    assert_eq!(q.sql.matches('?').count(), q.params.len());
}

#[test]
fn update_proven_tx_req_statement() {
    let q = update_proven_tx_req(&proven_tx_req(), 5);
    assert_eq!(
        q.sql,
        "UPDATE proven_tx_reqs SET status = ?, attempts = ?, history = ?, notified = ?, notify = ?, raw_tx = ?, proven_tx_id = ?, batch = ?, updated_at = ? WHERE proven_tx_req_id = ?"
    );
    assert_eq!(
        q.params,
        vec![
            Param::Text("unmined".to_string()),
            Param::Int(2),
            Param::Text("{}".to_string()),
            Param::Int(1),
            Param::Text("{\"a\":1}".to_string()),
            Param::Blob(vec![9]),
            Param::Int(3),
            Param::Null,
            Param::Time(at(2)),
            Param::Int(5),
        ]
    );
    assert_eq!(q.sql.matches('?').count(), q.params.len());
}

#[test]
fn lookup_tx_label_statement() {
    let q = lookup_tx_label(1, &tx_label());
    assert_eq!(
        q.sql,
        "SELECT tx_label_id AS id, updated_at FROM tx_labels WHERE user_id = ? AND label = ?"
    );
    assert_eq!(
        q.params,
        vec![
            Param::Int(1),
            Param::Text("rent".to_string()),
        ]
    );
    assert_eq!(q.sql.matches('?').count(), q.params.len());
}

#[test]
fn insert_tx_label_statement() {
    let q = insert_tx_label(1, &tx_label());
    assert_eq!(
        q.sql,
        "INSERT INTO tx_labels (user_id, label, created_at, updated_at) VALUES (?, ?, ?, ?)"
    );
    assert_eq!(
        q.params,
        vec![
            Param::Int(1),
            Param::Text("rent".to_string()),
            Param::Time(at(1)),
            Param::Time(at(2)),
        ]
    );
    assert_eq!(q.sql.matches('?').count(), q.params.len());
}

#[test]
fn update_tx_label_statement() {
    let q = update_tx_label(&tx_label(), 5);
    assert_eq!(
        q.sql,
        "UPDATE tx_labels SET updated_at = ? WHERE tx_label_id = ?"
    );
    assert_eq!(
        q.params,
        vec![
            Param::Time(at(2)),
            Param::Int(5),
        ]
    );
    assert_eq!(q.sql.matches('?').count(), q.params.len());
}

#[test]
fn lookup_output_tag_statement() {
    let q = lookup_output_tag(1, &output_tag());
    assert_eq!(
        q.sql,
        "SELECT output_tag_id AS id, updated_at FROM output_tags WHERE user_id = ? AND tag = ?"
    );
    assert_eq!(
        q.params,
        vec![
            Param::Int(1),
            Param::Text("coin".to_string()),
        ]
    );
    assert_eq!(q.sql.matches('?').count(), q.params.len());
}

#[test]
fn insert_output_tag_statement() {
    let q = insert_output_tag(1, &output_tag());
    assert_eq!(
        q.sql,
        "INSERT INTO output_tags (user_id, tag, created_at, updated_at) VALUES (?, ?, ?, ?)"
    );
    assert_eq!(
        q.params,
        vec![
            Param::Int(1),
            Param::Text("coin".to_string()),
            Param::Time(at(1)),
            Param::Time(at(2)),
        ]
    );
    assert_eq!(q.sql.matches('?').count(), q.params.len());
}

#[test]
fn update_output_tag_statement() {
    let q = update_output_tag(&output_tag(), 5);
    assert_eq!(
        q.sql,
        "UPDATE output_tags SET updated_at = ? WHERE output_tag_id = ?"
    );
    assert_eq!(
        q.params,
        vec![
            Param::Time(at(2)),
            Param::Int(5),
        ]
    );
    assert_eq!(q.sql.matches('?').count(), q.params.len());
}

#[test]
fn lookup_transaction_statement() {
    let q = lookup_transaction(1, &transaction());
    assert_eq!(
        q.sql,
        "SELECT transaction_id AS id, updated_at FROM transactions WHERE user_id = ? AND reference = ?"
    );
    assert_eq!(
        q.params,
        vec![
            Param::Int(1),
            Param::Text("ref".to_string()),
        ]
    );
    assert_eq!(q.sql.matches('?').count(), q.params.len());
}

#[test]
fn insert_transaction_statement() {
    let q = insert_transaction(1, &transaction(), Some(3));
    assert_eq!(
        q.sql,
        "INSERT INTO transactions (user_id, txid, status, reference, description, satoshis, version, lock_time, is_outgoing, proven_tx_id, raw_tx, input_beef, created_at, updated_at) VALUES (?, ?, ?, ?, ?, ?, ?, ?, ?, ?, NULL, NULL, ?, ?)"
    );
    assert_eq!(
        q.params,
        vec![
            Param::Int(1),
            Param::Text("bb".to_string()),
            Param::Text("completed".to_string()),
            Param::Text("ref".to_string()),
            Param::Text("pay".to_string()),
            Param::Int(-5),
            Param::Int(1),
            Param::Int(0),
            Param::Int(1),
            Param::Int(3),
            Param::Time(at(1)),
            Param::Time(at(2)),
        ]
    );
    assert_eq!(q.sql.matches('?').count(), q.params.len());
}

#[test]
fn update_transaction_statement() {
    let q = update_transaction(&transaction(), 5);
    assert_eq!(
        q.sql,
        "UPDATE transactions SET txid = ?, status = ?, description = ?, satoshis = ?, version = ?, lock_time = ?, is_outgoing = ?, updated_at = ? WHERE transaction_id = ?"
    );
    assert_eq!(
        q.params,
        vec![
            Param::Text("bb".to_string()),
            Param::Text("completed".to_string()),
            Param::Text("pay".to_string()),
            Param::Int(-5),
            Param::Int(1),
            Param::Int(0),
            Param::Int(1),
            Param::Time(at(2)),
            Param::Int(5),
        ]
    );
    assert_eq!(q.sql.matches('?').count(), q.params.len());
}

#[test]
fn lookup_output_statement() {
    let q = lookup_output(1, &output());
    assert_eq!(
        q.sql,
        "SELECT output_id AS id, updated_at FROM outputs WHERE user_id = ? AND txid = ? AND vout = ?"
    );
    assert_eq!(
        q.params,
        vec![
            Param::Int(1),
            Param::Text("bb".to_string()),
            Param::Int(1),
        ]
    );
    assert_eq!(q.sql.matches('?').count(), q.params.len());
}

#[test]
fn insert_output_statement() {
    let q = insert_output(1, &output(), 70, Some(71));
    assert_eq!(
        q.sql,
        "INSERT INTO outputs (user_id, transaction_id, basket_id, txid, vout, satoshis, locking_script, script_length, script_offset, type, provided_by, purpose, spendable, change, derivation_prefix, derivation_suffix, sender_identity_key, custom_instructions, created_at, updated_at) VALUES (?, ?, ?, ?, ?, ?, NULL, ?, ?, ?, ?, ?, ?, ?, ?, ?, ?, ?, ?, ?)"
    );
    assert_eq!(
        q.params,
        vec![
            Param::Int(1),
            Param::Int(70),
            Param::Int(71),
            Param::Text("bb".to_string()),
            Param::Int(1),
            Param::Int(1000),
            Param::Int(1),
            Param::Int(9),
            Param::Text("P2PKH".to_string()),
            Param::Text("you".to_string()),
            Param::Text("change".to_string()),
            Param::Int(1),
            Param::Int(0),
            Param::Text("p".to_string()),
            Param::Null,
            Param::Null,
            Param::Text("ci".to_string()),
            Param::Time(at(1)),
            Param::Time(at(2)),
        ]
    );
    assert_eq!(q.sql.matches('?').count(), q.params.len());
}

#[test]
fn update_output_statement() {
    let q = update_output(1, &output(), 70, Some(71), 5);
    assert_eq!(
        q.sql,
        "UPDATE outputs SET transaction_id = ?, basket_id = CASE WHEN basket_id = (SELECT basket_id FROM output_baskets WHERE user_id = ? AND name = 'default') THEN basket_id ELSE ? END, satoshis = CASE WHEN satoshis = 0 THEN ? ELSE satoshis END, script_length = CASE WHEN locking_script IS NULL OR length(locking_script) = 0 THEN ? ELSE script_length END, script_offset = CASE WHEN locking_script IS NULL OR length(locking_script) = 0 THEN ? ELSE script_offset END, type = ?, spendable = CASE WHEN spendable = 1 THEN 1 ELSE ? END, change = CASE WHEN change = 1 THEN 1 ELSE ? END, derivation_prefix = CASE WHEN derivation_prefix IS NULL THEN ? ELSE derivation_prefix END, derivation_suffix = CASE WHEN derivation_suffix IS NULL THEN ? ELSE derivation_suffix END, sender_identity_key = ?, custom_instructions = ?, updated_at = ? WHERE output_id = ?"
    );
    assert_eq!(
        q.params,
        vec![
            Param::Int(70),
            Param::Int(1),
            Param::Int(71),
            Param::Int(1000),
            Param::Int(1),
            Param::Int(9),
            Param::Text("P2PKH".to_string()),
            Param::Int(1),
            Param::Int(0),
            Param::Text("p".to_string()),
            Param::Null,
            Param::Null,
            Param::Text("ci".to_string()),
            Param::Time(at(2)),
            Param::Int(5),
        ]
    );
    assert_eq!(q.sql.matches('?').count(), q.params.len());
}

#[test]
fn lookup_tx_label_map_statement() {
    let q = lookup_tx_label_map(70, 80);
    assert_eq!(
        q.sql,
        "SELECT tx_label_map_id AS id, updated_at FROM tx_labels_map WHERE transaction_id = ? AND tx_label_id = ?"
    );
    assert_eq!(
        q.params,
        vec![
            Param::Int(70),
            Param::Int(80),
        ]
    );
    assert_eq!(q.sql.matches('?').count(), q.params.len());
}

#[test]
fn insert_tx_label_map_statement() {
    let q = insert_tx_label_map(70, 80, at(2), at(1));
    assert_eq!(
        q.sql,
        "INSERT INTO tx_labels_map (tx_label_id, transaction_id, created_at, updated_at) VALUES (?, ?, ?, ?)"
    );
    assert_eq!(
        q.params,
        vec![
            Param::Int(80),
            Param::Int(70),
            Param::Time(at(1)),
            Param::Time(at(2)),
        ]
    );
    assert_eq!(q.sql.matches('?').count(), q.params.len());
}

#[test]
fn update_tx_label_map_statement() {
    let q = update_tx_label_map(at(2), 5);
    assert_eq!(
        q.sql,
        "UPDATE tx_labels_map SET is_deleted = 0, updated_at = ? WHERE tx_label_map_id = ?"
    );
    assert_eq!(
        q.params,
        vec![
            Param::Time(at(2)),
            Param::Int(5),
        ]
    );
    assert_eq!(q.sql.matches('?').count(), q.params.len());
}

#[test]
fn lookup_output_tag_map_statement() {
    let q = lookup_output_tag_map(90, 91);
    assert_eq!(
        q.sql,
        "SELECT output_tag_map_id AS id, updated_at FROM output_tags_map WHERE output_tag_id = ? AND output_id = ?"
    );
    assert_eq!(
        q.params,
        vec![
            Param::Int(91),
            Param::Int(90),
        ]
    );
    assert_eq!(q.sql.matches('?').count(), q.params.len());
}

#[test]
fn insert_output_tag_map_statement() {
    let q = insert_output_tag_map(90, 91, at(2), at(1));
    assert_eq!(
        q.sql,
        "INSERT INTO output_tags_map (output_tag_id, output_id, created_at, updated_at) VALUES (?, ?, ?, ?)"
    );
    assert_eq!(
        q.params,
        vec![
            Param::Int(91),
            Param::Int(90),
            Param::Time(at(1)),
            Param::Time(at(2)),
        ]
    );
    assert_eq!(q.sql.matches('?').count(), q.params.len());
}

#[test]
fn update_output_tag_map_statement() {
    let q = update_output_tag_map(at(2), 5);
    assert_eq!(
        q.sql,
        "UPDATE output_tags_map SET is_deleted = 0, updated_at = ? WHERE output_tag_map_id = ?"
    );
    assert_eq!(
        q.params,
        vec![
            Param::Time(at(2)),
            Param::Int(5),
        ]
    );
    assert_eq!(q.sql.matches('?').count(), q.params.len());
}

#[test]
fn lookup_certificate_statement() {
    let q = lookup_certificate(1, &certificate());
    assert_eq!(
        q.sql,
        "SELECT certificate_id AS id, updated_at FROM certificates WHERE user_id = ? AND type = ? AND certifier = ? AND serial_number = ?"
    );
    assert_eq!(
        q.params,
        vec![
            Param::Int(1),
            Param::Text("ct".to_string()),
            Param::Text("cf".to_string()),
            Param::Text("sn".to_string()),
        ]
    );
    assert_eq!(q.sql.matches('?').count(), q.params.len());
}

#[test]
fn insert_certificate_statement() {
    let q = insert_certificate(1, &certificate());
    assert_eq!(
        q.sql,
        "INSERT INTO certificates (user_id, serial_number, type, certifier, subject, verifier, revocation_outpoint, signature, created_at, updated_at) VALUES (?, ?, ?, ?, ?, ?, ?, ?, ?, ?)"
    );
    assert_eq!(
        q.params,
        vec![
            Param::Int(1),
            Param::Text("sn".to_string()),
            Param::Text("ct".to_string()),
            Param::Text("cf".to_string()),
            Param::Text("sj".to_string()),
            Param::Null,
            Param::Text("ro".to_string()),
            Param::Text("sg".to_string()),
            Param::Time(at(1)),
            Param::Time(at(2)),
        ]
    );
    assert_eq!(q.sql.matches('?').count(), q.params.len());
}

#[test]
fn update_certificate_statement() {
    let q = update_certificate(&certificate(), 5);
    assert_eq!(
        q.sql,
        "UPDATE certificates SET subject = ?, verifier = ?, revocation_outpoint = ?, signature = ?, updated_at = ? WHERE certificate_id = ?"
    );
    assert_eq!(
        q.params,
        vec![
            Param::Text("sj".to_string()),
            Param::Null,
            Param::Text("ro".to_string()),
            Param::Text("sg".to_string()),
            Param::Time(at(2)),
            Param::Int(5),
        ]
    );
    assert_eq!(q.sql.matches('?').count(), q.params.len());
}

#[test]
fn lookup_certificate_field_statement() {
    let q = lookup_certificate_field(&certificate_field(), 60);
    assert_eq!(
        q.sql,
        "SELECT certificate_field_id AS id, updated_at FROM certificate_fields WHERE certificate_id = ? AND field_name = ?"
    );
    assert_eq!(
        q.params,
        vec![
            Param::Int(60),
            Param::Text("fn".to_string()),
        ]
    );
    assert_eq!(q.sql.matches('?').count(), q.params.len());
}

#[test]
fn insert_certificate_field_statement() {
    let q = insert_certificate_field(1, &certificate_field(), 60);
    assert_eq!(
        q.sql,
        "INSERT INTO certificate_fields (user_id, certificate_id, field_name, field_value, master_key, created_at, updated_at) VALUES (?, ?, ?, ?, ?, ?, ?)"
    );
    assert_eq!(
        q.params,
        vec![
            Param::Int(1),
            Param::Int(60),
            Param::Text("fn".to_string()),
            Param::Text("fv".to_string()),
            Param::Text("mk".to_string()),
            Param::Time(at(1)),
            Param::Time(at(2)),
        ]
    );
    assert_eq!(q.sql.matches('?').count(), q.params.len());
}

#[test]
fn update_certificate_field_statement() {
    let q = update_certificate_field(&certificate_field(), 5);
    assert_eq!(
        q.sql,
        "UPDATE certificate_fields SET field_value = ?, master_key = ?, updated_at = ? WHERE certificate_field_id = ?"
    );
    assert_eq!(
        q.params,
        vec![
            Param::Text("fv".to_string()),
            Param::Text("mk".to_string()),
            Param::Time(at(2)),
            Param::Int(5),
        ]
    );
    assert_eq!(q.sql.matches('?').count(), q.params.len());
}

#[test]
fn lookup_commission_statement() {
    let q = lookup_commission(70);
    assert_eq!(
        q.sql,
        "SELECT commission_id AS id, updated_at FROM commissions WHERE transaction_id = ?"
    );
    assert_eq!(
        q.params,
        vec![
            Param::Int(70),
        ]
    );
    assert_eq!(q.sql.matches('?').count(), q.params.len());
}

#[test]
fn insert_commission_statement() {
    let q = insert_commission(1, &commission(), 70);
    assert_eq!(
        q.sql,
        "INSERT INTO commissions (user_id, transaction_id, satoshis, key_offset, is_redeemed, locking_script, created_at, updated_at) VALUES (?, ?, ?, ?, ?, ?, ?, ?)"
    );
    assert_eq!(
        q.params,
        vec![
            Param::Int(1),
            Param::Int(70),
            Param::Int(12),
            Param::Text("ko".to_string()),
            Param::Int(0),
            Param::Blob(vec![5]),
            Param::Time(at(1)),
            Param::Time(at(2)),
        ]
    );
    assert_eq!(q.sql.matches('?').count(), q.params.len());
}

#[test]
fn update_commission_statement() {
    let q = update_commission(&commission(), 5);
    assert_eq!(
        q.sql,
        "UPDATE commissions SET satoshis = ?, key_offset = ?, is_redeemed = ?, locking_script = ?, updated_at = ? WHERE commission_id = ?"
    );
    assert_eq!(
        q.params,
        vec![
            Param::Int(12),
            Param::Text("ko".to_string()),
            Param::Int(0),
            Param::Blob(vec![5]),
            Param::Time(at(2)),
            Param::Int(5),
        ]
    );
    assert_eq!(q.sql.matches('?').count(), q.params.len());
}

#[test]
fn a_proof_is_looked_up_by_its_txid() {
    let q = resolve_proof_fk(&text("aa")).unwrap();
    assert_eq!(q.sql, "SELECT proven_tx_id FROM proven_txs WHERE txid = ?");
    assert_eq!(q.params, vec![Param::Text("aa".to_string())]);
    assert!(resolve_proof_fk(&None).is_none());
}

#[test]
fn a_proof_is_linked_by_id() {
    let q = link_proof(3, 21);
    assert_eq!(q.sql, "UPDATE transactions SET proven_tx_id = ? WHERE transaction_id = ?");
    assert_eq!(q.params, vec![Param::Int(3), Param::Int(21)]);
}
