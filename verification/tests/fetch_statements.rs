//! The statements that read pages.

use wallet_infra::sql::query::Param;
use wallet_infra::storage::fetch::{
    fetch_baskets_for_sync,
    fetch_certificate_fields_for_sync,
    fetch_certificates_for_sync,
    fetch_commissions_for_sync,
    fetch_output_tag_maps_for_sync,
    fetch_output_tags_for_sync,
    fetch_outputs_for_sync,
    fetch_proven_tx_reqs_for_sync,
    fetch_proven_txs_for_sync,
    fetch_transactions_for_sync,
    fetch_tx_label_maps_for_sync,
    fetch_tx_labels_for_sync,
};
use wallet_infra::time::Timestamp;

fn at(seconds: i64) -> Timestamp {
    Timestamp { seconds, nanos: 0 }
}

#[test]
fn fetch_baskets_for_sync_statement() {
    let q = fetch_baskets_for_sync(1, Some(at(9)), 20, 30);
    assert_eq!(
        q.sql,
        "SELECT basket_id, user_id, name, number_of_desired_utxos, minimum_desired_utxo_value, created_at, updated_at FROM output_baskets WHERE user_id = ? AND is_deleted = 0 AND updated_at > ? ORDER BY updated_at ASC LIMIT ? OFFSET ?"
    );
    assert_eq!(q.params, vec![Param::Int(1), Param::Time(at(9)), Param::Int(30), Param::Int(20)]);

    let q = fetch_baskets_for_sync(1, None, 20, 30);
    assert_eq!(
        q.sql,
        "SELECT basket_id, user_id, name, number_of_desired_utxos, minimum_desired_utxo_value, created_at, updated_at FROM output_baskets WHERE user_id = ? AND is_deleted = 0 ORDER BY updated_at ASC LIMIT ? OFFSET ?"
    );
    assert_eq!(q.params, vec![Param::Int(1), Param::Int(30), Param::Int(20)]);
}

#[test]
fn fetch_proven_txs_for_sync_statement() {
    let q = fetch_proven_txs_for_sync(1, Some(at(9)), 20, 30);
    assert_eq!(
        q.sql,
        "SELECT proven_tx_id, txid, height, idx, block_hash, merkle_root, hex(merkle_path) AS merkle_path_hex, hex(raw_tx) AS raw_tx_hex, created_at, updated_at FROM proven_txs WHERE txid IN (SELECT txid FROM transactions WHERE user_id = ?) AND updated_at > ? ORDER BY updated_at ASC LIMIT ? OFFSET ?"
    );
    assert_eq!(q.params, vec![Param::Int(1), Param::Time(at(9)), Param::Int(30), Param::Int(20)]);

    let q = fetch_proven_txs_for_sync(1, None, 20, 30);
    assert_eq!(
        q.sql,
        "SELECT proven_tx_id, txid, height, idx, block_hash, merkle_root, hex(merkle_path) AS merkle_path_hex, hex(raw_tx) AS raw_tx_hex, created_at, updated_at FROM proven_txs WHERE txid IN (SELECT txid FROM transactions WHERE user_id = ?) ORDER BY updated_at ASC LIMIT ? OFFSET ?"
    );
    assert_eq!(q.params, vec![Param::Int(1), Param::Int(30), Param::Int(20)]);
}

#[test]
fn fetch_proven_tx_reqs_for_sync_statement() {
    let q = fetch_proven_tx_reqs_for_sync(1, Some(at(9)), 20, 30);
    assert_eq!(
        q.sql,
        "SELECT proven_tx_req_id, proven_tx_id, txid, status, attempts, history, notified, notify, hex(raw_tx) AS raw_tx_hex, hex(input_beef) AS input_beef_hex, batch, created_at, updated_at FROM proven_tx_reqs WHERE txid IN (SELECT txid FROM transactions WHERE user_id = ?) AND updated_at > ? ORDER BY updated_at ASC LIMIT ? OFFSET ?"
    );
    assert_eq!(q.params, vec![Param::Int(1), Param::Time(at(9)), Param::Int(30), Param::Int(20)]);

    let q = fetch_proven_tx_reqs_for_sync(1, None, 20, 30);
    assert_eq!(
        q.sql,
        "SELECT proven_tx_req_id, proven_tx_id, txid, status, attempts, history, notified, notify, hex(raw_tx) AS raw_tx_hex, hex(input_beef) AS input_beef_hex, batch, created_at, updated_at FROM proven_tx_reqs WHERE txid IN (SELECT txid FROM transactions WHERE user_id = ?) ORDER BY updated_at ASC LIMIT ? OFFSET ?"
    );
    assert_eq!(q.params, vec![Param::Int(1), Param::Int(30), Param::Int(20)]);
}

#[test]
fn fetch_tx_labels_for_sync_statement() {
    let q = fetch_tx_labels_for_sync(1, Some(at(9)), 20, 30);
    assert_eq!(
        q.sql,
        "SELECT tx_label_id, user_id, label, created_at, updated_at FROM tx_labels WHERE user_id = ? AND is_deleted = 0 AND updated_at > ? ORDER BY updated_at ASC LIMIT ? OFFSET ?"
    );
    assert_eq!(q.params, vec![Param::Int(1), Param::Time(at(9)), Param::Int(30), Param::Int(20)]);

    let q = fetch_tx_labels_for_sync(1, None, 20, 30);
    assert_eq!(
        q.sql,
        "SELECT tx_label_id, user_id, label, created_at, updated_at FROM tx_labels WHERE user_id = ? AND is_deleted = 0 ORDER BY updated_at ASC LIMIT ? OFFSET ?"
    );
    assert_eq!(q.params, vec![Param::Int(1), Param::Int(30), Param::Int(20)]);
}

#[test]
fn fetch_output_tags_for_sync_statement() {
    let q = fetch_output_tags_for_sync(1, Some(at(9)), 20, 30);
    assert_eq!(
        q.sql,
        "SELECT output_tag_id, user_id, tag, created_at, updated_at FROM output_tags WHERE user_id = ? AND is_deleted = 0 AND updated_at > ? ORDER BY updated_at ASC LIMIT ? OFFSET ?"
    );
    assert_eq!(q.params, vec![Param::Int(1), Param::Time(at(9)), Param::Int(30), Param::Int(20)]);

    let q = fetch_output_tags_for_sync(1, None, 20, 30);
    assert_eq!(
        q.sql,
        "SELECT output_tag_id, user_id, tag, created_at, updated_at FROM output_tags WHERE user_id = ? AND is_deleted = 0 ORDER BY updated_at ASC LIMIT ? OFFSET ?"
    );
    assert_eq!(q.params, vec![Param::Int(1), Param::Int(30), Param::Int(20)]);
}

#[test]
fn fetch_transactions_for_sync_statement() {
    let q = fetch_transactions_for_sync(1, Some(at(9)), 20, 30);
    assert_eq!(
        q.sql,
        "SELECT t.transaction_id, t.user_id, t.txid, t.status, t.reference, t.description, t.satoshis, t.version, t.lock_time, hex(t.raw_tx) AS raw_tx_hex, hex(t.input_beef) AS input_beef_hex, t.is_outgoing, p.txid AS proof_txid, t.created_at, t.updated_at FROM transactions t LEFT JOIN proven_txs p ON t.proven_tx_id = p.proven_tx_id WHERE t.user_id = ? AND t.updated_at > ? ORDER BY t.updated_at ASC LIMIT ? OFFSET ?"
    );
    assert_eq!(q.params, vec![Param::Int(1), Param::Time(at(9)), Param::Int(30), Param::Int(20)]);

    let q = fetch_transactions_for_sync(1, None, 20, 30);
    assert_eq!(
        q.sql,
        "SELECT t.transaction_id, t.user_id, t.txid, t.status, t.reference, t.description, t.satoshis, t.version, t.lock_time, hex(t.raw_tx) AS raw_tx_hex, hex(t.input_beef) AS input_beef_hex, t.is_outgoing, p.txid AS proof_txid, t.created_at, t.updated_at FROM transactions t LEFT JOIN proven_txs p ON t.proven_tx_id = p.proven_tx_id WHERE t.user_id = ? ORDER BY t.updated_at ASC LIMIT ? OFFSET ?"
    );
    assert_eq!(q.params, vec![Param::Int(1), Param::Int(30), Param::Int(20)]);
}

#[test]
fn fetch_outputs_for_sync_statement() {
    let q = fetch_outputs_for_sync(1, Some(at(9)), 20, 30);
    assert_eq!(
        q.sql,
        "SELECT o.output_id, o.user_id, o.transaction_id, o.basket_id, o.txid, o.vout, o.satoshis, hex(o.locking_script) AS locking_script_hex, o.script_length, o.script_offset, o.type, o.provided_by, o.purpose, o.output_description, o.spent_by, o.sequence_number, o.spending_description, o.spendable, o.change, o.derivation_prefix, o.derivation_suffix, o.sender_identity_key, o.custom_instructions, o.created_at, o.updated_at, st.reference AS spent_by_reference FROM outputs o LEFT JOIN transactions st ON st.transaction_id = o.spent_by AND st.user_id = o.user_id WHERE o.user_id = ? AND o.updated_at > ? ORDER BY o.updated_at ASC LIMIT ? OFFSET ?"
    );
    assert_eq!(q.params, vec![Param::Int(1), Param::Time(at(9)), Param::Int(30), Param::Int(20)]);

    let q = fetch_outputs_for_sync(1, None, 20, 30);
    assert_eq!(
        q.sql,
        "SELECT o.output_id, o.user_id, o.transaction_id, o.basket_id, o.txid, o.vout, o.satoshis, hex(o.locking_script) AS locking_script_hex, o.script_length, o.script_offset, o.type, o.provided_by, o.purpose, o.output_description, o.spent_by, o.sequence_number, o.spending_description, o.spendable, o.change, o.derivation_prefix, o.derivation_suffix, o.sender_identity_key, o.custom_instructions, o.created_at, o.updated_at, st.reference AS spent_by_reference FROM outputs o LEFT JOIN transactions st ON st.transaction_id = o.spent_by AND st.user_id = o.user_id WHERE o.user_id = ? ORDER BY o.updated_at ASC LIMIT ? OFFSET ?"
    );
    assert_eq!(q.params, vec![Param::Int(1), Param::Int(30), Param::Int(20)]);
}

#[test]
fn fetch_tx_label_maps_for_sync_statement() {
    let q = fetch_tx_label_maps_for_sync(1, Some(at(9)), 20, 30);
    assert_eq!(
        q.sql,
        "SELECT m.tx_label_map_id, m.transaction_id, m.tx_label_id, m.created_at, m.updated_at FROM tx_labels_map m JOIN transactions t ON m.transaction_id = t.transaction_id WHERE t.user_id = ? AND m.is_deleted = 0 AND m.updated_at > ? ORDER BY m.updated_at ASC LIMIT ? OFFSET ?"
    );
    assert_eq!(q.params, vec![Param::Int(1), Param::Time(at(9)), Param::Int(30), Param::Int(20)]);

    let q = fetch_tx_label_maps_for_sync(1, None, 20, 30);
    assert_eq!(
        q.sql,
        "SELECT m.tx_label_map_id, m.transaction_id, m.tx_label_id, m.created_at, m.updated_at FROM tx_labels_map m JOIN transactions t ON m.transaction_id = t.transaction_id WHERE t.user_id = ? AND m.is_deleted = 0 ORDER BY m.updated_at ASC LIMIT ? OFFSET ?"
    );
    assert_eq!(q.params, vec![Param::Int(1), Param::Int(30), Param::Int(20)]);
}

#[test]
fn fetch_output_tag_maps_for_sync_statement() {
    let q = fetch_output_tag_maps_for_sync(1, Some(at(9)), 20, 30);
    assert_eq!(
        q.sql,
        "SELECT m.output_tag_map_id, m.output_id, m.output_tag_id, m.created_at, m.updated_at FROM output_tags_map m JOIN outputs o ON m.output_id = o.output_id WHERE o.user_id = ? AND m.is_deleted = 0 AND m.updated_at > ? ORDER BY m.updated_at ASC LIMIT ? OFFSET ?"
    );
    assert_eq!(q.params, vec![Param::Int(1), Param::Time(at(9)), Param::Int(30), Param::Int(20)]);

    let q = fetch_output_tag_maps_for_sync(1, None, 20, 30);
    assert_eq!(
        q.sql,
        "SELECT m.output_tag_map_id, m.output_id, m.output_tag_id, m.created_at, m.updated_at FROM output_tags_map m JOIN outputs o ON m.output_id = o.output_id WHERE o.user_id = ? AND m.is_deleted = 0 ORDER BY m.updated_at ASC LIMIT ? OFFSET ?"
    );
    assert_eq!(q.params, vec![Param::Int(1), Param::Int(30), Param::Int(20)]);
}

#[test]
fn fetch_certificates_for_sync_statement() {
    let q = fetch_certificates_for_sync(1, Some(at(9)), 20, 30);
    assert_eq!(
        q.sql,
        "SELECT certificate_id, user_id, type, serial_number, certifier, subject, verifier, revocation_outpoint, signature, created_at, updated_at FROM certificates WHERE user_id = ? AND is_deleted = 0 AND updated_at > ? ORDER BY updated_at ASC LIMIT ? OFFSET ?"
    );
    assert_eq!(q.params, vec![Param::Int(1), Param::Time(at(9)), Param::Int(30), Param::Int(20)]);

    let q = fetch_certificates_for_sync(1, None, 20, 30);
    assert_eq!(
        q.sql,
        "SELECT certificate_id, user_id, type, serial_number, certifier, subject, verifier, revocation_outpoint, signature, created_at, updated_at FROM certificates WHERE user_id = ? AND is_deleted = 0 ORDER BY updated_at ASC LIMIT ? OFFSET ?"
    );
    assert_eq!(q.params, vec![Param::Int(1), Param::Int(30), Param::Int(20)]);
}

#[test]
fn fetch_certificate_fields_for_sync_statement() {
    let q = fetch_certificate_fields_for_sync(1, Some(at(9)), 20, 30);
    assert_eq!(
        q.sql,
        "SELECT certificate_field_id, certificate_id, user_id, field_name, field_value, master_key, created_at, updated_at FROM certificate_fields WHERE user_id = ? AND updated_at > ? ORDER BY updated_at ASC LIMIT ? OFFSET ?"
    );
    assert_eq!(q.params, vec![Param::Int(1), Param::Time(at(9)), Param::Int(30), Param::Int(20)]);

    let q = fetch_certificate_fields_for_sync(1, None, 20, 30);
    assert_eq!(
        q.sql,
        "SELECT certificate_field_id, certificate_id, user_id, field_name, field_value, master_key, created_at, updated_at FROM certificate_fields WHERE user_id = ? ORDER BY updated_at ASC LIMIT ? OFFSET ?"
    );
    assert_eq!(q.params, vec![Param::Int(1), Param::Int(30), Param::Int(20)]);
}

#[test]
fn fetch_commissions_for_sync_statement() {
    let q = fetch_commissions_for_sync(1, Some(at(9)), 20, 30);
    assert_eq!(
        q.sql,
        "SELECT commission_id, user_id, transaction_id, satoshis, key_offset, is_redeemed, hex(locking_script) AS locking_script_hex, created_at, updated_at FROM commissions WHERE user_id = ? AND updated_at > ? ORDER BY updated_at ASC LIMIT ? OFFSET ?"
    );
    assert_eq!(q.params, vec![Param::Int(1), Param::Time(at(9)), Param::Int(30), Param::Int(20)]);

    let q = fetch_commissions_for_sync(1, None, 20, 30);
    assert_eq!(
        q.sql,
        "SELECT commission_id, user_id, transaction_id, satoshis, key_offset, is_redeemed, hex(locking_script) AS locking_script_hex, created_at, updated_at FROM commissions WHERE user_id = ? ORDER BY updated_at ASC LIMIT ? OFFSET ?"
    );
    assert_eq!(q.params, vec![Param::Int(1), Param::Int(30), Param::Int(20)]);
}
