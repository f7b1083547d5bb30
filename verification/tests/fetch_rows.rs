//! Rows of the store and the values they stand for.

use wallet_infra::entities::{TableOutputBasket, TableTxLabel};
use wallet_infra::storage::blob_column::BlobSource;
use wallet_infra::storage::fetch::{
    basket_of, certificate_field_of, certificate_of, commission_of, output_of, output_tag_map_of,
    output_tag_of, proven_tx_of, proven_tx_req_of, transaction_of, tx_label_map_of, tx_label_of,
    BasketSyncRow, CertificateFieldSyncRow, CertificateSyncRow, CommissionSyncRow, OutputSyncRow,
    OutputTagMapSyncRow, OutputTagSyncRow, ProvenTxReqSyncRow, ProvenTxSyncRow,
    TransactionSyncRow, TxLabelMapSyncRow, TxLabelSyncRow,
};
use wallet_infra::time::Timestamp;

fn at(seconds: i64) -> Timestamp {
    Timestamp { seconds, nanos: 0 }
}

fn text(s: &str) -> Option<String> {
    Some(s.to_string())
}

fn output_row() -> OutputSyncRow {
    OutputSyncRow {
        output_id: Some(31),
        user_id: None,
        transaction_id: Some(21),
        basket_id: Some(7),
        txid: text("bb"),
        vout: Some(i64::MAX),
        satoshis: Some(1000),
        locking_script_hex: text("76a9"),
        script_length: Some(i64::MIN),
        script_offset: None,
        output_type: None,
        provided_by: None,
        purpose: None,
        output_description: text("d"),
        spent_by: Some(22),
        spent_by_reference: text("ref"),
        sequence_number: Some(-1),
        spending_description: None,
        spendable: Some(true),
        change: None,
        derivation_prefix: text("p"),
        derivation_suffix: None,
        sender_identity_key: None,
        custom_instructions: None,
        created_at: at(1),
        updated_at: at(2),
    }
}

#[test]
fn a_basket_row_has_defaults() {
    let row = BasketSyncRow {
        basket_id: None,
        user_id: None,
        name: None,
        number_of_desired_utxos: None,
        minimum_desired_utxo_value: None,
        created_at: at(1),
        updated_at: at(2),
    };
    assert_eq!(
        basket_of(row, 9),
        TableOutputBasket {
            basket_id: 0,
            user_id: 9,
            name: "".to_string(),
            number_of_desired_utxos: 6,
            minimum_desired_utxo_value: 10000,
            created_at: at(1),
            updated_at: at(2),
        }
    );
}

#[test]
fn labels_and_tags_come_from_rows() {
    let row = TxLabelSyncRow {
        tx_label_id: Some(3),
        user_id: Some(4),
        label: text("rent"),
        created_at: at(1),
        updated_at: at(2),
    };
    assert_eq!(
        tx_label_of(row, 9),
        TableTxLabel {
            label_id: 3,
            user_id: 4,
            label: "rent".to_string(),
            created_at: at(1),
            updated_at: at(2),
        }
    );
    let row = OutputTagSyncRow {
        output_tag_id: Some(5),
        user_id: None,
        tag: text("coin"),
        created_at: at(1),
        updated_at: at(2),
    };
    let tag = output_tag_of(row, 9);
    assert_eq!((tag.tag_id, tag.user_id, tag.tag.as_str()), (5, 9, "coin"));
    let row = TxLabelMapSyncRow {
        tx_label_map_id: Some(1),
        transaction_id: Some(2),
        tx_label_id: Some(3),
        created_at: at(1),
        updated_at: at(2),
    };
    let map = tx_label_map_of(row);
    assert_eq!((map.tx_label_map_id, map.transaction_id, map.label_id), (1, 2, 3));
    let row = OutputTagMapSyncRow {
        output_tag_map_id: Some(1),
        output_id: Some(2),
        output_tag_id: None,
        created_at: at(1),
        updated_at: at(2),
    };
    let map = output_tag_map_of(row);
    assert_eq!((map.output_tag_map_id, map.output_id, map.tag_id), (1, 2, 0));
}

#[test]
fn an_output_row_is_narrowed() {
    let row = output_row();
    assert_eq!(row.locking_script_source(), Ok(BlobSource::Inline(vec![0x76, 0xa9])));
    let o = output_of(row, 9, Some(vec![0x76, 0xa9]));
    assert_eq!(o.user_id, 9);
    assert_eq!(o.vout, i32::MAX);
    assert_eq!(o.script_length, i32::MIN);
    assert_eq!(o.script_offset, 0);
    assert_eq!(o.sequence_number, Some(0));
    assert_eq!(o.spent_by, Some(22));
    assert_eq!(o.spent_by_reference, text("ref"));
    assert_eq!(o.provided_by, "");
    assert!(o.spendable);
    assert!(!o.change);
    assert_eq!(o.locking_script, Some(vec![0x76, 0xa9]));
    let mut row = output_row();
    row.vout = Some(-5);
    row.sequence_number = Some(1 << 40);
    let o = output_of(row, 9, None);
    assert_eq!(o.vout, -5);
    assert_eq!(o.sequence_number, Some(u32::MAX));
}

#[test]
fn a_proven_transaction_comes_from_its_row() {
    let row = ProvenTxSyncRow {
        proven_tx_id: Some(3),
        txid: text("aa"),
        height: Some(800000),
        idx: None,
        block_hash: text("bh"),
        merkle_root: text("mr"),
        merkle_path_hex: text("01"),
        raw_tx_hex: None,
        created_at: at(1),
        updated_at: at(2),
    };
    assert_eq!(row.merkle_path_source(), Ok(BlobSource::Inline(vec![1])));
    assert_eq!(
        row.raw_tx_source(),
        Ok(BlobSource::Store {
            table: "proven_txs".to_string(),
            id: 3,
            column: "raw_tx".to_string()
        })
    );
    let p = proven_tx_of(row, Some(vec![1]), None);
    assert_eq!((p.proven_tx_id, p.height, p.index), (3, 800000, 0));
    assert_eq!((p.merkle_path, p.raw_tx), (vec![1], vec![]));
}

#[test]
fn a_request_comes_from_its_row() {
    let row = ProvenTxReqSyncRow {
        proven_tx_req_id: Some(5),
        proven_tx_id: None,
        txid: text("aa"),
        status: "unmined".to_string(),
        attempts: Some(2),
        history: None,
        notified: Some(true),
        notify: None,
        raw_tx_hex: text("09"),
        input_beef_hex: text("xx"),
        batch: text("b"),
        created_at: at(1),
        updated_at: at(2),
    };
    assert_eq!(row.raw_tx_source(), Ok(BlobSource::Inline(vec![9])));
    assert!(row.input_beef_source().is_err());
    let req = proven_tx_req_of(row, Some(vec![9]), None);
    assert_eq!((req.history.as_str(), req.notify.as_str()), ("{}", "{}"));
    assert_eq!((req.attempts, req.notified), (2, true));
    assert_eq!((req.raw_tx, req.input_beef), (Some(vec![9]), None));
}

#[test]
fn a_transaction_comes_from_its_row() {
    let row = TransactionSyncRow {
        transaction_id: Some(21),
        user_id: None,
        txid: None,
        status: "completed".to_string(),
        reference: text("ref"),
        description: None,
        satoshis: Some(-5),
        version: Some(1),
        lock_time: None,
        raw_tx_hex: None,
        input_beef_hex: None,
        is_outgoing: Some(true),
        proof_txid: text("aa"),
        created_at: at(1),
        updated_at: at(2),
    };
    assert!(matches!(row.raw_tx_source(), Ok(BlobSource::Store { id: 21, .. })));
    assert!(matches!(row.input_beef_source(), Ok(BlobSource::Store { id: 21, .. })));
    let t = transaction_of(row, 9, None, Some(vec![4]));
    assert_eq!((t.user_id, t.txid, t.satoshis, t.version, t.lock_time), (9, None, -5, 1, 0));
    assert!(t.is_outgoing);
    assert_eq!(t.proof_txid, text("aa"));
    assert_eq!(t.input_beef, Some(vec![4]));
}

#[test]
fn certificates_and_commissions_come_from_rows() {
    let row = CertificateSyncRow {
        certificate_id: Some(41),
        user_id: Some(4),
        cert_type: text("ct"),
        serial_number: text("sn"),
        certifier: None,
        subject: text("sj"),
        verifier: None,
        revocation_outpoint: text("ro"),
        signature: text("sg"),
        created_at: at(1),
        updated_at: at(2),
    };
    let c = certificate_of(row, 9);
    assert_eq!((c.certificate_id, c.user_id, c.certifier.as_str()), (41, 4, ""));
    let row = CertificateFieldSyncRow {
        certificate_field_id: Some(42),
        certificate_id: Some(41),
        user_id: None,
        field_name: text("fn"),
        field_value: text("fv"),
        master_key: None,
        created_at: at(1),
        updated_at: at(2),
    };
    let f = certificate_field_of(row, 9);
    assert_eq!((f.certificate_id, f.user_id, f.field_value.as_str()), (41, 9, "fv"));
    let row = CommissionSyncRow {
        commission_id: Some(51),
        user_id: None,
        transaction_id: Some(21),
        satoshis: Some(12),
        locking_script_hex: text("05"),
        key_offset: text("ko"),
        is_redeemed: None,
        created_at: at(1),
        updated_at: at(2),
    };
    assert_eq!(row.locking_script_source(), Ok(BlobSource::Inline(vec![5])));
    let c = commission_of(row, 9, None);
    assert_eq!((c.transaction_id, c.satoshis, c.is_redeemed), (21, 12, false));
    assert_eq!(c.payer_locking_script, Vec::<u8>::new());
}
