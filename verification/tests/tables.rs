//! Rows that go into a table and come back.

use std::collections::HashMap;
use wallet_infra::codec::hex_encode;
use wallet_infra::entities::{
    TableCommission,
    TableOutput,
    TableOutputBasket,
    TableProvenTx,
    TableTransaction,
};
use wallet_infra::sql::expr::Pick;
use wallet_infra::sql::names::Column;
use wallet_infra::sql::plan::{Insert, Slot, Upsert};
use wallet_infra::sql::query::{Param, Query};
use wallet_infra::storage::blob_column::BlobSource;
use wallet_infra::storage::fetch::{
    basket_of, commission_of, output_of, proven_tx_of, transaction_of, BasketSyncRow,
    CommissionSyncRow, OutputSyncRow, ProvenTxSyncRow, TransactionSyncRow,
};
use wallet_infra::storage::upsert::{
    basket_upsert, build_upsert_basket, build_upsert_commission, build_upsert_output,
    build_upsert_proven_tx, build_upsert_transaction, commission_upsert, output_upsert,
    proven_tx_upsert, transaction_upsert,
};
use wallet_infra::time::Timestamp;

fn at(seconds: i64) -> Timestamp {
    Timestamp { seconds, nanos: 0 }
}

fn text(s: &str) -> Option<String> {
    Some(s.to_string())
}

fn basket() -> TableOutputBasket {
    TableOutputBasket {
        basket_id: 7,
        user_id: 99,
        name: "default".to_string(),
        number_of_desired_utxos: 6,
        minimum_desired_utxo_value: 10000,
        created_at: at(1),
        updated_at: at(2),
    }
}

fn proven_tx() -> TableProvenTx {
    TableProvenTx {
        proven_tx_id: 3,
        txid: "aa".to_string(),
        height: 800000,
        index: 4,
        block_hash: "bh".to_string(),
        merkle_root: "mr".to_string(),
        merkle_path: vec![1, 2],
        raw_tx: vec![3, 4, 5],
        created_at: at(1),
        updated_at: at(2),
    }
}

fn transaction() -> TableTransaction {
    TableTransaction {
        transaction_id: 21,
        user_id: 99,
        txid: text("bb"),
        status: "completed".to_string(),
        reference: "ref".to_string(),
        description: "pay".to_string(),
        satoshis: -5,
        version: 1,
        lock_time: 0,
        raw_tx: Some(vec![1; 4097]),
        input_beef: None,
        is_outgoing: true,
        proof_txid: text("aa"),
        created_at: at(1),
        updated_at: at(2),
    }
}

fn output() -> TableOutput {
    TableOutput {
        output_id: 31,
        user_id: 99,
        transaction_id: 21,
        basket_id: Some(7),
        basket_name: text("default"),
        txid: "bb".to_string(),
        vout: 1,
        satoshis: 1000,
        locking_script: Some(vec![0x76]),
        script_length: 1,
        script_offset: 9,
        output_type: "P2PKH".to_string(),
        provided_by: "".to_string(),
        purpose: None,
        output_description: None,
        spent_by: Some(21),
        spent_by_reference: text("ref"),
        sequence_number: None,
        spending_description: None,
        spendable: true,
        change: false,
        derivation_prefix: text("p"),
        derivation_suffix: None,
        sender_identity_key: None,
        custom_instructions: text("ci"),
        created_at: at(1),
        updated_at: at(2),
    }
}

fn commission() -> TableCommission {
    TableCommission {
        commission_id: 51,
        user_id: 99,
        transaction_id: 21,
        satoshis: 12,
        payer_locking_script: vec![5],
        key_offset: "ko".to_string(),
        is_redeemed: false,
        created_at: at(1),
        updated_at: at(2),
    }
}

type Row = HashMap<&'static str, Param>;

fn copy(p: &Param) -> Param {
    match p {
        Param::Null => Param::Null,
        Param::Int(n) => Param::Int(*n),
        Param::Text(s) => Param::Text(s.clone()),
        Param::Blob(b) => Param::Blob(b.clone()),
        Param::Time(t) => Param::Time(*t),
    }
}

fn inserted(insert: &Insert, query: Query) -> Row {
    let mut values = query.params.into_iter();
    insert
        .columns
        .iter()
        .map(|(column, slot)| {
            let value = match slot {
                Slot::Bind => values.next().unwrap(),
                Slot::Zero => Param::Int(0),
                Slot::Null => Param::Null,
            };
            (column.name(), value)
        })
        .collect()
}

fn whole(row: &Row, column: Column) -> Option<i64> {
    match row.get(column.name()) {
        Some(Param::Int(n)) => Some(*n),
        _ => None,
    }
}

fn string(row: &Row, column: Column) -> Option<String> {
    match row.get(column.name()) {
        Some(Param::Text(s)) => Some(s.clone()),
        _ => None,
    }
}

fn hex(row: &Row, column: Column) -> Option<String> {
    match row.get(column.name()) {
        Some(Param::Blob(b)) => Some(hex_encode(b)),
        _ => None,
    }
}

fn instant(row: &Row, column: Column) -> Timestamp {
    match row.get(column.name()) {
        Some(Param::Time(t)) => *t,
        other => panic!("unexpected instant {other:?}"),
    }
}

fn flag(row: &Row, column: Column) -> Option<bool> {
    whole(row, column).map(|n| n != 0)
}

fn bytes(source: BlobSource) -> Option<Vec<u8>> {
    match source {
        BlobSource::Inline(b) => Some(b),
        _ => None,
    }
}

#[test]
fn a_merged_basket_is_read_back() {
    let row = inserted(&basket_upsert().insert, build_upsert_basket(99, &basket()));
    let read = BasketSyncRow {
        basket_id: Some(7),
        user_id: whole(&row, Column::UserId),
        name: string(&row, Column::Name),
        number_of_desired_utxos: whole(&row, Column::NumberOfDesiredUtxos),
        minimum_desired_utxo_value: whole(&row, Column::MinimumDesiredUtxoValue),
        created_at: instant(&row, Column::CreatedAt),
        updated_at: instant(&row, Column::UpdatedAt),
    };
    assert_eq!(basket_of(read, 1), basket());
}

#[test]
fn a_merged_proven_transaction_is_read_back() {
    let row = inserted(&proven_tx_upsert().insert, build_upsert_proven_tx(&proven_tx()));
    let read = ProvenTxSyncRow {
        proven_tx_id: Some(3),
        txid: string(&row, Column::Txid),
        height: whole(&row, Column::Height),
        idx: whole(&row, Column::Idx),
        block_hash: string(&row, Column::BlockHash),
        merkle_root: string(&row, Column::MerkleRoot),
        merkle_path_hex: hex(&row, Column::MerklePath),
        raw_tx_hex: hex(&row, Column::RawTx),
        created_at: instant(&row, Column::CreatedAt),
        updated_at: instant(&row, Column::UpdatedAt),
    };
    let path = bytes(read.merkle_path_source().unwrap());
    let raw = bytes(read.raw_tx_source().unwrap());
    assert_eq!(proven_tx_of(read, path, raw), proven_tx());
}

#[test]
fn a_merged_transaction_is_read_back() {
    let mut sent = transaction();
    sent.raw_tx = Some(vec![1, 2, 3]);
    let row =
        inserted(&transaction_upsert().insert, build_upsert_transaction(99, &sent, Some(3)));
    assert_eq!(whole(&row, Column::ProvenTxId), Some(3));
    let read = TransactionSyncRow {
        transaction_id: Some(21),
        user_id: whole(&row, Column::UserId),
        txid: string(&row, Column::Txid),
        status: string(&row, Column::Status).unwrap(),
        reference: string(&row, Column::Reference),
        description: string(&row, Column::Description),
        satoshis: whole(&row, Column::Satoshis),
        version: whole(&row, Column::Version),
        lock_time: whole(&row, Column::LockTime),
        raw_tx_hex: hex(&row, Column::RawTx),
        input_beef_hex: hex(&row, Column::InputBeef),
        is_outgoing: flag(&row, Column::IsOutgoing),
        proof_txid: text("aa"),
        created_at: instant(&row, Column::CreatedAt),
        updated_at: instant(&row, Column::UpdatedAt),
    };
    let raw = bytes(read.raw_tx_source().unwrap());
    assert_eq!(transaction_of(read, 1, raw, None), sent);
}

#[test]
fn a_merged_output_is_read_back() {
    let mut sent = output();
    sent.provided_by = "storage".to_string();
    sent.purpose = text("change");
    sent.basket_name = None;
    let query = build_upsert_output(99, &sent, 21, Some(7), Some(21));
    let row = inserted(&output_upsert().insert, query);
    let read = OutputSyncRow {
        output_id: Some(31),
        user_id: whole(&row, Column::UserId),
        transaction_id: whole(&row, Column::TransactionId),
        basket_id: whole(&row, Column::BasketId),
        txid: string(&row, Column::Txid),
        vout: whole(&row, Column::Vout),
        satoshis: whole(&row, Column::Satoshis),
        locking_script_hex: hex(&row, Column::LockingScript),
        script_length: whole(&row, Column::ScriptLength),
        script_offset: whole(&row, Column::ScriptOffset),
        output_type: string(&row, Column::Type),
        provided_by: string(&row, Column::ProvidedBy),
        purpose: string(&row, Column::Purpose),
        output_description: None,
        spent_by: whole(&row, Column::SpentBy),
        spent_by_reference: text("ref"),
        sequence_number: None,
        spending_description: None,
        spendable: flag(&row, Column::Spendable),
        change: flag(&row, Column::Change),
        derivation_prefix: string(&row, Column::DerivationPrefix),
        derivation_suffix: string(&row, Column::DerivationSuffix),
        sender_identity_key: string(&row, Column::SenderIdentityKey),
        custom_instructions: string(&row, Column::CustomInstructions),
        created_at: instant(&row, Column::CreatedAt),
        updated_at: instant(&row, Column::UpdatedAt),
    };
    let script = bytes(read.locking_script_source().unwrap());
    assert_eq!(output_of(read, 1, script), sent);
}

#[test]
fn a_merged_commission_is_read_back() {
    let query = build_upsert_commission(99, &commission(), 21);
    let row = inserted(&commission_upsert().insert, query);
    let read = CommissionSyncRow {
        commission_id: Some(51),
        user_id: whole(&row, Column::UserId),
        transaction_id: whole(&row, Column::TransactionId),
        satoshis: whole(&row, Column::Satoshis),
        locking_script_hex: hex(&row, Column::LockingScript),
        key_offset: string(&row, Column::KeyOffset),
        is_redeemed: flag(&row, Column::IsRedeemed),
        created_at: instant(&row, Column::CreatedAt),
        updated_at: instant(&row, Column::UpdatedAt),
    };
    let script = bytes(read.locking_script_source().unwrap());
    assert_eq!(commission_of(read, 1, script), commission());
}

/// Pushes a row into a table, where every assignment follows the newer row.
fn push(plan: &Upsert, table: &mut Vec<Row>, incoming: Row) -> usize {
    let hit = table.iter().position(|row| {
        plan.key.iter().all(|c| row[c.name()] == incoming[c.name()])
    });
    let Some(id) = hit else {
        table.push(incoming);
        return table.len() - 1;
    };
    let newer = match (&incoming["updated_at"], &table[id]["updated_at"]) {
        (Param::Time(a), Param::Time(b)) => a.is_after(b),
        _ => false,
    };
    for set in &plan.sets {
        assert_eq!(set.otherwise, Pick::Stored);
        if newer {
            let value = copy(&incoming[set.column.name()]);
            table[id].insert(set.column.name(), value);
        }
    }
    id
}

fn snapshot(table: &[Row]) -> Vec<Row> {
    table.iter().map(|row| row.iter().map(|(c, v)| (*c, copy(v))).collect()).collect()
}

#[test]
fn a_row_pushed_again_hits_the_same_row() {
    let plan = basket_upsert();
    let row = |name: &str, n: i32, t: i64| {
        let mut b = basket();
        b.name = name.to_string();
        b.number_of_desired_utxos = n;
        b.updated_at = at(t);
        inserted(&basket_upsert().insert, build_upsert_basket(1, &b))
    };
    let mut table: Vec<Row> = vec![];
    assert_eq!(push(&plan, &mut table, row("a", 1, 5)), 0);
    assert_eq!(push(&plan, &mut table, row("b", 2, 5)), 1);
    let before = snapshot(&table);
    assert_eq!(push(&plan, &mut table, row("a", 1, 5)), 0);
    assert_eq!(table, before);
    assert_eq!(push(&plan, &mut table, row("a", 3, 6)), 0);
    let once = snapshot(&table);
    assert_ne!(once, before);
    assert_eq!(once[1], before[1]);
    assert_eq!(push(&plan, &mut table, row("a", 3, 6)), 0);
    assert_eq!(table, once);
}
