//! What a merge asks of the store besides its statements.

use wallet_infra::entities::TableUser;
use wallet_infra::error::Error;
use wallet_infra::sql::query::Param;
use wallet_infra::storage::lookup::{
    absorb, load_basket_name_map, load_id_map_by_txid, load_tx_id_by_reference, merge_user,
    read_user_updated, returned_ids, KeyedId,
};
use wallet_infra::text::TextMap;
use wallet_infra::time::Timestamp;

fn at(seconds: i64) -> Timestamp {
    Timestamp { seconds, nanos: 0 }
}

fn text(s: &str) -> Param {
    Param::Text(s.to_string())
}

fn keyed(key: Option<&str>, id: Option<i64>) -> KeyedId {
    KeyedId { key: key.map(|k| k.to_string()), id }
}

#[test]
fn keys_are_sorted_and_asked_for_once() {
    let txids = ["b", "a", "b", "ab"].map(|t| t.to_string()).to_vec();
    let list = load_id_map_by_txid("proven_txs", "proven_tx_id", None, &txids);
    assert_eq!(list.len(), 1);
    assert_eq!(
        list[0].sql,
        "SELECT txid AS k, proven_tx_id AS id FROM proven_txs WHERE txid IN (?, ?, ?)"
    );
    assert_eq!(list[0].params, vec![text("a"), text("ab"), text("b")]);

    let list = load_id_map_by_txid("transactions", "transaction_id", Some(9), &txids);
    assert_eq!(
        list[0].sql,
        "SELECT txid AS k, transaction_id AS id FROM transactions \
         WHERE user_id = ? AND txid IN (?, ?, ?)"
    );
    assert_eq!(list[0].params, vec![Param::Int(9), text("a"), text("ab"), text("b")]);
}

#[test]
fn no_keys_no_statements() {
    assert!(load_id_map_by_txid("proven_txs", "proven_tx_id", None, &vec![]).is_empty());
    assert!(load_tx_id_by_reference(9, &vec![]).is_empty());
}

#[test]
fn a_statement_asks_for_five_hundred_keys_at_most() {
    let keys: Vec<String> = (0..1001).map(|n| format!("{n:04}")).collect();
    let list = load_tx_id_by_reference(9, &keys);
    let counts: Vec<usize> = list.iter().map(|q| q.params.len() - 1).collect();
    assert_eq!(counts, vec![500, 500, 1]);
    for (i, key) in keys.iter().enumerate() {
        assert_eq!(list[i / 500].params[1 + i % 500], text(key));
    }
    assert_eq!(
        list[2].sql,
        "SELECT reference AS k, transaction_id AS id FROM transactions \
         WHERE user_id = ? AND reference IN (?)"
    );
    let even: Vec<String> = keys[..1000].to_vec();
    assert_eq!(load_tx_id_by_reference(9, &even).len(), 2);
}

#[test]
fn baskets_are_found_by_name() {
    let q = load_basket_name_map(9);
    assert_eq!(q.sql, "SELECT name, basket_id AS id FROM output_baskets WHERE user_id = ?");
    assert_eq!(q.params, vec![Param::Int(9)]);
}

#[test]
fn rows_are_folded_into_a_map() {
    let mut map: TextMap<i64> = TextMap::new();
    absorb(
        &mut map,
        &vec![
            keyed(Some("a"), Some(1)),
            keyed(None, Some(2)),
            keyed(Some("b"), None),
            keyed(Some("c"), Some(3)),
            keyed(Some("a"), Some(4)),
        ],
    );
    assert_eq!(map.get("a"), Some(4));
    assert_eq!(map.get("b"), None);
    assert_eq!(map.get("c"), Some(3));
}

#[test]
fn a_batch_returns_an_id_for_each_statement() {
    assert_eq!(returned_ids(&vec![]), Ok(vec![]));
    assert_eq!(
        returned_ids(&vec![vec![Some(4), Some(9)], vec![Some(5)]]),
        Ok(vec![4, 5])
    );
    let none = Err(Error::DatabaseError("upsert RETURNING produced no id".to_string()));
    assert_eq!(returned_ids(&vec![vec![Some(4)], vec![]]), none);
    assert_eq!(returned_ids(&vec![vec![None, Some(1)]]), none);
}

fn user(active_storage: Option<&str>) -> TableUser {
    TableUser {
        user_id: 77,
        identity_key: "02ab".to_string(),
        active_storage: active_storage.map(|s| s.to_string()),
        created_at: at(1),
        updated_at: at(5),
    }
}

#[test]
fn a_newer_user_record_is_taken_over() {
    let q = read_user_updated(9);
    assert_eq!(q.sql, "SELECT updated_at FROM users WHERE user_id = ?");
    assert_eq!(q.params, vec![Param::Int(9)]);

    for current in [None, Some(at(4))] {
        let q = merge_user(9, &user(Some("store")), current).unwrap();
        assert_eq!(
            q.sql,
            "UPDATE users SET active_storage = ?, updated_at = ? WHERE user_id = ?"
        );
        assert_eq!(q.params, vec![text("store"), Param::Time(at(5)), Param::Int(9)]);
    }
    assert!(merge_user(9, &user(Some("store")), Some(at(5))).is_none());
    assert!(merge_user(9, &user(Some("store")), Some(at(6))).is_none());
    assert!(merge_user(9, &user(None), None).is_none());
}
