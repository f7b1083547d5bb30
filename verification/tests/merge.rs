//! What the merges do to a row, on small tables.

use std::collections::HashMap;
use wallet_infra::sql::expr::{Assign, Cond, Guard, Pick, Subject};
use wallet_infra::sql::names::Column;
use wallet_infra::sql::query::Param;
use wallet_infra::storage::sequential::{output_updating, transaction_updating};
use wallet_infra::storage::upsert::{
    basket_upsert, output_upsert, proven_tx_req_upsert, transaction_upsert, tx_label_map_upsert,
};
use wallet_infra::time::Timestamp;

type Row = HashMap<&'static str, Param>;

fn at(seconds: i64) -> Param {
    Param::Time(Timestamp { seconds, nanos: 0 })
}

fn text(s: &str) -> Param {
    Param::Text(s.to_string())
}

fn copy(p: &Param) -> Param {
    match p {
        Param::Null => Param::Null,
        Param::Int(n) => Param::Int(*n),
        Param::Text(s) => Param::Text(s.clone()),
        Param::Blob(b) => Param::Blob(b.clone()),
        Param::Time(t) => Param::Time(*t),
    }
}

fn row(fields: Vec<(Column, Param)>) -> Row {
    fields.into_iter().map(|(c, v)| (c.name(), v)).collect()
}

fn of(row: &Row, column: Column) -> Param {
    row.get(column.name()).map_or(Param::Null, copy)
}

fn holds(cond: &Cond, own: Column, stored: &Row, incoming: &Row, default: Option<i64>) -> bool {
    let subject = |s: &Subject| match s {
        Subject::Own => own,
        Subject::Of(c) => *c,
    };
    match cond {
        Cond::Newer => match (of(incoming, Column::UpdatedAt), of(stored, Column::UpdatedAt)) {
            (Param::Time(a), Param::Time(b)) => a.is_after(&b),
            _ => false,
        },
        Cond::StoredEmpty(s) => match of(stored, subject(s)) {
            Param::Null => true,
            Param::Blob(b) => b.is_empty(),
            Param::Text(t) => t.is_empty(),
            _ => false,
        },
        Cond::StoredNull(s) => of(stored, subject(s)) == Param::Null,
        Cond::StoredNotNull(s) => of(stored, subject(s)) != Param::Null,
        Cond::IncomingNotNull(s) => of(incoming, subject(s)) != Param::Null,
        Cond::StoredZero(s) => of(stored, subject(s)) == Param::Int(0),
        Cond::StoredOne(s) => of(stored, subject(s)) == Param::Int(1),
        Cond::InDefaultBasket => {
            default.is_some_and(|id| of(stored, Column::BasketId) == Param::Int(id))
        }
    }
}

fn passes(guard: &Guard, own: Column, stored: &Row, incoming: &Row, default: Option<i64>) -> bool {
    holds(&guard.first, own, stored, incoming, default)
        && guard.second.as_ref().is_none_or(|c| holds(c, own, stored, incoming, default))
}

fn merged(sets: &[Assign], stored: &Row, incoming: &Row, default: Option<i64>) -> Row {
    let mut after: Row = stored.iter().map(|(c, v)| (*c, copy(v))).collect();
    for set in sets {
        let pick = set
            .arms
            .iter()
            .find(|arm| passes(&arm.when, set.column, stored, incoming, default))
            .map_or(set.otherwise, |arm| arm.yields);
        let value = match pick {
            Pick::Stored => of(stored, set.column),
            Pick::Incoming => of(incoming, set.column),
            Pick::Zero => Param::Int(0),
            Pick::One => Param::Int(1),
        };
        after.insert(set.column.name(), value);
    }
    after
}

fn output(updated: i64, spendable: i64, spent_by: Param) -> Row {
    row(vec![
        (Column::UserId, Param::Int(1)),
        (Column::TransactionId, Param::Int(70)),
        (Column::BasketId, Param::Int(7)),
        (Column::Satoshis, Param::Int(100 * updated)),
        (Column::LockingScript, Param::Blob(vec![updated as u8])),
        (Column::ScriptLength, Param::Int(updated)),
        (Column::ScriptOffset, Param::Int(updated)),
        (Column::Type, text("P2PKH")),
        (Column::Spendable, Param::Int(spendable)),
        (Column::Change, Param::Int(spendable)),
        (Column::DerivationPrefix, Param::Null),
        (Column::DerivationSuffix, Param::Null),
        (Column::SenderIdentityKey, Param::Null),
        (Column::CustomInstructions, Param::Null),
        (Column::SpentBy, spent_by),
        (Column::UpdatedAt, at(updated)),
    ])
}

#[test]
fn the_newer_basket_wins() {
    let sets = basket_upsert().sets;
    let basket = |n: i64, t: i64| {
        row(vec![
            (Column::NumberOfDesiredUtxos, Param::Int(n)),
            (Column::MinimumDesiredUtxoValue, Param::Int(n)),
            (Column::UpdatedAt, at(t)),
        ])
    };
    assert_eq!(merged(&sets, &basket(1, 5), &basket(2, 6), None), basket(2, 6));
    assert_eq!(merged(&sets, &basket(1, 5), &basket(2, 5), None), basket(1, 5));
    assert_eq!(merged(&sets, &basket(1, 5), &basket(2, 4), None), basket(1, 5));
}

#[test]
fn merging_a_row_again_changes_nothing() {
    let sets = output_upsert().sets;
    let once = merged(&sets, &output(1, 0, Param::Null), &output(2, 1, Param::Int(9)), None);
    assert_eq!(merged(&sets, &once, &output(2, 1, Param::Int(9)), None), once);
}

#[test]
fn a_stale_output_changes_nothing_but_a_spend() {
    let sets = output_upsert().sets;
    let stored = output(5, 1, Param::Null);
    assert_eq!(merged(&sets, &stored, &output(4, 0, Param::Null), None), stored);
    let after = merged(&sets, &stored, &output(4, 0, Param::Int(9)), None);
    assert_eq!(of(&after, Column::SpentBy), Param::Int(9));
    assert_eq!(of(&after, Column::Spendable), Param::Int(0));
    assert_eq!(of(&after, Column::Satoshis), Param::Int(500));
    assert_eq!(of(&after, Column::UpdatedAt), at(5));
}

#[test]
fn an_output_stays_spendable_and_change() {
    let sets = output_upsert().sets;
    let after = merged(&sets, &output(5, 1, Param::Null), &output(6, 0, Param::Null), None);
    assert_eq!(of(&after, Column::Spendable), Param::Int(1));
    assert_eq!(of(&after, Column::Change), Param::Int(1));
    let after = merged(&sets, &output(5, 0, Param::Null), &output(6, 1, Param::Null), None);
    assert_eq!(of(&after, Column::Spendable), Param::Int(1));
}

#[test]
fn a_spend_is_never_taken_back() {
    let sets = output_upsert().sets;
    let after = merged(&sets, &output(5, 0, Param::Int(9)), &output(6, 1, Param::Null), None);
    assert_eq!(of(&after, Column::SpentBy), Param::Int(9));
    assert_eq!(of(&after, Column::Spendable), Param::Int(0));
    let after = merged(&sets, &output(5, 0, Param::Int(9)), &output(6, 1, Param::Int(8)), None);
    assert_eq!(of(&after, Column::SpentBy), Param::Int(9));
}

#[test]
fn an_output_stays_in_the_default_basket() {
    let sets = output_upsert().sets;
    let mut incoming = output(6, 1, Param::Null);
    incoming.insert(Column::BasketId.name(), Param::Int(8));
    let stored = output(5, 1, Param::Null);
    assert_eq!(
        of(&merged(&sets, &stored, &incoming, Some(7)), Column::BasketId),
        Param::Int(7)
    );
    assert_eq!(
        of(&merged(&sets, &stored, &incoming, Some(6)), Column::BasketId),
        Param::Int(8)
    );
}

#[test]
fn a_filled_script_stays() {
    let sets = output_upsert().sets;
    let after = merged(&sets, &output(5, 1, Param::Null), &output(6, 1, Param::Null), None);
    assert_eq!(of(&after, Column::LockingScript), Param::Blob(vec![5]));
    assert_eq!(of(&after, Column::ScriptLength), Param::Int(5));
    assert_eq!(of(&after, Column::Satoshis), Param::Int(500));
    let mut bare = output(5, 1, Param::Null);
    bare.insert(Column::LockingScript.name(), Param::Null);
    let after = merged(&sets, &bare, &output(6, 1, Param::Null), None);
    assert_eq!(of(&after, Column::LockingScript), Param::Blob(vec![6]));
    assert_eq!(of(&after, Column::ScriptLength), Param::Int(6));
}

#[test]
fn a_blob_of_a_request_is_only_filled() {
    let sets = proven_tx_req_upsert().sets;
    let request = |beef: Param, t: i64| {
        row(vec![(Column::InputBeef, beef), (Column::UpdatedAt, at(t))])
    };
    let blob = |b: u8| Param::Blob(vec![b]);
    let beef = |stored: Param, t: i64| {
        of(&merged(&sets, &request(stored, 5), &request(blob(2), t), None), Column::InputBeef)
    };
    assert_eq!(beef(blob(1), 6), blob(1));
    assert_eq!(beef(Param::Null, 6), blob(2));
    assert_eq!(beef(Param::Blob(vec![]), 6), blob(2));
    assert_eq!(beef(Param::Null, 5), Param::Null);
}

#[test]
fn a_link_to_a_proof_is_never_cleared() {
    let sets = transaction_upsert().sets;
    let linked = |proof: Param, t: i64| {
        row(vec![(Column::ProvenTxId, proof), (Column::UpdatedAt, at(t))])
    };
    let proof = |stored: Param, incoming: Param| {
        of(&merged(&sets, &linked(stored, 5), &linked(incoming, 6), None), Column::ProvenTxId)
    };
    assert_eq!(proof(Param::Int(3), Param::Null), Param::Int(3));
    assert_eq!(proof(Param::Int(3), Param::Int(4)), Param::Int(4));
    assert_eq!(proof(Param::Null, Param::Int(4)), Param::Int(4));
    assert!(transaction_updating().sets.iter().all(|set| set.column != Column::ProvenTxId));
}

#[test]
fn a_newer_label_map_is_put_back() {
    let sets = tx_label_map_upsert().sets;
    let map = |deleted: i64, t: i64| {
        row(vec![(Column::IsDeleted, Param::Int(deleted)), (Column::UpdatedAt, at(t))])
    };
    assert_eq!(merged(&sets, &map(1, 5), &map(0, 6), None), map(0, 6));
    assert_eq!(merged(&sets, &map(1, 5), &map(0, 4), None), map(1, 5));
}

#[test]
fn an_updated_output_stays_spendable() {
    let sets = output_updating().sets;
    let after = merged(&sets, &output(5, 1, Param::Null), &output(6, 0, Param::Null), Some(7));
    assert_eq!(of(&after, Column::Spendable), Param::Int(1));
    assert_eq!(of(&after, Column::Change), Param::Int(1));
    assert_eq!(of(&after, Column::BasketId), Param::Int(7));
    assert_eq!(of(&after, Column::Satoshis), Param::Int(500));
    assert_eq!(of(&after, Column::UpdatedAt), at(6));
}
