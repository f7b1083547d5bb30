//! What the merges do to a row: the newer row wins, a stale one changes nothing, and an
//! output stays as fundable as it was.

use crate::entities::TableOutput;
use crate::sql::expr::{at, is_empty_value, newer, Arm, AssignView, Cond, Guard, Merge, Pick, Row};
use crate::sql::names::Column;
use crate::sql::plan::{fills_blob, newer_wins, Slot, UpdateView, UpsertView};
use crate::sql::query::SqlValue;
use crate::storage::sequential::{
    basket_update, certificate_field_update, certificate_update, commission_update, output_update,
    output_tag_map_update, output_tag_update, proof_link, proven_tx_req_update, proven_tx_update,
    transaction_update, tx_label_map_update, tx_label_update,
};
use crate::storage::upsert::{
    basket_merge, certificate_field_merge, certificate_merge, commission_merge, output_merge,
    output_query, output_tag_map_merge, output_tag_merge, proven_tx_merge, proven_tx_req_merge,
    transaction_merge, tx_label_map_merge, tx_label_merge,
};
use vstd::prelude::*;

verus! {

/// The value that the first `n` assignments leave in a column.
pub open spec fn assigned(m: Merge, sets: Seq<AssignView>, n: int, column: Column) -> SqlValue
    decreases n,
{
    if n <= 0 {
        at(m.stored, column)
    } else if sets[n - 1].column == column {
        m.chosen(column, sets[n - 1].arms, sets[n - 1].otherwise)
    } else {
        assigned(m, sets, n - 1, column)
    }
}

proof fn assigned_in_prefix(m: Merge, a: Seq<AssignView>, b: Seq<AssignView>, n: int, column: Column)
    requires
        n <= a.len(),
        n <= b.len(),
        forall|i: int| 0 <= i < n ==> a[i] == b[i],
    ensures
        assigned(m, a, n, column) == assigned(m, b, n, column),
    decreases n,
{
    if n > 0 {
        assigned_in_prefix(m, a, b, n - 1, column);
    }
}

proof fn merged_reads(m: Merge, sets: Seq<AssignView>, column: Column)
    ensures
        at(m.merged(sets), column) == assigned(m, sets, sets.len() as int, column),
    decreases sets.len(),
{
    if sets.len() > 0 {
        merged_reads(m, sets.drop_last(), column);
        assigned_in_prefix(m, sets, sets.drop_last(), sets.len() - 1, column);
    }
}

/// Whether a guard only passes for a newer row.
pub open spec fn requires_newer(guard: Guard) -> bool {
    guard.first == Cond::Newer || guard.second == Some(Cond::Newer)
}

/// Whether an assignment keeps the stored value for every row that is not newer.
pub open spec fn moves_only_when_newer(set: AssignView) -> bool {
    set.otherwise == Pick::Stored && forall|i: int|
        0 <= i < set.arms.len() ==> (#[trigger] set.arms[i]).yields == Pick::Stored
            || requires_newer(set.arms[i].when)
}

proof fn stale_choice(m: Merge, own: Column, arms: Seq<Arm>)
    requires
        !newer(m.stored, m.incoming),
        forall|i: int|
            0 <= i < arms.len() ==> (#[trigger] arms[i]).yields == Pick::Stored || requires_newer(
                arms[i].when,
            ),
    ensures
        m.chosen(own, arms, Pick::Stored) == at(m.stored, own),
    decreases arms.len(),
{
    if arms.len() > 0 {
        assert forall|i: int| 0 <= i < arms.drop_first().len() implies (
        #[trigger] arms.drop_first()[i]).yields == Pick::Stored || requires_newer(
            arms.drop_first()[i].when,
        ) by {
            assert(arms.drop_first()[i] == arms[i + 1]);
        }
        stale_choice(m, own, arms.drop_first());
    }
}

proof fn stale_prefix(m: Merge, sets: Seq<AssignView>, n: int, column: Column)
    requires
        !newer(m.stored, m.incoming),
        n <= sets.len(),
        forall|i: int| 0 <= i < sets.len() ==> moves_only_when_newer(#[trigger] sets[i]),
    ensures
        assigned(m, sets, n, column) == at(m.stored, column),
    decreases n,
{
    if n > 0 {
        assert(moves_only_when_newer(sets[n - 1]));
        stale_choice(m, column, sets[n - 1].arms);
        stale_prefix(m, sets, n - 1, column);
    }
}

/// The merges in which nothing moves but by a newer row: all but that of outputs.
pub open spec fn newer_row_merges() -> Seq<UpsertView> {
    seq![
        basket_merge(),
        proven_tx_merge(),
        proven_tx_req_merge(),
        tx_label_merge(),
        output_tag_merge(),
        transaction_merge(),
        tx_label_map_merge(),
        output_tag_map_merge(),
        certificate_merge(),
        certificate_field_merge(),
        commission_merge(),
    ]
}

proof fn newer_row_merges_move_only_when_newer(plan: UpsertView, k: int)
    requires
        newer_row_merges().contains(plan),
        0 <= k < plan.sets.len(),
    ensures
        moves_only_when_newer(plan.sets[k]),
{
}

/// A row that is not newer than the stored one changes nothing in it.
pub proof fn a_stale_row_changes_nothing(m: Merge, plan: UpsertView, column: Column)
    requires
        newer_row_merges().contains(plan),
        !newer(m.stored, m.incoming),
    ensures
        at(m.merged(plan.sets), column) == at(m.stored, column),
{
    assert forall|i: int| 0 <= i < plan.sets.len() implies moves_only_when_newer(
        #[trigger] plan.sets[i],
    ) by {
        newer_row_merges_move_only_when_newer(plan, i);
    }
    merged_reads(m, plan.sets, column);
    stale_prefix(m, plan.sets, plan.sets.len() as int, column);
}

/// The last assignment of each merge is that of `updated_at`, which takes the newer one.
proof fn merged_updated_at(m: Merge, plan: UpsertView)
    requires
        newer_row_merges().contains(plan) || plan == output_merge(),
    ensures
        at(m.merged(plan.sets), Column::UpdatedAt) == (if newer(m.stored, m.incoming) {
            at(m.incoming, Column::UpdatedAt)
        } else {
            at(m.stored, Column::UpdatedAt)
        }),
{
    merged_reads(m, plan.sets, Column::UpdatedAt);
    reveal_with_fuel(Merge::chosen, 2);
}

/// The instant of the last change never goes back: after a merge it is the incoming one
/// where that is later, and the stored one else.
pub proof fn updated_at_is_the_later_one(m: Merge, plan: UpsertView)
    requires
        newer_row_merges().contains(plan) || plan == output_merge(),
    ensures
        at(m.merged(plan.sets), Column::UpdatedAt) == (if newer(m.stored, m.incoming) {
            at(m.incoming, Column::UpdatedAt)
        } else {
            at(m.stored, Column::UpdatedAt)
        }),
        !newer(m.merged(plan.sets), m.incoming),
        !newer(m.merged(plan.sets), m.stored),
{
    merged_updated_at(m, plan);
}

/// Merging the same row again changes nothing more.
pub proof fn merging_again_changes_nothing(m: Merge, plan: UpsertView, column: Column)
    requires
        newer_row_merges().contains(plan),
    ensures
        ({
            let once = m.merged(plan.sets);
            let again = Merge { stored: once, ..m };
            at(again.merged(plan.sets), column) == at(once, column)
        }),
{
    updated_at_is_the_later_one(m, plan);
    let again = Merge { stored: m.merged(plan.sets), ..m };
    a_stale_row_changes_nothing(again, plan, column);
}

/// A newer row wins: each column that follows the newer row takes the incoming value.
pub proof fn a_newer_row_wins(m: Merge, plan: UpsertView, column: Column)
    requires
        newer_row_merges().contains(plan) || plan == output_merge(),
        plan.sets.contains(newer_wins(column)),
        newer(m.stored, m.incoming),
    ensures
        at(m.merged(plan.sets), column) == at(m.incoming, column),
{
    let k = choose|k: int| 0 <= k < plan.sets.len() && plan.sets[k] == newer_wins(column);
    columns_differ(plan);
    merged_reads(m, plan.sets, column);
    last_assignment(m, plan.sets, plan.sets.len() as int, k);
    reveal_with_fuel(Merge::chosen, 2);
}

proof fn columns_differ(plan: UpsertView)
    requires
        newer_row_merges().contains(plan) || plan == output_merge(),
    ensures
        forall|i: int, j: int|
            0 <= i < j < plan.sets.len() ==> (#[trigger] plan.sets[i]).column != (
            #[trigger] plan.sets[j]).column,
{
}

/// A column that is only ever filled takes the value of a newer row where it is empty, and
/// stays as it is else.
pub proof fn a_blob_is_filled(m: Merge, plan: UpsertView, column: Column)
    requires
        newer_row_merges().contains(plan) || plan == output_merge(),
        plan.sets.contains(fills_blob(column)),
    ensures
        at(m.merged(plan.sets), column) == (if is_empty_value(at(m.stored, column)) && newer(
            m.stored,
            m.incoming,
        ) {
            at(m.incoming, column)
        } else {
            at(m.stored, column)
        }),
{
    let k = choose|k: int| 0 <= k < plan.sets.len() && plan.sets[k] == fills_blob(column);
    columns_differ(plan);
    merged_reads(m, plan.sets, column);
    last_assignment(m, plan.sets, plan.sets.len() as int, k);
    reveal_with_fuel(Merge::chosen, 2);
}

proof fn last_assignment(m: Merge, sets: Seq<AssignView>, n: int, k: int)
    requires
        0 <= k < n <= sets.len(),
        forall|i: int, j: int|
            0 <= i < j < sets.len() ==> (#[trigger] sets[i]).column != (#[trigger] sets[j]).column,
    ensures
        assigned(m, sets, n, sets[k].column) == m.chosen(
            sets[k].column,
            sets[k].arms,
            sets[k].otherwise,
        ),
    decreases n,
{
    if k < n - 1 {
        last_assignment(m, sets, n - 1, k);
    }
}

/// A blob that is there stays as it is, whatever the incoming row carries.
pub proof fn a_filled_blob_stays(m: Merge, plan: UpsertView, column: Column)
    requires
        newer_row_merges().contains(plan) || plan == output_merge(),
        plan.sets.contains(fills_blob(column)),
        !is_empty_value(at(m.stored, column)),
    ensures
        at(m.merged(plan.sets), column) == at(m.stored, column),
{
    let k = choose|k: int| 0 <= k < plan.sets.len() && plan.sets[k] == fills_blob(column);
    columns_differ(plan);
    merged_reads(m, plan.sets, column);
    last_assignment(m, plan.sets, plan.sets.len() as int, k);
    reveal_with_fuel(Merge::chosen, 2);
}

/// The blobs of requests, transactions and outputs are only ever filled.
pub proof fn blobs_are_only_filled()
    ensures
        proven_tx_req_merge().sets.contains(fills_blob(Column::InputBeef)),
        transaction_merge().sets.contains(fills_blob(Column::RawTx)),
        transaction_merge().sets.contains(fills_blob(Column::InputBeef)),
        output_merge().sets.contains(fills_blob(Column::LockingScript)),
{
    assert(proven_tx_req_merge().sets[6] == fills_blob(Column::InputBeef));
    assert(transaction_merge().sets[7] == fills_blob(Column::RawTx));
    assert(transaction_merge().sets[8] == fills_blob(Column::InputBeef));
    assert(output_merge().sets[0] == fills_blob(Column::LockingScript));
}

/// A link from a transaction to its proof is never cleared: it changes only to the link of
/// a newer row that has one.
pub proof fn a_proof_link_is_never_cleared(m: Merge)
    ensures
        ({
            let after = at(m.merged(transaction_merge().sets), Column::ProvenTxId);
            let incoming = at(m.incoming, Column::ProvenTxId);
            &&& after == (if newer(m.stored, m.incoming) && !(incoming is Null) {
                incoming
            } else {
                at(m.stored, Column::ProvenTxId)
            })
            &&& !(at(m.stored, Column::ProvenTxId) is Null) ==> !(after is Null)
        }),
{
    let plan = transaction_merge();
    columns_differ(plan);
    merged_reads(m, plan.sets, Column::ProvenTxId);
    assert(plan.sets[9].column == Column::ProvenTxId);
    last_assignment(m, plan.sets, plan.sets.len() as int, 9);
    reveal_with_fuel(Merge::chosen, 2);
}

// ---------------------------------------------------------------------------
// Outputs
// ---------------------------------------------------------------------------

/// Whether a spend of the output is known, in the store or from the incoming row.
pub open spec fn spend_known(m: Merge) -> bool {
    !(at(m.stored, Column::SpentBy) is Null) || !(at(m.incoming, Column::SpentBy) is Null)
}

/// An output is never demoted: change stays change, an output of the default basket stays
/// there, and an output that can be spent can still be spent unless a spend of it is known.
pub proof fn an_output_is_never_demoted(m: Merge)
    ensures
        ({
            let after = m.merged(output_merge().sets);
            &&& at(m.stored, Column::Change) == SqlValue::Int(1) ==> at(after, Column::Change)
                == SqlValue::Int(1)
            &&& m.holds(Column::BasketId, Cond::InDefaultBasket) ==> at(after, Column::BasketId)
                == at(m.stored, Column::BasketId)
            &&& at(m.stored, Column::Spendable) == SqlValue::Int(1) && !spend_known(m) ==> at(
                after,
                Column::Spendable,
            ) == SqlValue::Int(1)
        }),
{
    let sets = output_merge().sets;
    columns_differ(output_merge());
    merged_reads(m, sets, Column::BasketId);
    last_assignment(m, sets, 15, 2);
    merged_reads(m, sets, Column::Spendable);
    last_assignment(m, sets, 15, 8);
    merged_reads(m, sets, Column::Change);
    last_assignment(m, sets, 15, 9);
    reveal_with_fuel(Merge::chosen, 5);
}

/// A spend is recorded once and never taken back, and an output with a known spend cannot
/// be spent.
pub proof fn a_spend_only_goes_forward(m: Merge)
    ensures
        ({
            let after = m.merged(output_merge().sets);
            &&& at(after, Column::SpentBy) == (if at(m.stored, Column::SpentBy) is Null {
                at(m.incoming, Column::SpentBy)
            } else {
                at(m.stored, Column::SpentBy)
            })
            &&& spend_known(m) ==> at(after, Column::Spendable) == SqlValue::Int(0)
            &&& !(at(after, Column::SpentBy) is Null) <==> spend_known(m)
        }),
{
    let sets = output_merge().sets;
    columns_differ(output_merge());
    merged_reads(m, sets, Column::SpentBy);
    last_assignment(m, sets, 15, 7);
    merged_reads(m, sets, Column::Spendable);
    last_assignment(m, sets, 15, 8);
    reveal_with_fuel(Merge::chosen, 5);
}

/// What an output has does not change: satoshis that are not zero, a locking script with
/// its place, the keys of its derivation, and what it was made with.
pub proof fn filled_values_of_an_output_stay(m: Merge, column: Column)
    requires
        column == Column::Satoshis ==> at(m.stored, column) != SqlValue::Int(0),
        column == Column::LockingScript || column == Column::ScriptLength || column
            == Column::ScriptOffset ==> !is_empty_value(at(m.stored, Column::LockingScript)),
        column == Column::DerivationPrefix || column == Column::DerivationSuffix ==> !(at(
            m.stored,
            column,
        ) is Null),
        column == Column::Satoshis || column == Column::LockingScript || column
            == Column::ScriptLength || column == Column::ScriptOffset || column
            == Column::DerivationPrefix || column == Column::DerivationSuffix || column
            == Column::UserId || column == Column::Txid || column == Column::Vout || column
            == Column::ProvidedBy || column == Column::Purpose || column == Column::CreatedAt,
    ensures
        at(m.merged(output_merge().sets), column) == at(m.stored, column),
{
    let sets = output_merge().sets;
    merged_reads(m, sets, column);
    reveal_with_fuel(assigned, 16);
    reveal_with_fuel(Merge::chosen, 2);
}

/// A stale output changes nothing but what a spend says.
pub proof fn a_stale_output_only_tells_a_spend(m: Merge, column: Column)
    requires
        !newer(m.stored, m.incoming),
    ensures
        column != Column::SpentBy && column != Column::Spendable ==> at(
            m.merged(output_merge().sets),
            column,
        ) == at(m.stored, column),
        !spend_known(m) ==> at(m.merged(output_merge().sets), column) == at(m.stored, column),
{
    let sets = output_merge().sets;
    merged_reads(m, sets, column);
    reveal_with_fuel(assigned, 16);
    reveal_with_fuel(Merge::chosen, 5);
}

/// Merging the same output again changes nothing more.
pub proof fn merging_an_output_again_changes_nothing(m: Merge, column: Column)
    ensures
        ({
            let once = m.merged(output_merge().sets);
            let again = Merge { stored: once, ..m };
            at(again.merged(output_merge().sets), column) == at(once, column)
        }),
{
    let sets = output_merge().sets;
    let once = m.merged(sets);
    let again = Merge { stored: once, ..m };
    updated_at_is_the_later_one(m, output_merge());
    a_spend_only_goes_forward(m);
    merged_reads(again, sets, column);
    merged_reads(m, sets, column);
    reveal_with_fuel(assigned, 16);
    reveal_with_fuel(Merge::chosen, 5);
}

/// A row that was inserted is not changed by merging it again, where an output that it
/// tells a spend of does not call itself spendable.
pub proof fn an_inserted_row_is_merged(m: Merge, plan: UpsertView, column: Column)
    requires
        newer_row_merges().contains(plan) || plan == output_merge(),
        m.stored == m.incoming,
        plan == output_merge() && !(at(m.incoming, Column::SpentBy) is Null) ==> at(
            m.incoming,
            Column::Spendable,
        ) == SqlValue::Int(0),
    ensures
        at(m.merged(plan.sets), column) == at(m.stored, column),
{
    if plan == output_merge() {
        let sets = output_merge().sets;
        merged_reads(m, sets, column);
        reveal_with_fuel(assigned, 16);
        reveal_with_fuel(Merge::chosen, 5);
    } else {
        a_stale_row_changes_nothing(m, plan, column);
    }
}

// ---------------------------------------------------------------------------
// Row by row
// ---------------------------------------------------------------------------

/// What a merge row by row leaves: the update for a newer row, and the stored row else.
pub open spec fn updated(m: Merge, plan: UpdateView) -> Row {
    if newer(m.stored, m.incoming) {
        m.merged(plan.sets)
    } else {
        m.stored
    }
}

/// The row by row update of an output never demotes it: change stays change, an output
/// that can be spent can still be spent, one of the default basket stays there, and filled
/// values stay.
pub proof fn an_updated_output_is_never_demoted(m: Merge)
    ensures
        ({
            let after = updated(m, output_update());
            &&& at(m.stored, Column::Change) == SqlValue::Int(1) ==> at(after, Column::Change)
                == SqlValue::Int(1)
            &&& at(m.stored, Column::Spendable) == SqlValue::Int(1) ==> at(after, Column::Spendable)
                == SqlValue::Int(1)
            &&& m.holds(Column::BasketId, Cond::InDefaultBasket) ==> at(after, Column::BasketId)
                == at(m.stored, Column::BasketId)
            &&& at(m.stored, Column::Satoshis) != SqlValue::Int(0) ==> at(after, Column::Satoshis)
                == at(m.stored, Column::Satoshis)
            &&& !is_empty_value(at(m.stored, Column::LockingScript)) ==> at(
                after,
                Column::ScriptLength,
            ) == at(m.stored, Column::ScriptLength) && at(after, Column::ScriptOffset) == at(
                m.stored,
                Column::ScriptOffset,
            )
            &&& at(after, Column::LockingScript) == at(m.stored, Column::LockingScript)
            &&& !(at(m.stored, Column::DerivationPrefix) is Null) ==> at(
                after,
                Column::DerivationPrefix,
            ) == at(m.stored, Column::DerivationPrefix)
            &&& !(at(m.stored, Column::DerivationSuffix) is Null) ==> at(
                after,
                Column::DerivationSuffix,
            ) == at(m.stored, Column::DerivationSuffix)
        }),
{
    let sets = output_update().sets;
    merged_reads(m, sets, Column::Change);
    merged_reads(m, sets, Column::Spendable);
    merged_reads(m, sets, Column::BasketId);
    merged_reads(m, sets, Column::Satoshis);
    merged_reads(m, sets, Column::ScriptLength);
    merged_reads(m, sets, Column::ScriptOffset);
    merged_reads(m, sets, Column::LockingScript);
    merged_reads(m, sets, Column::DerivationPrefix);
    merged_reads(m, sets, Column::DerivationSuffix);
    reveal_with_fuel(assigned, 14);
    reveal_with_fuel(Merge::chosen, 2);
}

/// The merges of a batch, each with the row by row update of the same entity.
pub open spec fn paired() -> Seq<(UpsertView, UpdateView)> {
    seq![
        (basket_merge(), basket_update()),
        (proven_tx_merge(), proven_tx_update()),
        (proven_tx_req_merge(), proven_tx_req_update()),
        (tx_label_merge(), tx_label_update()),
        (output_tag_merge(), output_tag_update()),
        (transaction_merge(), transaction_update()),
        (output_merge(), output_update()),
        (tx_label_map_merge(), tx_label_map_update()),
        (output_tag_map_merge(), output_tag_map_update()),
        (certificate_merge(), certificate_update()),
        (certificate_field_merge(), certificate_field_update()),
        (commission_merge(), commission_update()),
    ]
}

/// The columns that the row by row merge writes by statements of their own: the blobs that
/// may overflow, and the link from a transaction to its proof.
pub open spec fn written_apart(plan: UpsertView, column: Column) -> bool {
    ||| plan.sets.contains(fills_blob(column))
    ||| plan == transaction_merge() && column == Column::ProvenTxId
}

/// A batched merge leaves in a row what the row by row merge leaves there, apart from the
/// columns that the latter writes on their own, and from what a known spend says of an
/// output.
pub proof fn a_batch_merges_as_row_by_row(m: Merge, pair: (UpsertView, UpdateView), column: Column)
    requires
        paired().contains(pair),
        !written_apart(pair.0, column),
        pair.0 == output_merge() ==> !spend_known(m),
    ensures
        at(m.merged(pair.0.sets), column) == at(updated(m, pair.1), column),
{
    let k = choose|k: int| 0 <= k < paired().len() && paired()[k] == pair;
    merged_reads(m, pair.0.sets, column);
    merged_reads(m, pair.1.sets, column);
    blobs_are_only_filled();
    if k == 6 {
        batched_output(m, column);
    } else {
        batched_row(m, k, column);
    }
}

proof fn batched_output(m: Merge, column: Column)
    requires
        !spend_known(m),
        column != Column::LockingScript,
    ensures
        assigned(m, output_merge().sets, 15, column) == (if newer(m.stored, m.incoming) {
            assigned(m, output_update().sets, 13, column)
        } else {
            at(m.stored, column)
        }),
{
    reveal_with_fuel(assigned, 16);
    reveal_with_fuel(Merge::chosen, 5);
}

proof fn batched_row(m: Merge, k: int, column: Column)
    requires
        0 <= k < paired().len(),
        k != 6,
        k == 2 ==> column != Column::InputBeef,
        k == 5 ==> column != Column::RawTx && column != Column::InputBeef && column
            != Column::ProvenTxId,
    ensures
        ({
            let sets = paired()[k].0.sets;
            let updates = paired()[k].1.sets;
            assigned(m, sets, sets.len() as int, column) == (if newer(m.stored, m.incoming) {
                assigned(m, updates, updates.len() as int, column)
            } else {
                at(m.stored, column)
            })
        }),
{
    reveal_with_fuel(assigned, 12);
    reveal_with_fuel(Merge::chosen, 2);
}

/// Row by row, a transaction is linked to the proof that its newer row names, as in a
/// batch.
pub proof fn a_batch_links_proofs_as_row_by_row(m: Merge)
    ensures
        ({
            let incoming = at(m.incoming, Column::ProvenTxId);
            at(m.merged(transaction_merge().sets), Column::ProvenTxId) == (if newer(
                m.stored,
                m.incoming,
            ) && !(incoming is Null) {
                at(m.merged(proof_link().sets), Column::ProvenTxId)
            } else {
                at(m.stored, Column::ProvenTxId)
            })
        }),
{
    a_proof_link_is_never_cleared(m);
    merged_reads(m, proof_link().sets, Column::ProvenTxId);
    reveal_with_fuel(assigned, 2);
    reveal_with_fuel(Merge::chosen, 2);
}

// ---------------------------------------------------------------------------
// Tables
// ---------------------------------------------------------------------------

/// The rows of a table by their ids.
pub type Rows = Map<i64, Row>;

/// Whether two rows have the same key. A key with a `NULL` in it equals no other.
pub open spec fn same_key(key: Seq<Column>, a: Row, b: Row) -> bool {
    forall|i: int|
        0 <= i < key.len() ==> at(a, #[trigger] key[i]) == at(b, key[i]) && !(at(a, key[i]) is Null)
}

/// Whether a stored row belongs to another user than the incoming one, where the merge asks.
pub open spec fn foreign(plan: UpsertView, stored: Row, incoming: Row) -> bool {
    plan.owned && at(stored, Column::UserId) != at(incoming, Column::UserId)
}

/// Whether a merging insert may take a table from `before` to `after` and return `id`: it
/// merges into the row with the key of the incoming row, or adds a row where none has it.
/// Where that row belongs to another user, it does nothing and returns no id.
pub open spec fn upserts(
    plan: UpsertView,
    incoming: Row,
    default_basket: Option<int>,
    before: Rows,
    after: Rows,
    id: Option<i64>,
) -> bool {
    match id {
        Some(id) => if exists|k: i64| #[trigger]
            before.contains_key(k) && same_key(plan.key, before[k], incoming) {
            &&& before.contains_key(id)
            &&& same_key(plan.key, before[id], incoming)
            &&& !foreign(plan, before[id], incoming)
            &&& after == before.insert(
                id,
                Merge { stored: before[id], incoming, default_basket }.merged(plan.sets),
            )
        } else {
            !before.contains_key(id) && after == before.insert(id, incoming)
        },
        None => after == before && exists|k: i64| #[trigger]
            before.contains_key(k) && same_key(plan.key, before[k], incoming) && foreign(
                plan,
                before[k],
                incoming,
            ),
    }
}

/// A merge deletes no row, touches no row but the one whose id it returns, and returns an
/// id unless the row belongs to another user.
pub proof fn a_merge_deletes_nothing(
    plan: UpsertView,
    incoming: Row,
    default_basket: Option<int>,
    before: Rows,
    after: Rows,
    id: Option<i64>,
)
    requires
        upserts(plan, incoming, default_basket, before, after, id),
    ensures
        id matches Some(id) ==> after.contains_key(id),
        !plan.owned ==> id is Some,
        forall|k: i64| #[trigger] before.contains_key(k) ==> after.contains_key(k),
        forall|k: i64| #[trigger]
            before.contains_key(k) && id != Some(k) ==> after[k] == before[k],
        forall|k: i64| #[trigger] after.contains_key(k) ==> before.contains_key(k) || id == Some(k),
{
}

/// The merges of rows that belong to a user by their key or by their condition.
pub open spec fn users_merges() -> Seq<UpsertView> {
    seq![
        basket_merge(),
        tx_label_merge(),
        output_tag_merge(),
        transaction_merge(),
        output_merge(),
        certificate_merge(),
    ]
}

/// A push never changes a row of another user.
pub proof fn another_users_row_is_left_alone(
    plan: UpsertView,
    incoming: Row,
    default_basket: Option<int>,
    before: Rows,
    after: Rows,
    id: Option<i64>,
    k: i64,
)
    requires
        users_merges().contains(plan),
        upserts(plan, incoming, default_basket, before, after, id),
        before.contains_key(k),
        at(before[k], Column::UserId) != at(incoming, Column::UserId),
    ensures
        after.contains_key(k),
        after[k] == before[k],
        id != Some(k),
{
    if plan != transaction_merge() {
        owner_in_key(plan);
        let i = choose|i: int| 0 <= i < plan.key.len() && plan.key[i] == Column::UserId;
        assert(plan.key[i] == Column::UserId);
    }
}

/// The key of a merge of a user's rows has the user in it, but for that of transactions.
pub proof fn owner_in_key(plan: UpsertView)
    requires
        users_merges().contains(plan),
        plan != transaction_merge(),
    ensures
        exists|i: int| 0 <= i < plan.key.len() && plan.key[i] == Column::UserId,
{
    assert(basket_merge().key[1] == Column::UserId);
    assert(tx_label_merge().key[1] == Column::UserId);
    assert(output_tag_merge().key[1] == Column::UserId);
    assert(output_merge().key[2] == Column::UserId);
    assert(certificate_merge().key[0] == Column::UserId);
}

/// Whether no two rows of a table have the same key.
pub open spec fn keyed_by(key: Seq<Column>, rows: Rows) -> bool {
    forall|j: i64, k: i64|
        #![trigger rows.contains_key(j), rows.contains_key(k)]
        rows.contains_key(j) && rows.contains_key(k) && same_key(key, rows[j], rows[k]) ==> j == k
}

/// Whether a row has a value in each column of a key.
pub open spec fn has_key(key: Seq<Column>, row: Row) -> bool {
    forall|i: int| 0 <= i < key.len() ==> !(at(row, #[trigger] key[i]) is Null)
}

/// A merge keeps the key of the row.
pub proof fn merging_keeps_the_key(m: Merge, plan: UpsertView)
    requires
        newer_row_merges().contains(plan) || plan == output_merge(),
        same_key(plan.key, m.stored, m.incoming),
    ensures
        same_key(plan.key, m.merged(plan.sets), m.incoming),
{
    assert forall|i: int| 0 <= i < plan.key.len() implies at(
        m.merged(plan.sets),
        #[trigger] plan.key[i],
    ) == at(m.stored, plan.key[i]) by {
        merged_reads(m, plan.sets, plan.key[i]);
        reveal_with_fuel(assigned, 16);
        reveal_with_fuel(Merge::chosen, 2);
    }
}

/// A merge keeps the owner of the row.
pub proof fn merging_keeps_the_owner(m: Merge, plan: UpsertView)
    requires
        newer_row_merges().contains(plan) || plan == output_merge(),
    ensures
        at(m.merged(plan.sets), Column::UserId) == at(m.stored, Column::UserId),
{
    merged_reads(m, plan.sets, Column::UserId);
    reveal_with_fuel(assigned, 16);
}

/// A push is idempotent by the natural key: pushing a row again hits the row that the first
/// push wrote, returns the same id, and changes no value of the table. A row that the first
/// push adds must not be an output that tells a spend of itself and calls itself spendable.
pub proof fn pushing_a_row_again_changes_nothing(
    plan: UpsertView,
    incoming: Row,
    default_basket: Option<int>,
    before: Rows,
    once: Rows,
    twice: Rows,
    first: i64,
    second: Option<i64>,
    k: i64,
    column: Column,
)
    requires
        newer_row_merges().contains(plan) || plan == output_merge(),
        keyed_by(plan.key, before),
        has_key(plan.key, incoming),
        upserts(plan, incoming, default_basket, before, once, Some(first)),
        upserts(plan, incoming, default_basket, once, twice, second),
        plan == output_merge() && !before.contains_key(first) && !(at(
            incoming,
            Column::SpentBy,
        ) is Null) ==> at(incoming, Column::Spendable) == SqlValue::Int(0),
    ensures
        second == Some(first),
        keyed_by(plan.key, once),
        once.contains_key(k) <==> twice.contains_key(k),
        once.contains_key(k) ==> at(twice[k], column) == at(once[k], column),
{
    let m = Merge { stored: before[first], incoming, default_basket };
    if before.contains_key(first) {
        merging_keeps_the_key(m, plan);
        merging_keeps_the_owner(m, plan);
    }
    assert(same_key(plan.key, once[first], incoming));
    assert(!foreign(plan, once[first], incoming));
    assert(once.contains_key(first));
    assert forall|j: i64| #[trigger] once.contains_key(j) && same_key(
        plan.key,
        once[j],
        incoming,
    ) implies j == first by {
        if j != first {
            assert(before.contains_key(j));
            if before.contains_key(first) {
                same_key_joins(plan.key, before[j], before[first], incoming);
            }
        }
    }
    assert forall|i: i64, j: i64|
        #![trigger once.contains_key(i), once.contains_key(j)]
        once.contains_key(i) && once.contains_key(j) && same_key(
            plan.key,
            once[i],
            once[j],
        ) implies i == j by {
        if i != j && i == first {
            same_key_follows(plan.key, once[j], once[i], incoming);
        } else if i != j && j == first {
            same_key_follows(plan.key, once[i], once[j], incoming);
        }
    }
    let again = Merge { stored: once[first], incoming, default_basket };
    if before.contains_key(first) {
        if plan == output_merge() {
            merging_an_output_again_changes_nothing(m, column);
        } else {
            merging_again_changes_nothing(m, plan, column);
        }
    } else {
        an_inserted_row_is_merged(again, plan, column);
    }
}

proof fn same_key_joins(key: Seq<Column>, a: Row, b: Row, c: Row)
    requires
        same_key(key, a, c),
        same_key(key, b, c),
    ensures
        same_key(key, a, b),
{
    assert forall|i: int| 0 <= i < key.len() implies at(a, #[trigger] key[i]) == at(b, key[i]) && !(
    at(a, key[i]) is Null) by {
        assert(at(a, key[i]) == at(c, key[i]));
        assert(at(b, key[i]) == at(c, key[i]));
    }
}

proof fn same_key_follows(key: Seq<Column>, a: Row, b: Row, c: Row)
    requires
        same_key(key, a, b) || same_key(key, b, a),
        same_key(key, b, c),
    ensures
        same_key(key, a, c),
{
    assert forall|i: int| 0 <= i < key.len() implies at(a, #[trigger] key[i]) == at(c, key[i]) && !(
    at(a, key[i]) is Null) by {
        assert(at(a, key[i]) == at(b, key[i]));
        assert(at(b, key[i]) == at(c, key[i]));
    }
}

/// The row that the first `n` columns and values of an insert make.
pub open spec fn row_of(columns: Seq<(Column, Slot)>, params: Seq<SqlValue>, n: int) -> Row
    decreases n,
{
    if n <= 0 {
        Map::empty()
    } else {
        row_of(columns, params, n - 1).insert(columns[n - 1].0, params[n - 1])
    }
}

/// The row that the merge of an output brings in.
pub open spec fn incoming_output(
    user_id: i64,
    o: TableOutput,
    local_tx_id: i64,
    local_basket_id: Option<i64>,
    local_spent_by: Option<i64>,
) -> Row {
    row_of(
        output_merge().insert.columns,
        output_query(user_id, o, local_tx_id, local_basket_id, local_spent_by).params,
        21,
    )
}

/// The merge of an output brings in what the caller resolved: a spend that is not known
/// stamps nothing, and a stale output without one changes nothing in the stored row.
pub proof fn an_unknown_spend_stamps_nothing(
    m: Merge,
    user_id: i64,
    o: TableOutput,
    local_tx_id: i64,
    local_basket_id: Option<i64>,
)
    requires
        m.incoming == incoming_output(user_id, o, local_tx_id, local_basket_id, None),
    ensures
        at(m.merged(output_merge().sets), Column::SpentBy) == at(m.stored, Column::SpentBy),
        at(m.stored, Column::SpentBy) is Null && at(m.stored, Column::Spendable) == SqlValue::Int(1)
            ==> at(m.merged(output_merge().sets), Column::Spendable) == SqlValue::Int(1),
        !newer(m.stored, m.incoming) && at(m.stored, Column::SpentBy) is Null ==> forall|c: Column|
            #[trigger] at(m.merged(output_merge().sets), c) == at(m.stored, c),
{
    reveal_with_fuel(row_of, 22);
    assert(at(m.incoming, Column::SpentBy) is Null);
    a_spend_only_goes_forward(m);
    an_output_is_never_demoted(m);
    if !newer(m.stored, m.incoming) && at(m.stored, Column::SpentBy) is Null {
        assert forall|c: Column| #[trigger] at(m.merged(output_merge().sets), c) == at(
            m.stored,
            c,
        ) by {
            a_stale_output_only_tells_a_spend(m, c);
        }
    }
}

} // verus!
