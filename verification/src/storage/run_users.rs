//! A merge as a whole leaves the rows of other users alone.

use crate::entities::TableOutput;
use crate::sql::expr::{at, Row};
use crate::sql::names::{Column, Table};
use crate::sql::query::SqlValue;
use crate::storage::apply::{
    counted, fill_writes, first_step, fresh, paired, rows_of, writes, ApplyView, BlobColumn,
    EntryView, Phase, ProgressView,
};
use crate::storage::apply_laws::planned_entries;
use crate::storage::blob_column::BlobWriteView;
use crate::storage::merge::{
    merging_keeps_the_owner, newer_row_merges, owner_in_key, users_merges, Rows,
};
use crate::storage::run::{
    a_row_has_what_is_bound, all_ids, asked, batch, batched, broken_off, filled_all, hit, incoming,
    merge_with, next, plan_of, run, table_of, takes_user, upserted, State, Store, World,
};
use crate::storage::upsert::{output_merge, transaction_merge};
use crate::time::latest;
use crate::types::{ProcessSyncChunkResult, SyncChunk};
use vstd::prelude::*;

verus! {

/// The phases whose rows belong to a user.
pub open spec fn users_phase(phase: Phase) -> bool {
    match phase {
        Phase::Baskets => true,
        Phase::TxLabels => true,
        Phase::OutputTags => true,
        Phase::Certificates => true,
        Phase::Transactions => true,
        Phase::Outputs => true,
        _ => false,
    }
}

/// Whether a row belongs to a user.
pub open spec fn belongs(row: Row, user_id: i64) -> bool {
    at(row, Column::UserId) == SqlValue::Int(user_id as int)
}

/// Whether every row of another user in the tables that hold the rows of users is the same
/// in `b` as in `a`.
pub open spec fn others_same(a: World, b: World, user_id: i64) -> bool {
    forall|phase: Phase, k: i64|
        users_phase(phase) && #[trigger] a.rows(table_of(phase)).contains_key(k) && !belongs(
            a.rows(table_of(phase))[k],
            user_id,
        ) ==> b.rows(table_of(phase)).contains_key(k) && b.rows(table_of(phase))[k] == a.rows(
            table_of(phase),
        )[k]
}

/// Whether a merge is that of a call.
pub open spec fn for_call(apply: ApplyView, user_id: i64, chunk: SyncChunk) -> bool {
    apply.user_id == user_id && apply.chunk == chunk
}

/// What every step of a merge for a user can rely on.
pub open spec fn for_user(state: State, user_id: i64, chunk: SyncChunk) -> bool {
    match state.step {
        None => true,
        Some(ProgressView::Done { result }) => true,
        Some(ProgressView::MergeUser { apply }) => for_call(apply, user_id, chunk),
        Some(ProgressView::LoadProofs { apply, .. }) => for_call(apply, user_id, chunk),
        Some(ProgressView::LoadTxids { apply, .. }) => for_call(apply, user_id, chunk),
        Some(ProgressView::LoadBasketNames { apply, .. }) => for_call(apply, user_id, chunk),
        Some(ProgressView::LoadSpends { apply, .. }) => for_call(apply, user_id, chunk),
        Some(ProgressView::FindEmpty { apply, .. }) => for_call(apply, user_id, chunk),
        Some(ProgressView::AskStore { apply, .. }) => for_call(apply, user_id, chunk),
        Some(ProgressView::RunUpserts { apply, phase, entries }) => {
            &&& for_call(apply, user_id, chunk)
            &&& phase != Phase::Finished
            &&& entries == apply.planned(phase)
        },
        Some(ProgressView::PutBlobs { apply, phase, writes }) => {
            &&& for_call(apply, user_id, chunk)
            &&& phase != Phase::Finished
            &&& forall|i: int|
                0 <= i < writes.len() ==> own_write(
                    state.world,
                    phase,
                    #[trigger] writes[i],
                    user_id,
                )
        },
    }
}

/// Whether a blob is for a row of the user, where the rows of the phase belong to users.
pub open spec fn own_write(world: World, phase: Phase, w: BlobWriteView, user_id: i64) -> bool {
    users_phase(phase) && world.rows(table_of(phase)).contains_key(w.id) ==> belongs(
        world.rows(table_of(phase))[w.id],
        user_id,
    )
}

proof fn probe_for_user(world: World, s: ApplyView, column: BlobColumn)
    ensures
        for_user(State { world, step: Some(s.probe(column)) }, s.user_id, s.chunk),
    decreases column.phase().left(), column.left() + 1,
{
    if s.empty_queries(column).len() == 0 {
        match column.following() {
            Some(following) => probe_for_user(world, s, following),
            None => run_for_user(world, s, column.phase()),
        }
    }
}

proof fn run_for_user(world: World, s: ApplyView, phase: Phase)
    ensures
        for_user(State { world, step: Some(s.run(phase)) }, s.user_id, s.chunk),
    decreases phase.left(), 0int,
{
    if phase != Phase::Finished && s.planned(phase).len() == 0 {
        enter_for_user(
            world,
            s.settled(phase, s.planned(phase), Seq::empty()),
            phase.following(),
        );
    }
}

proof fn enter_for_user(world: World, s: ApplyView, phase: Phase)
    ensures
        for_user(State { world, step: Some(s.enter(phase)) }, s.user_id, s.chunk),
    decreases phase.left(), 3int,
{
    match phase {
        Phase::Finished => {},
        Phase::ProvenTxReqs => probe_for_user(world, s, BlobColumn::RequestBeef),
        Phase::Transactions => probe_for_user(world, s, BlobColumn::RawTx),
        _ => run_for_user(world, s, phase),
    }
}

proof fn past_for_user(world: World, s: ApplyView, column: BlobColumn)
    ensures
        for_user(State { world, step: Some(s.past(column)) }, s.user_id, s.chunk),
{
    match column.following() {
        Some(following) => probe_for_user(world, s, following),
        None => run_for_user(world, s, column.phase()),
    }
}

pub(crate) proof fn start_for_user(world: World, s: ApplyView, updated: bool)
    ensures
        for_user(State { world, step: Some(s.after_user(updated)) }, s.user_id, s.chunk),
        for_user(State { world, step: Some(s.rest()) }, s.user_id, s.chunk),
{
    let result = ProcessSyncChunkResult {
        updates: if updated {
            counted(s.result.updates, 1)
        } else {
            s.result.updates
        },
        max_updated_at: match s.chunk.user {
            Some(user) => Some(latest(s.result.max_updated_at, user.updated_at)),
            None => s.result.max_updated_at,
        },
        ..s.result
    };
    enter_for_user(world, ApplyView { result, ..s }, Phase::Baskets);
    enter_for_user(world, s, Phase::Baskets);
}

proof fn first_column_is_the_owner(phase: Phase)
    requires
        users_phase(phase),
    ensures
        plan_of(phase).insert.columns.len() > 0,
        plan_of(phase).insert.columns[0].0 == Column::UserId,
        users_merges().contains(plan_of(phase)),
        newer_row_merges().contains(plan_of(phase)) || plan_of(phase) == output_merge(),
{
    assert(users_merges()[0] == plan_of(Phase::Baskets));
    assert(users_merges()[1] == plan_of(Phase::TxLabels));
    assert(users_merges()[2] == plan_of(Phase::OutputTags));
    assert(users_merges()[3] == plan_of(Phase::Transactions));
    assert(users_merges()[4] == plan_of(Phase::Outputs));
    assert(users_merges()[5] == plan_of(Phase::Certificates));
    assert(newer_row_merges()[0] == plan_of(Phase::Baskets));
    assert(newer_row_merges()[3] == plan_of(Phase::TxLabels));
    assert(newer_row_merges()[4] == plan_of(Phase::OutputTags));
    assert(newer_row_merges()[5] == plan_of(Phase::Transactions));
    assert(newer_row_merges()[8] == plan_of(Phase::Certificates));
}

proof fn output_owner(s: ApplyView, o: TableOutput, entry: EntryView)
    requires
        s.output_entry(o) == Some(entry),
    ensures
        entry.query.params[0] == SqlValue::Int(s.user_id as int),
{
}

proof fn planned_output_owner(s: ApplyView, k: int)
    requires
        0 <= k < s.planned(Phase::Outputs).len(),
    ensures
        s.planned(Phase::Outputs)[k].query.params[0] == SqlValue::Int(s.user_id as int),
{
    let entry = s.planned(Phase::Outputs)[k];
    planned_entries(s, Phase::Outputs, k);
    let rows = rows_of(s.chunk.outputs);
    let i = choose|i: int| 0 <= i < rows.len() && Some(entry) == s.output_entry(#[trigger] rows[i]);
    output_owner(s, rows[i], entry);
}

proof fn planned_transaction_owner(s: ApplyView, k: int)
    requires
        0 <= k < s.planned(Phase::Transactions).len(),
    ensures
        s.planned(Phase::Transactions)[k].query.params[0] == SqlValue::Int(s.user_id as int),
{
}

proof fn planned_owner(s: ApplyView, phase: Phase, k: int)
    requires
        users_phase(phase),
        0 <= k < s.planned(phase).len(),
    ensures
        s.planned(phase)[k].query.params[0] == SqlValue::Int(s.user_id as int),
{
    match phase {
        Phase::Outputs => {
            planned_output_owner(s, k);
        },
        Phase::Transactions => {
            planned_transaction_owner(s, k);
        },
        Phase::Baskets => {
            assert(s.planned(phase)[k] == s.basket_entry(rows_of(s.chunk.output_baskets)[k]));
        },
        Phase::TxLabels => {
            assert(s.planned(phase)[k] == s.tx_label_entry(rows_of(s.chunk.tx_labels)[k]));
        },
        Phase::OutputTags => {
            assert(s.planned(phase)[k] == s.output_tag_entry(rows_of(s.chunk.output_tags)[k]));
        },
        _ => {
            assert(s.planned(phase)[k] == s.certificate_entry(rows_of(s.chunk.certificates)[k]));
        },
    }
}

/// A row that a batch brings in belongs to the user of the call.
pub proof fn a_batch_brings_own_rows(s: ApplyView, phase: Phase, k: int)
    requires
        users_phase(phase),
        0 <= k < s.planned(phase).len(),
    ensures
        belongs(incoming(plan_of(phase), s.planned(phase)[k]), s.user_id),
{
    planned_owner(s, phase, k);
    first_column_is_the_owner(phase);
    a_row_has_what_is_bound(phase, s.planned(phase)[k], 0);
}

proof fn statement_leaves_others(
    store: Store,
    phase: Phase,
    baskets: Rows,
    rows: Rows,
    row: Row,
    user_id: i64,
)
    requires
        users_phase(phase),
        belongs(row, user_id),
    ensures
        ({
            let (after, id) = upserted(store, plan_of(phase), baskets, rows, row);
            &&& forall|k: i64| #[trigger]
                rows.contains_key(k) ==> after.contains_key(k) && at(after[k], Column::UserId)
                    == at(rows[k], Column::UserId)
            &&& forall|k: i64| #[trigger]
                rows.contains_key(k) && !belongs(rows[k], user_id) ==> after[k] == rows[k]
            &&& id matches Some(id) ==> after.contains_key(id) && belongs(after[id], user_id)
        }),
{
    let plan = plan_of(phase);
    first_column_is_the_owner(phase);
    match hit(plan.key, rows, row) {
        Some(k) => {
            merging_keeps_the_owner(merge_with(baskets, rows[k], row), plan);
            if plan != transaction_merge() {
                owner_in_key(plan);
                let i = choose|i: int| 0 <= i < plan.key.len() && plan.key[i] == Column::UserId;
                assert(at(rows[k], plan.key[i]) == at(row, plan.key[i]));
            }
        },
        None => {},
    }
}

proof fn batch_leaves_others(store: Store, world: World, s: ApplyView, phase: Phase, n: int)
    requires
        users_phase(phase),
        0 <= n <= s.planned(phase).len(),
    ensures
        ({
            let rows = world.rows(table_of(phase));
            let after = batch(store, world, phase, s.planned(phase), n);
            &&& forall|k: i64| #[trigger]
                rows.contains_key(k) ==> after.rows.contains_key(k) && at(
                    after.rows[k],
                    Column::UserId,
                ) == at(rows[k], Column::UserId)
            &&& forall|k: i64| #[trigger]
                rows.contains_key(k) && !belongs(rows[k], s.user_id) ==> after.rows[k] == rows[k]
            &&& after.ids.len() == n
            &&& forall|j: int|
                0 <= j < n ==> ((#[trigger] after.ids[j]) matches Some(id)
                    ==> after.rows.contains_key(id) && belongs(after.rows[id], s.user_id))
        }),
    decreases n,
{
    if n > 0 {
        batch_leaves_others(store, world, s, phase, n - 1);
        a_batch_brings_own_rows(s, phase, n - 1);
        let before = batch(store, world, phase, s.planned(phase), n - 1);
        let after = batch(store, world, phase, s.planned(phase), n);
        statement_leaves_others(
            store,
            phase,
            world.rows(Table::OutputBaskets),
            before.rows,
            incoming(plan_of(phase), s.planned(phase)[n - 1]),
            s.user_id,
        );
        assert forall|j: int| 0 <= j < n implies ((#[trigger] after.ids[j]) matches Some(id)
            ==> after.rows.contains_key(id) && belongs(after.rows[id], s.user_id)) by {
            if j < n - 1 {
                assert(after.ids[j] == before.ids[j]);
            }
        }
    }
}

pub(crate) proof fn ids_in_order(
    store: Store,
    world: World,
    phase: Phase,
    list: Seq<EntryView>,
    n: int,
)
    requires
        0 <= n,
    ensures
        batch(store, world, phase, list, n).ids.len() == n,
    decreases n,
{
    if n > 0 {
        ids_in_order(store, world, phase, list, n - 1);
    }
}

pub(crate) proof fn phases_have_tables(a: Phase, b: Phase)
    requires
        a != Phase::Finished,
        b != Phase::Finished,
    ensures
        table_of(a) == table_of(b) <==> a == b,
{
}

proof fn batched_leaves_others(store: Store, world: World, s: ApplyView, phase: Phase, n: int)
    requires
        phase != Phase::Finished,
        0 <= n <= s.planned(phase).len(),
    ensures
        others_same(world, batched(store, world, phase, s.planned(phase), n), s.user_id),
{
    let after = batched(store, world, phase, s.planned(phase), n);
    if users_phase(phase) {
        batch_leaves_others(store, world, s, phase, n);
    }
    assert forall|p: Phase, k: i64|
        users_phase(p) && #[trigger] world.rows(table_of(p)).contains_key(k) && !belongs(
            world.rows(table_of(p))[k],
            s.user_id,
        ) implies after.rows(table_of(p)).contains_key(k) && after.rows(table_of(p))[k]
        == world.rows(table_of(p))[k] by {
        phases_have_tables(p, phase);
    }
}

proof fn filled_leaves_others(
    world: World,
    phase: Phase,
    list: Seq<BlobWriteView>,
    user_id: i64,
    n: int,
)
    requires
        phase != Phase::Finished,
        0 <= n <= list.len(),
        forall|i: int| 0 <= i < list.len() ==> own_write(world, phase, #[trigger] list[i], user_id),
    ensures
        others_same(world, filled_all(world, table_of(phase), list, n), user_id),
        forall|i: int|
            0 <= i < list.len() ==> own_write(
                filled_all(world, table_of(phase), list, n),
                phase,
                #[trigger] list[i],
                user_id,
            ),
        forall|k: i64|
            world.rows(table_of(phase)).contains_key(k) <==> #[trigger] filled_all(
                world,
                table_of(phase),
                list,
                n,
            ).rows(table_of(phase)).contains_key(k),
    decreases n,
{
    if n > 0 {
        filled_leaves_others(world, phase, list, user_id, n - 1);
        let before = filled_all(world, table_of(phase), list, n - 1);
        let after = filled_all(world, table_of(phase), list, n);
        assert(own_write(before, phase, list[n - 1], user_id));
        assert forall|p: Phase, k: i64|
            users_phase(p) && #[trigger] world.rows(table_of(p)).contains_key(k) && !belongs(
                world.rows(table_of(p))[k],
                user_id,
            ) implies after.rows(table_of(p)).contains_key(k) && after.rows(table_of(p))[k]
            == world.rows(table_of(p))[k] by {
            phases_have_tables(p, phase);
            assert(before.rows(table_of(p)).contains_key(k));
        }
    }
}

proof fn writes_have_ids(list: Seq<EntryView>, ids: Seq<i64>, n: int, w: int)
    requires
        n <= list.len(),
        n <= ids.len(),
        0 <= w < writes(list, ids, n).len(),
    ensures
        exists|j: int| 0 <= j < n && writes(list, ids, n)[w].id == #[trigger] ids[j],
    decreases n,
{
    let before = writes(list, ids, n - 1);
    if w < before.len() {
        writes_have_ids(list, ids, n - 1, w);
        let j = choose|j: int| 0 <= j < n - 1 && before[w].id == #[trigger] ids[j];
        assert(writes(list, ids, n)[w] == before[w]);
        assert(ids[j] == writes(list, ids, n)[w].id);
    } else {
        assert(writes(list, ids, n)[w] == fill_writes(list[n - 1], ids[n - 1])[w - before.len()]);
        assert(ids[n - 1] == writes(list, ids, n)[w].id);
    }
}

proof fn batch_for_user(store: Store, world: World, s: ApplyView, phase: Phase, ids: Seq<i64>)
    requires
        phase != Phase::Finished,
        all_ids(batch(store, world, phase, s.planned(phase), s.planned(phase).len() as int).ids)
            == Some(ids),
    ensures
        for_user(
            State {
                world: batched(
                    store,
                    world,
                    phase,
                    s.planned(phase),
                    s.planned(phase).len() as int,
                ),
                step: Some(s.after_batch(phase, s.planned(phase), ids)),
            },
            s.user_id,
            s.chunk,
        ),
{
    let list = s.planned(phase);
    let n = list.len() as int;
    let end = batched(store, world, phase, list, n);
    let done = batch(store, world, phase, list, n);
    ids_in_order(store, world, phase, list, n);
    if writes(list, ids, paired(list, ids)).len() > 0 {
        assert forall|w: int| 0 <= w < writes(list, ids, n).len() implies own_write(
            end,
            phase,
            #[trigger] writes(list, ids, n)[w],
            s.user_id,
        ) by {
            writes_have_ids(list, ids, n, w);
            let j = choose|j: int| 0 <= j < n && writes(list, ids, n)[w].id == #[trigger] ids[j];
            if users_phase(phase) {
                batch_leaves_others(store, world, s, phase, n);
                assert(done.ids[j] == Some(ids[j]));
            }
        }
    } else {
        enter_for_user(end, s.settled(phase, list, ids), phase.following());
    }
}

#[verifier::spinoff_prover]
proof fn next_for_user(store: Store, state: State, user_id: i64, chunk: SyncChunk)
    requires
        for_user(state, user_id, chunk),
    ensures
        for_user(next(store, state), user_id, chunk),
        others_same(state.world, next(store, state).world, user_id),
{
    let world = state.world;
    let after = next(store, state);
    assert(after == (State { world: after.world, step: after.step }));
    match state.step {
        None => {},
        Some(ProgressView::Done { .. }) => {},
        Some(ProgressView::MergeUser { apply }) => {
            start_for_user(after.world, apply, takes_user(world, apply));
        },
        Some(ProgressView::RunUpserts { apply, phase, entries }) => {
            batched_leaves_others(store, world, apply, phase, entries.len() as int);
            match all_ids(batch(store, world, phase, entries, entries.len() as int).ids) {
                Some(ids) => {
                    batch_for_user(store, world, apply, phase, ids);
                },
                None => {},
            }
        },
        Some(ProgressView::LoadProofs { apply, queries }) => {
            let rows = (store.lookup)(queries, world.rows(Table::ProvenTxs));
            probe_for_user(world, ApplyView { proofs: rows, ..apply }, BlobColumn::RawTx);
        },
        Some(ProgressView::LoadTxids { apply, queries }) => {},
        Some(ProgressView::LoadBasketNames { apply, query }) => {
            let rows = (store.lookup)(seq![query], world.rows(Table::OutputBaskets));
            probe_for_user(
                world,
                ApplyView { basket_names: rows, ..apply },
                BlobColumn::LockingScript,
            );
        },
        Some(ProgressView::LoadSpends { apply, queries }) => {
            let rows = (store.lookup)(queries, world.rows(Table::Transactions));
            probe_for_user(world, ApplyView { spends: rows, ..apply }, BlobColumn::LockingScript);
        },
        Some(ProgressView::FindEmpty { apply, column, queries }) => {
            past_for_user(world, apply, column);
        },
        Some(ProgressView::AskStore { apply, column, found }) => {
            past_for_user(
                world,
                apply.holding(column, found, asked(world, column, found)),
                column,
            );
        },
        Some(ProgressView::PutBlobs { apply, phase, writes }) => {
            filled_leaves_others(world, phase, writes, user_id, writes.len() as int);
            enter_for_user(after.world, apply, phase.following());
        },
    }
}

proof fn others_same_joins(a: World, b: World, c: World, user_id: i64)
    requires
        others_same(a, b, user_id),
        others_same(b, c, user_id),
    ensures
        others_same(a, c, user_id),
{
    assert forall|phase: Phase, k: i64|
        users_phase(phase) && #[trigger] a.rows(table_of(phase)).contains_key(k) && !belongs(
            a.rows(table_of(phase))[k],
            user_id,
        ) implies c.rows(table_of(phase)).contains_key(k) && c.rows(table_of(phase))[k] == a.rows(
        table_of(phase),
    )[k] by {
        assert(b.rows(table_of(phase)).contains_key(k));
    }
}

pub(crate) proof fn run_leaves_others(
    store: Store,
    state: State,
    n: nat,
    user_id: i64,
    chunk: SyncChunk,
)
    requires
        for_user(state, user_id, chunk),
    ensures
        for_user(run(store, state, n), user_id, chunk),
        others_same(state.world, run(store, state, n).world, user_id),
    decreases n,
{
    if n > 0 {
        let reached = run(store, state, (n - 1) as nat);
        run_leaves_others(store, state, (n - 1) as nat, user_id, chunk);
        next_for_user(store, reached, user_id, chunk);
        others_same_joins(state.world, reached.world, next(store, reached).world, user_id);
    }
}

/// A push never changes a row of another user: whatever the store answers, and wherever the
/// merge ends or breaks off, each basket, label, tag, transaction, output and certificate of
/// another user is as it was.
pub proof fn a_merge_leaves_other_users_alone(
    store: Store,
    world: World,
    user_id: i64,
    chunk: SyncChunk,
    n: nat,
    m: nat,
    put_next: bool,
)
    ensures
        ({
            let end = run(store, State { world, step: Some(first_step(user_id, chunk)) }, n);
            &&& others_same(world, end.world, user_id)
            &&& others_same(world, broken_off(store, end, m, put_next), user_id)
        }),
{
    let start = State { world, step: Some(first_step(user_id, chunk)) };
    start_for_user(world, fresh(user_id, chunk), false);
    run_leaves_others(store, start, n, user_id, chunk);
    let end = run(store, start, n);
    let broken = broken_off(store, end, m, put_next);
    match end.step {
        Some(ProgressView::RunUpserts { apply, phase, entries }) => {
            if m <= entries.len() {
                batched_leaves_others(store, end.world, apply, phase, m as int);
            }
        },
        Some(ProgressView::PutBlobs { apply, phase, writes }) => {
            if m <= writes.len() {
                filled_leaves_others(end.world, phase, writes, user_id, m as int);
            }
        },
        _ => {},
    }
    assert(others_same(end.world, broken, user_id));
    others_same_joins(world, end.world, broken, user_id);
}

/// A row of another user under the reference of a pushed transaction fails the call, so that
/// nothing of the user is ever linked to it.
pub proof fn a_foreign_row_fails_the_call(
    store: Store,
    world: World,
    s: ApplyView,
    k: int,
)
    requires
        0 <= k < s.planned(Phase::Transactions).len(),
        ({
            let list = s.planned(Phase::Transactions);
            let before = batch(store, world, Phase::Transactions, list, k);
            let row = incoming(transaction_merge(), s.planned(Phase::Transactions)[k]);
            hit(transaction_merge().key, before.rows, row) matches Some(id) && !belongs(
                before.rows[id],
                s.user_id,
            )
        }),
    ensures
        next(
            store,
            State {
                world,
                step: Some(
                    ProgressView::RunUpserts {
                        apply: s,
                        phase: Phase::Transactions,
                        entries: s.planned(Phase::Transactions),
                    },
                ),
            },
        ).step is None,
{
    let phase = Phase::Transactions;
    let list = s.planned(phase);
    a_batch_brings_own_rows(s, phase, k);
    assert(batch(store, world, phase, list, k + 1).ids.last() is None);
    ids_in_order(store, world, phase, list, k + 1);
    later_ids_stay(store, world, phase, list, k + 1, list.len() as int);
    let ids = batch(store, world, phase, list, list.len() as int).ids;
    assert(ids[k] is None);
}

proof fn later_ids_stay(
    store: Store,
    world: World,
    phase: Phase,
    list: Seq<EntryView>,
    m: int,
    n: int,
)
    requires
        0 <= m <= n,
    ensures
        batch(store, world, phase, list, m).ids == batch(store, world, phase, list, n).ids.take(m),
        batch(store, world, phase, list, n).ids.len() == n,
    decreases n,
{
    ids_in_order(store, world, phase, list, n);
    ids_in_order(store, world, phase, list, m);
    if m < n {
        later_ids_stay(store, world, phase, list, m, n - 1);
        assert(batch(store, world, phase, list, n).ids.take(m) =~= batch(
            store,
            world,
            phase,
            list,
            n - 1,
        ).ids.take(m));
    } else {
        assert(batch(store, world, phase, list, n).ids.take(m) =~= batch(
            store,
            world,
            phase,
            list,
            n,
        ).ids);
    }
}

} // verus!
