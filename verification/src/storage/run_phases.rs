//! A merge as a whole, phase by phase: it comes to an end, and its answer says whether the
//! chunk had rows.

use crate::sql::names::Table;
use crate::storage::apply::{
    counted, first_step, fresh, no_rows, paired, rows_found, writes, ApplyView, BlobColumn, Phase,
    ProgressView,
};
use crate::storage::apply_laws::settling_keeps;
use crate::storage::lookup::basket_names_query;
use crate::storage::run::{
    all_ids, asked, batch, batched, blob_table, filled_all, next, run, table_of, takes_user,
    user_merged, State, Store, World,
};
use crate::time::latest;
use crate::types::{ProcessSyncChunkResult, SyncChunk};
use vstd::prelude::*;

verus! {

/// The merge after the lookups of a phase.
pub open spec fn looked_up(store: Store, world: World, s: ApplyView, phase: Phase) -> ApplyView {
    match phase {
        Phase::Transactions => if s.proof_queries().len() > 0 {
            ApplyView {
                proofs: (store.lookup)(s.proof_queries(), world.rows(Table::ProvenTxs)),
                ..s
            }
        } else {
            s
        },
        Phase::Outputs => if s.chunk.outputs is None {
            s
        } else {
            spends_looked_up(store, world, names_looked_up(store, world, s))
        },
        _ => s,
    }
}

pub open spec fn names_looked_up(store: Store, world: World, s: ApplyView) -> ApplyView {
    ApplyView {
        txids: if s.txid_queries().len() > 0 {
            (store.lookup)(s.txid_queries(), world.rows(Table::Transactions))
        } else {
            s.txids
        },
        basket_names: (store.lookup)(
            seq![basket_names_query(s.user_id)],
            world.rows(Table::OutputBaskets),
        ),
        ..s
    }
}

pub open spec fn spends_looked_up(store: Store, world: World, s: ApplyView) -> ApplyView {
    if s.spend_queries().len() > 0 {
        ApplyView {
            spends: (store.lookup)(s.spend_queries(), world.rows(Table::Transactions)),
            ..s
        }
    } else {
        s
    }
}

/// The merge after the object store was asked for a column.
pub open spec fn asked_for(
    store: Store,
    world: World,
    s: ApplyView,
    column: BlobColumn,
) -> ApplyView {
    let found = rows_found(
        (store.lookup)(s.empty_queries(column), world.rows(blob_table(column))),
    );
    if s.empty_queries(column).len() > 0 && found.len() > 0 {
        s.holding(column, found, asked(world, column, found))
    } else {
        s
    }
}

/// The merge before the batch of a phase is run.
pub open spec fn prepared(store: Store, world: World, s: ApplyView, phase: Phase) -> ApplyView {
    let p = looked_up(store, world, s, phase);
    match phase {
        Phase::ProvenTxReqs => asked_for(store, world, p, BlobColumn::RequestBeef),
        Phase::Transactions => asked_for(
            store,
            world,
            asked_for(store, world, p, BlobColumn::RawTx),
            BlobColumn::InputBeef,
        ),
        Phase::Outputs => if s.chunk.outputs is None {
            p
        } else {
            asked_for(store, world, p, BlobColumn::LockingScript)
        },
        _ => p,
    }
}

/// The world and the merge after a phase, where its batch did not fail.
#[verifier::opaque]
pub open spec fn went(store: Store, world: World, s: ApplyView, phase: Phase) -> (
    World,
    Option<ApplyView>,
) {
    let p = prepared(store, world, s, phase);
    let list = p.planned(phase);
    let n = list.len() as int;
    if n == 0 {
        (world, Some(p.settled(phase, list, Seq::empty())))
    } else {
        let after = batched(store, world, phase, list, n);
        match all_ids(batch(store, world, phase, list, n).ids) {
            Some(ids) => {
                let blobs = writes(list, ids, paired(list, ids));
                (
                    filled_all(after, table_of(phase), blobs, blobs.len() as int),
                    Some(p.settled(phase, list, ids)),
                )
            },
            None => (after, None),
        }
    }
}

/// The state after a phase.
pub open spec fn after_phase(store: Store, world: World, s: ApplyView, phase: Phase) -> State {
    let (after, end) = went(store, world, s, phase);
    State {
        world: after,
        step: match end {
            Some(t) => Some(t.enter(phase.following())),
            None => None,
        },
    }
}

/// The state at the end of a merge that is at a phase.
pub open spec fn finish(store: Store, world: World, s: ApplyView, phase: Phase) -> State
    decreases phase.left(),
{
    if phase == Phase::Finished {
        State { world, step: Some(ProgressView::Done { result: s.result }) }
    } else {
        let (after, end) = went(store, world, s, phase);
        match end {
            Some(t) => finish(store, after, t, phase.following()),
            None => State { world: after, step: None },
        }
    }
}

/// Steps add up.
pub proof fn runs_add_up(store: Store, state: State, a: nat, b: nat)
    ensures
        run(store, run(store, state, a), b) == run(store, state, a + b),
    decreases b,
{
    if b > 0 {
        runs_add_up(store, state, a, (b - 1) as nat);
    }
}

proof fn one_step(store: Store, state: State)
    ensures
        run(store, state, 1) == next(store, state),
{
    reveal_with_fuel(run, 2);
}

proof fn past_a_column(store: Store, world: World, s: ApplyView, column: BlobColumn) -> (n: nat)
    ensures
        run(store, State { world, step: Some(s.probe(column)) }, n) == (State {
            world,
            step: Some(asked_for(store, world, s, column).past(column)),
        }),
{
    let state = State { world, step: Some(s.probe(column)) };
    if s.empty_queries(column).len() == 0 {
        0
    } else {
        one_step(store, state);
        let found = rows_found(
            (store.lookup)(s.empty_queries(column), world.rows(blob_table(column))),
        );
        if found.len() == 0 {
            1
        } else {
            one_step(store, next(store, state));
            runs_add_up(store, state, 1, 1);
            2
        }
    }
}

proof fn column_to_batch(store: Store, world: World, s: ApplyView, column: BlobColumn) -> (n: nat)
    ensures
        run(store, State { world, step: Some(s.probe(column)) }, n) == (State {
            world,
            step: Some(
                (match column {
                    BlobColumn::RawTx => asked_for(
                        store,
                        world,
                        asked_for(store, world, s, BlobColumn::RawTx),
                        BlobColumn::InputBeef,
                    ),
                    _ => asked_for(store, world, s, column),
                }).run(column.phase()),
            ),
        }),
{
    let n = past_a_column(store, world, s, column);
    if column == BlobColumn::RawTx {
        let p = asked_for(store, world, s, column);
        let m = past_a_column(store, world, p, BlobColumn::InputBeef);
        runs_add_up(store, State { world, step: Some(s.probe(column)) }, n, m);
        n + m
    } else {
        n
    }
}

proof fn outputs_to_probe(store: Store, world: World, s: ApplyView) -> (n: nat)
    requires
        s.chunk.outputs is Some,
    ensures
        run(store, State { world, step: Some(s.enter(Phase::Outputs)) }, n) == (State {
            world,
            step: Some(
                looked_up(store, world, s, Phase::Outputs).probe(BlobColumn::LockingScript),
            ),
        }),
{
    let start = State { world, step: Some(s.enter(Phase::Outputs)) };
    let named = ApplyView {
        txids: if s.txid_queries().len() > 0 {
            (store.lookup)(s.txid_queries(), world.rows(Table::Transactions))
        } else {
            s.txids
        },
        ..s
    };
    let names = State {
        world,
        step: Some(
            ProgressView::LoadBasketNames {
                apply: named,
                query: basket_names_query(s.user_id),
            },
        ),
    };
    let a: nat = if s.txid_queries().len() > 0 {
        1
    } else {
        0
    };
    one_step(store, start);
    assert(run(store, start, a) == names);
    one_step(store, names);
    runs_add_up(store, start, a, 1);
    let found = (store.lookup)(
        seq![basket_names_query(s.user_id)],
        world.rows(Table::OutputBaskets),
    );
    let p = names_looked_up(store, world, s);
    assert(p == (ApplyView { basket_names: found, ..named }));
    let known = run(store, start, a + 1);
    assert(known == (State { world, step: Some(named.after_basket_names(found)) }));
    if p.spend_queries().len() > 0 {
        one_step(store, known);
        runs_add_up(store, start, a + 1, 1);
        a + 2
    } else {
        a + 1
    }
}

/// A phase that is entered comes to its batch.
pub proof fn a_phase_comes_to_its_batch(
    store: Store,
    world: World,
    s: ApplyView,
    phase: Phase,
) -> (n: nat)
    requires
        phase != Phase::Finished,
    ensures
        run(store, State { world, step: Some(s.enter(phase)) }, n) == (State {
            world,
            step: Some(prepared(store, world, s, phase).run(phase)),
        }),
{
    let start = State { world, step: Some(s.enter(phase)) };
    match phase {
        Phase::ProvenTxReqs => column_to_batch(store, world, s, BlobColumn::RequestBeef),
        Phase::Transactions => {
            if s.proof_queries().len() > 0 {
                one_step(store, start);
                let m = column_to_batch(
                    store,
                    world,
                    looked_up(store, world, s, phase),
                    BlobColumn::RawTx,
                );
                runs_add_up(store, start, 1, m);
                1 + m
            } else {
                column_to_batch(store, world, s, BlobColumn::RawTx)
            }
        },
        Phase::Outputs => {
            if s.chunk.outputs is None {
                0
            } else {
                let a = outputs_to_probe(store, world, s);
                let m = column_to_batch(
                    store,
                    world,
                    looked_up(store, world, s, phase),
                    BlobColumn::LockingScript,
                );
                runs_add_up(store, start, a, m);
                a + m
            }
        },
        _ => 0,
    }
}

/// A phase that is entered comes to its end.
pub proof fn a_phase_comes_to_its_end(
    store: Store,
    world: World,
    s: ApplyView,
    phase: Phase,
) -> (n: nat)
    requires
        phase != Phase::Finished,
    ensures
        run(store, State { world, step: Some(s.enter(phase)) }, n) == after_phase(
            store,
            world,
            s,
            phase,
        ),
{
    reveal(went);
    let start = State { world, step: Some(s.enter(phase)) };
    let p = prepared(store, world, s, phase);
    let list = p.planned(phase);
    let a = a_phase_comes_to_its_batch(store, world, s, phase);
    if list.len() == 0 {
        a
    } else {
        let ready = State { world, step: Some(p.run(phase)) };
        one_step(store, ready);
        runs_add_up(store, start, a, 1);
        match all_ids(batch(store, world, phase, list, list.len() as int).ids) {
            None => a + 1,
            Some(ids) => {
                let blobs = writes(list, ids, paired(list, ids));
                if blobs.len() > 0 {
                    one_step(store, next(store, ready));
                    runs_add_up(store, start, a + 1, 1);
                    a + 2
                } else {
                    a + 1
                }
            },
        }
    }
}

/// A merge that is at a phase comes to its end.
pub proof fn a_merge_comes_to_its_end(
    store: Store,
    world: World,
    s: ApplyView,
    phase: Phase,
) -> (n: nat)
    ensures
        run(store, State { world, step: Some(s.enter(phase)) }, n) == finish(
            store,
            world,
            s,
            phase,
        ),
    decreases phase.left(),
{
    if phase == Phase::Finished {
        0
    } else {
        let a = a_phase_comes_to_its_end(store, world, s, phase);
        let (after, end) = went(store, world, s, phase);
        match end {
            Some(t) => {
                let b = a_merge_comes_to_its_end(store, after, t, phase.following());
                runs_add_up(store, State { world, step: Some(s.enter(phase)) }, a, b);
                a + b
            },
            None => a,
        }
    }
}

// ---------------------------------------------------------------------------
// The whole call
// ---------------------------------------------------------------------------

/// Whether a call is over.
pub open spec fn is_over(state: State) -> bool {
    state.step is None || state.step matches Some(ProgressView::Done { .. })
}

proof fn an_end_stays(store: Store, state: State, n: nat, k: nat)
    requires
        is_over(run(store, state, n)),
        n <= k,
    ensures
        run(store, state, k) == run(store, state, n),
    decreases k,
{
    if n < k {
        an_end_stays(store, state, n, (k - 1) as nat);
    }
}

/// A call ends in one way only.
pub(crate) proof fn one_end(store: Store, state: State, n: nat, k: nat)
    requires
        is_over(run(store, state, n)),
        is_over(run(store, state, k)),
    ensures
        run(store, state, n) == run(store, state, k),
{
    if n <= k {
        an_end_stays(store, state, n, k);
    } else {
        an_end_stays(store, state, k, n);
    }
}

/// The merge after the record of the user.
pub open spec fn past_user(s: ApplyView, updated: bool) -> ApplyView {
    if s.chunk.user is Some {
        ApplyView {
            result: ProcessSyncChunkResult {
                updates: if updated {
                    counted(s.result.updates, 1)
                } else {
                    s.result.updates
                },
                max_updated_at: Some(
                    latest(s.result.max_updated_at, s.chunk.user->0.updated_at),
                ),
                ..s.result
            },
            ..s
        }
    } else {
        s
    }
}

/// A call comes from its first step to the rows of its chunk.
pub(crate) proof fn a_call_comes_to_its_rows(
    store: Store,
    world: World,
    user_id: i64,
    chunk: SyncChunk,
) -> (n: nat)
    ensures
        ({
            let s = fresh(user_id, chunk);
            run(store, State { world, step: Some(first_step(user_id, chunk)) }, n) == (State {
                world: user_merged(world, s),
                step: Some(past_user(s, takes_user(world, s)).rest()),
            })
        }),
{
    let start = State { world, step: Some(first_step(user_id, chunk)) };
    if chunk.user is Some {
        reveal_with_fuel(run, 2);
        assert(run(store, start, 1) == next(store, start));
        1
    } else {
        0
    }
}

/// Where a call for a chunk ends, with its rows.
pub(crate) proof fn a_call_comes_to_its_end(
    store: Store,
    world: World,
    user_id: i64,
    chunk: SyncChunk,
) -> (n: nat)
    ensures
        ({
            let s = fresh(user_id, chunk);
            let past = past_user(s, takes_user(world, s));
            run(store, State { world, step: Some(first_step(user_id, chunk)) }, n) == (if no_rows(
                chunk,
            ) {
                State {
                    world: user_merged(world, s),
                    step: Some(
                        ProgressView::Done {
                            result: ProcessSyncChunkResult { done: true, ..past.result },
                        },
                    ),
                }
            } else {
                finish(store, user_merged(world, s), past, Phase::Baskets)
            })
        }),
{
    let start = State { world, step: Some(first_step(user_id, chunk)) };
    let s = fresh(user_id, chunk);
    let past = past_user(s, takes_user(world, s));
    let a = a_call_comes_to_its_rows(store, world, user_id, chunk);
    if no_rows(chunk) {
        a
    } else {
        let b = a_merge_comes_to_its_end(store, user_merged(world, s), past, Phase::Baskets);
        runs_add_up(store, start, a, b);
        a + b
    }
}

pub(crate) proof fn finish_is_over(store: Store, world: World, s: ApplyView, phase: Phase)
    ensures
        is_over(finish(store, world, s, phase)),
    decreases phase.left(),
{
    if phase != Phase::Finished {
        let (after, gone) = went(store, world, s, phase);
        if gone is Some {
            finish_is_over(store, after, gone->0, phase.following());
        }
    }
}

proof fn a_phase_keeps_the_answer(store: Store, world: World, s: ApplyView, phase: Phase)
    requires
        went(store, world, s, phase).1 is Some,
    ensures
        went(store, world, s, phase).1->0.result.done == s.result.done,
        went(store, world, s, phase).1->0.result.error == s.result.error,
{
    reveal(went);
    let p = prepared(store, world, s, phase);
    let list = p.planned(phase);
    assert(looked_up(store, world, s, phase).result == s.result);
    assert(p.result == s.result);
    settling_keeps(p, phase, list, Seq::empty());
    if let Some(ids) = all_ids(batch(store, world, phase, list, list.len() as int).ids) {
        settling_keeps(p, phase, list, ids);
    }
}

proof fn finishing_keeps_the_answer(store: Store, world: World, s: ApplyView, phase: Phase)
    ensures
        finish(store, world, s, phase).step matches Some(ProgressView::Done { result })
            ==> result.done == s.result.done && result.error == s.result.error,
    decreases phase.left(),
{
    if phase != Phase::Finished {
        let (after, gone) = went(store, world, s, phase);
        if gone is Some {
            a_phase_keeps_the_answer(store, world, s, phase);
            finishing_keeps_the_answer(store, after, gone->0, phase.following());
        }
    }
}

/// Every call comes to an end, whatever the store answers. An answer says that all is done
/// exactly where the chunk has no rows besides the user record, and never carries an error;
/// for a chunk without rows the call does give an answer.
pub proof fn a_call_is_done_without_rows(
    store: Store,
    world: World,
    user_id: i64,
    chunk: SyncChunk,
    n: nat,
)
    ensures
        ({
            let start = State { world, step: Some(first_step(user_id, chunk)) };
            &&& exists|m: nat| is_over(#[trigger] run(store, start, m))
            &&& run(store, start, n).step matches Some(ProgressView::Done { result })
                ==> result.done == no_rows(chunk) && result.error is None
            &&& no_rows(chunk) ==> run(store, start, 1).step is Some && is_over(
                run(store, start, 1),
            )
        }),
{
    let start = State { world, step: Some(first_step(user_id, chunk)) };
    let s = fresh(user_id, chunk);
    let past = past_user(s, takes_user(world, s));
    let merged = user_merged(world, s);
    let m = a_call_comes_to_its_end(store, world, user_id, chunk);
    if !no_rows(chunk) {
        finish_is_over(store, merged, past, Phase::Baskets);
        finishing_keeps_the_answer(store, merged, past, Phase::Baskets);
    } else {
        one_step(store, start);
    }
    assert(is_over(run(store, start, m)));
    if is_over(run(store, start, n)) {
        one_end(store, start, n, m);
    }
}

} // verus!
