//! What holds of a merge as a whole, wherever it ends or breaks off: it loses nothing, and a
//! blob that is there stays as it is.

use crate::entities::TableOutput;
use crate::r2::{object_key_text, THRESHOLD};
use crate::sql::expr::{at, is_empty_value, Row};
use crate::sql::names::{Column, Table};
use crate::sql::plan::{fills_blob, UpsertView};
use crate::sql::query::{QueryView, SqlValue};
use crate::storage::apply::{
    counted, fill_writes, first_step, fresh, given, held_rows, output_key, paired, rows_found,
    rows_of, short, writes, ApplyView, BlobColumn, EmptyRowView, EntryView, HeldView, Phase,
    ProgressView,
};
use crate::storage::apply_laws::planned_entries;
use crate::storage::blob_column::{blob_source, BlobWriteView};
use crate::storage::lookup::{every_key_is_asked_for, KEYS_PER_QUERY, KeyedId};
use crate::storage::merge::{
    a_blob_is_filled, blobs_are_only_filled, foreign, merging_keeps_the_key,
    merging_keeps_the_owner, newer_row_merges, same_key, Rows,
};
use crate::storage::run::{
    a_row_has_what_is_bound, all_ids, asked, batch, batched, blob_column, blob_step, blob_table,
    broken_off, filled, filled_all, hit, incoming, key_of, merge_with, next, plan_of, put, ran, run,
    table_of, takes_user, upserted, State, Store, World,
};
use crate::storage::upsert::output_merge;
use crate::text::{decimal_text, sorted_set, sorted_set_is_one};
use crate::time::latest;
use crate::types::{ProcessSyncChunkResult, SyncChunk};
use vstd::prelude::*;

verus! {

// ---------------------------------------------------------------------------
// Nothing is lost
// ---------------------------------------------------------------------------

/// Whether every row and every user of `a` is still there in `b`, and every object with its
/// bytes.
pub open spec fn keeps(a: World, b: World) -> bool {
    &&& forall|t: Table, k: i64| #[trigger]
        a.rows(t).contains_key(k) ==> b.rows(t).contains_key(k)
    &&& forall|k: i64| #[trigger] a.users.contains_key(k) ==> b.users.contains_key(k)
    &&& forall|key: Seq<char>| #[trigger]
        a.objects.contains_key(key) ==> b.objects.contains_key(key) && b.objects[key]
            == a.objects[key]
}

proof fn ran_keeps(
    store: Store,
    plan: UpsertView,
    baskets: Rows,
    rows: Rows,
    list: Seq<EntryView>,
    n: int,
)
    ensures
        forall|k: i64| #[trigger]
            rows.contains_key(k) ==> ran(store, plan, baskets, rows, list, n).rows.contains_key(k),
    decreases n,
{
    if n > 0 {
        ran_keeps(store, plan, baskets, rows, list, n - 1);
    }
}

proof fn batched_keeps(store: Store, world: World, phase: Phase, list: Seq<EntryView>, n: int)
    ensures
        keeps(world, batched(store, world, phase, list, n)),
{
    ran_keeps(
        store,
        plan_of(phase),
        world.rows(Table::OutputBaskets),
        world.rows(table_of(phase)),
        list,
        n,
    );
}

proof fn filled_all_keeps(world: World, table: Table, list: Seq<BlobWriteView>, n: int)
    ensures
        keeps(world, filled_all(world, table, list, n)),
    decreases n,
{
    if n > 0 {
        filled_all_keeps(world, table, list, n - 1);
        let before = filled_all(world, table, list, n - 1);
        assert(keeps(before, filled(before, table, list[n - 1])));
    }
}

proof fn next_keeps(store: Store, state: State)
    ensures
        keeps(state.world, next(store, state).world),
{
    match state.step {
        Some(ProgressView::RunUpserts { apply, phase, entries }) => {
            batched_keeps(store, state.world, phase, entries, entries.len() as int);
        },
        Some(ProgressView::PutBlobs { apply, phase, writes }) => {
            filled_all_keeps(state.world, table_of(phase), writes, writes.len() as int);
        },
        _ => {},
    }
}

proof fn broken_off_keeps(store: Store, state: State, m: nat, put_next: bool)
    ensures
        keeps(state.world, broken_off(store, state, m, put_next)),
{
    match state.step {
        Some(ProgressView::RunUpserts { apply, phase, entries }) => {
            batched_keeps(store, state.world, phase, entries, m as int);
        },
        Some(ProgressView::PutBlobs { apply, phase, writes }) => {
            filled_all_keeps(state.world, table_of(phase), writes, m as int);
        },
        _ => {},
    }
}

/// A merge loses nothing: whatever the store answers, and whether the call succeeds, fails
/// or breaks off in the middle of a step, no row is gone and every object has its bytes.
pub proof fn a_merge_loses_nothing(store: Store, state: State, n: nat, m: nat, put_next: bool)
    ensures
        keeps(state.world, run(store, state, n).world),
        keeps(state.world, broken_off(store, run(store, state, n), m, put_next)),
    decreases n,
{
    if n > 0 {
        a_merge_loses_nothing(store, state, (n - 1) as nat, m, put_next);
        next_keeps(store, run(store, state, (n - 1) as nat));
    }
    broken_off_keeps(store, run(store, state, n), m, put_next);
}

// ---------------------------------------------------------------------------
// Blobs stay
// ---------------------------------------------------------------------------

/// The column as a column of its table.
pub open spec fn field(column: BlobColumn) -> Column {
    match column {
        BlobColumn::RequestBeef => Column::InputBeef,
        BlobColumn::RawTx => Column::RawTx,
        BlobColumn::InputBeef => Column::InputBeef,
        BlobColumn::LockingScript => Column::LockingScript,
    }
}

/// The text that a row is found by when its column is empty.
pub open spec fn row_key(column: BlobColumn, row: Row) -> Option<Seq<char>> {
    match column {
        BlobColumn::RequestBeef => match at(row, Column::Txid) {
            SqlValue::Text(txid) => Some(txid),
            _ => None,
        },
        BlobColumn::RawTx | BlobColumn::InputBeef => match at(row, Column::Reference) {
            SqlValue::Text(reference) => Some(reference),
            _ => None,
        },
        BlobColumn::LockingScript => match (at(row, Column::TransactionId), at(row, Column::Vout)) {
            (SqlValue::Int(id), SqlValue::Int(vout)) => Some(
                decimal_text(id) + ":"@ + decimal_text(vout),
            ),
            _ => None,
        },
    }
}

/// The key of the object for a blob of a row.
pub open spec fn place_key(column: BlobColumn, id: i64) -> Seq<char> {
    object_key_text(column.table(), id as int, column.column())
}

/// What a row has in the column.
pub open spec fn value_at(world: World, column: BlobColumn, id: i64) -> SqlValue {
    at(world.rows(blob_table(column))[id], field(column))
}

/// Whether a row is there and has its blob, in the column or in the object store.
pub open spec fn populated(world: World, column: BlobColumn, id: i64) -> bool {
    &&& world.rows(blob_table(column)).contains_key(id)
    &&& !is_empty_value(value_at(world, column, id)) || world.objects.contains_key(
        place_key(column, id),
    )
}

/// Whether a blob that is there in `a` is in the same place in `b`, with the same bytes.
pub open spec fn same_place(a: World, b: World, column: BlobColumn, id: i64) -> bool {
    &&& b.rows(blob_table(column)).contains_key(id)
    &&& is_empty_value(value_at(b, column, id)) == is_empty_value(value_at(a, column, id))
    &&& !is_empty_value(value_at(a, column, id)) ==> value_at(b, column, id) == value_at(
        a,
        column,
        id,
    )
    &&& a.objects.contains_key(place_key(column, id)) ==> b.objects.contains_key(
        place_key(column, id),
    ) && b.objects[place_key(column, id)] == a.objects[place_key(column, id)]
}

/// Whether a statement asks for a row by its key.
pub open spec fn asks_for(column: BlobColumn, query: QueryView, row: Row) -> bool {
    let first: int = if column.of_user() {
        1
    } else {
        0
    };
    &&& row_key(column, row) is Some
    &&& column.of_user() ==> query.params.len() > 0 && query.params[0] == at(row, Column::UserId)
    &&& exists|i: int|
        first <= i < query.params.len() && #[trigger] query.params[i] == SqlValue::Text(
            row_key(column, row)->0,
        )
}

/// Whether an answer lists a row under a key.
pub open spec fn lists(rows: Seq<KeyedId>, key: Seq<char>, id: i64) -> bool {
    exists|j: int|
        0 <= j < rows.len() && (#[trigger] rows[j]).id == Some(id) && (rows[j].key matches Some(k)
            && k@ == key)
}

/// Whether one of the statements asks for a row whose column is empty.
pub open spec fn sought(column: BlobColumn, queries: Seq<QueryView>, rows: Rows, id: i64) -> bool {
    &&& rows.contains_key(id)
    &&& is_empty_value(at(rows[id], field(column)))
    &&& exists|q: int|
        0 <= q < queries.len() && asks_for(column, #[trigger] queries[q], rows[id])
}

/// Whether statements that look for empty columns find every row that they ask for.
pub open spec fn finds_all(
    store: Store,
    column: BlobColumn,
    queries: Seq<QueryView>,
    rows: Rows,
) -> bool {
    forall|id: i64| #[trigger]
        sought(column, queries, rows, id) ==> lists(
            (store.lookup)(queries, rows),
            row_key(column, rows[id])->0,
            id,
        )
}

/// Whether the statements of a step that look for empty columns find every row that they
/// ask for.
pub open spec fn finds_empty_rows(store: Store, state: State) -> bool {
    match state.step {
        Some(ProgressView::FindEmpty { apply, column, queries }) => finds_all(
            store,
            column,
            queries,
            state.world.rows(blob_table(column)),
        ),
        _ => true,
    }
}

/// Whether a batch would fill a column of a row whose blob is in the object store.
pub open spec fn endangered(world: World, s: ApplyView, column: BlobColumn, id: i64) -> bool {
    let rows = world.rows(blob_table(column));
    &&& rows.contains_key(id)
    &&& is_empty_value(at(rows[id], field(column)))
    &&& row_key(column, rows[id]) is Some
    &&& column.of_user() ==> at(rows[id], Column::UserId) == SqlValue::Int(s.user_id as int)
    &&& s.wanted(column).contains(row_key(column, rows[id])->0)
    &&& world.objects.contains_key(place_key(column, id))
}

/// Whether every blob that a batch would fill beside the object store is withheld.
pub open spec fn covered(world: World, s: ApplyView, column: BlobColumn) -> bool {
    forall|id: i64| #[trigger]
        endangered(world, s, column, id) ==> s.is_held(
            column,
            row_key(column, world.rows(blob_table(column))[id])->0,
        )
}

/// Whether every row whose blob has to be withheld was found.
pub open spec fn all_found(
    world: World,
    s: ApplyView,
    column: BlobColumn,
    found: Seq<EmptyRowView>,
) -> bool {
    forall|id: i64| #[trigger]
        endangered(world, s, column, id) ==> found.contains(
            EmptyRowView { key: row_key(column, world.rows(blob_table(column))[id])->0, id },
        )
}

/// What every step of a merge can rely on.
pub open spec fn ready(state: State) -> bool {
    let world = state.world;
    match state.step {
        Some(ProgressView::RunUpserts { apply, phase, entries }) => {
            &&& entries == apply.planned(phase)
            &&& forall|c: BlobColumn|
                c.phase() == phase ==> #[trigger] covered(world, apply, c)
        },
        Some(ProgressView::FindEmpty { apply, column, queries }) => {
            &&& queries == apply.empty_queries(column)
            &&& column == BlobColumn::InputBeef ==> covered(world, apply, BlobColumn::RawTx)
        },
        Some(ProgressView::AskStore { apply, column, found }) => {
            &&& all_found(world, apply, column, found)
            &&& column == BlobColumn::InputBeef ==> covered(world, apply, BlobColumn::RawTx)
        },
        Some(ProgressView::PutBlobs { apply, phase, writes }) => {
            &&& phase != Phase::Finished
            &&& forall|i: int|
                0 <= i < writes.len() ==> (#[trigger] writes[i]).table == table_of(phase).text()
        },
        _ => true,
    }
}

proof fn nothing_asked_nothing_wanted(s: ApplyView, column: BlobColumn)
    requires
        s.empty_queries(column).len() == 0,
    ensures
        s.wanted(column).len() == 0,
{
    let all = s.wanted(column);
    sorted_set_is_one(all);
    if all.len() > 0 {
        assert(all.contains(all[0]));
        assert(sorted_set(all).contains(all[0]));
    }
}

proof fn probe_is_ready(world: World, s: ApplyView, column: BlobColumn)
    requires
        column == BlobColumn::InputBeef ==> covered(world, s, BlobColumn::RawTx),
    ensures
        ready(State { world, step: Some(s.probe(column)) }),
    decreases column.phase().left(), column.left() + 1,
{
    if s.empty_queries(column).len() == 0 {
        nothing_asked_nothing_wanted(s, column);
        assert(covered(world, s, column));
        match column.following() {
            Some(following) => {
                probe_is_ready(world, s, following);
            },
            None => {
                run_is_ready(world, s, column.phase());
            },
        }
    }
}

proof fn run_is_ready(world: World, s: ApplyView, phase: Phase)
    requires
        forall|c: BlobColumn| c.phase() == phase ==> #[trigger] covered(world, s, c),
    ensures
        ready(State { world, step: Some(s.run(phase)) }),
    decreases phase.left(), 0int,
{
    if phase != Phase::Finished && s.planned(phase).len() == 0 {
        enter_is_ready(
            world,
            s.settled(phase, s.planned(phase), Seq::empty()),
            phase.following(),
        );
    }
}

proof fn enter_is_ready(world: World, s: ApplyView, phase: Phase)
    ensures
        ready(State { world, step: Some(s.enter(phase)) }),
    decreases phase.left(), 3int,
{
    match phase {
        Phase::Finished => {},
        Phase::ProvenTxReqs => {
            probe_is_ready(world, s, BlobColumn::RequestBeef);
        },
        Phase::Transactions => {
            if s.proof_queries().len() == 0 {
                probe_is_ready(world, s, BlobColumn::RawTx);
            }
        },
        Phase::Outputs => {
            if s.chunk.outputs is None {
                assert(s.wanted(BlobColumn::LockingScript).len() == 0) by {
                    let rows = rows_of(s.chunk.outputs);
                    assert(rows.len() == 0);
                }
                assert(covered(world, s, BlobColumn::LockingScript));
                run_is_ready(world, s, phase);
            }
        },
        _ => {
            run_is_ready(world, s, phase);
        },
    }
}

proof fn past_is_ready(world: World, s: ApplyView, column: BlobColumn)
    requires
        covered(world, s, column),
        column == BlobColumn::InputBeef ==> covered(world, s, BlobColumn::RawTx),
    ensures
        ready(State { world, step: Some(s.past(column)) }),
{
    match column.following() {
        Some(following) => {
            probe_is_ready(world, s, following);
        },
        None => {
            run_is_ready(world, s, column.phase());
        },
    }
}

proof fn found_is_listed(rows: Seq<KeyedId>, key: Seq<char>, id: i64)
    requires
        lists(rows, key, id),
    ensures
        rows_found(rows).contains(EmptyRowView { key, id }),
    decreases rows.len(),
{
    let j = choose|j: int|
        0 <= j < rows.len() && (#[trigger] rows[j]).id == Some(id) && (rows[j].key matches Some(k)
            && k@ == key);
    let rest = rows.drop_last();
    if j < rows.len() - 1 {
        assert(rest[j] == rows[j]);
        found_is_listed(rest, key, id);
        let i = choose|i: int|
            0 <= i < rows_found(rest).len() && rows_found(rest)[i] == (EmptyRowView { key, id });
        assert(rows_found(rows)[i] == (EmptyRowView { key, id }));
    } else {
        assert(rows_found(rows)[rows_found(rows).len() - 1] == (EmptyRowView { key, id }));
    }
}

proof fn answered_is_held(
    column: BlobColumn,
    found: Seq<EmptyRowView>,
    exists: Seq<bool>,
    n: int,
    j: int,
)
    requires
        0 <= j < n <= found.len(),
        found.len() == exists.len(),
        exists[j],
    ensures
        held_rows(column, found, exists, n).contains(HeldView { column, key: found[j].key }),
    decreases n,
{
    let now = held_rows(column, found, exists, n);
    if j == n - 1 {
        assert(now[now.len() - 1] == (HeldView { column, key: found[j].key }));
    } else {
        answered_is_held(column, found, exists, n - 1, j);
        let before = held_rows(column, found, exists, n - 1);
        let i = choose|i: int|
            0 <= i < before.len() && before[i] == (HeldView { column, key: found[j].key });
        assert(now[i] == (HeldView { column, key: found[j].key }));
    }
}

proof fn wanted_rows_are_asked_for(s: ApplyView, column: BlobColumn, row: Row)
    requires
        row_key(column, row) is Some,
        column.of_user() ==> at(row, Column::UserId) == SqlValue::Int(s.user_id as int),
        s.wanted(column).contains(row_key(column, row)->0),
    ensures
        exists|q: int|
            0 <= q < s.empty_queries(column).len() && asks_for(
                column,
                #[trigger] s.empty_queries(column)[q],
                row,
            ),
{
    let key = row_key(column, row)->0;
    let all = s.wanted(column);
    let keys = sorted_set(all);
    sorted_set_is_one(all);
    assert(keys.contains(key));
    let i = choose|i: int| 0 <= i < keys.len() && keys[i] == key;
    let user: Option<i64> = if column.of_user() {
        Some(s.user_id)
    } else {
        None
    };
    every_key_is_asked_for(column.select(), user, keys, i);
    let g = i / (KEYS_PER_QUERY as int);
    let k = i % (KEYS_PER_QUERY as int);
    let first: int = if column.of_user() {
        1
    } else {
        0
    };
    let query = s.empty_queries(column)[g];
    assert(query.params[first + k] == SqlValue::Text(key));
    assert(asks_for(column, query, row));
}

proof fn wanted_is_kept(s: ApplyView, t: ApplyView, column: BlobColumn)
    requires
        t.chunk == s.chunk,
        t.ids == s.ids,
        t.txids == s.txids,
    ensures
        t.wanted(column) == s.wanted(column),
{
    let rows = rows_of(s.chunk.outputs);
    assert(Seq::new(rows.len(), |i: int| t.wanted_output(rows[i])) =~= Seq::new(
        rows.len(),
        |i: int| s.wanted_output(rows[i]),
    ));
}

proof fn holding_keeps_covered(
    world: World,
    s: ApplyView,
    column: BlobColumn,
    found: Seq<EmptyRowView>,
    exists: Seq<bool>,
    other: BlobColumn,
)
    requires
        covered(world, s, other),
    ensures
        covered(world, s.holding(column, found, exists), other),
{
    let after = s.holding(column, found, exists);
    wanted_is_kept(s, after, other);
    assert forall|id: i64| #[trigger] endangered(world, after, other, id) implies after.is_held(
        other,
        row_key(other, world.rows(blob_table(other))[id])->0,
    ) by {
        assert(endangered(world, s, other, id));
        let want = HeldView {
            column: other,
            key: row_key(other, world.rows(blob_table(other))[id])->0,
        };
        let i = choose|i: int| 0 <= i < s.held.len() && s.held[i] == want;
        assert(after.held[i] == want);
    }
}

proof fn writes_name_the_table(s: ApplyView, phase: Phase, ids: Seq<i64>, n: int, w: int)
    requires
        n <= s.planned(phase).len(),
        0 <= w < writes(s.planned(phase), ids, n).len(),
    ensures
        writes(s.planned(phase), ids, n)[w].table == table_of(phase).text(),
    decreases n,
{
    let list = s.planned(phase);
    let before = writes(list, ids, n - 1);
    if w < before.len() {
        writes_name_the_table(s, phase, ids, n - 1, w);
    } else {
        planned_entries(s, phase, n - 1);
        let f = w - before.len();
        assert(writes(list, ids, n)[w] == fill_writes(list[n - 1], ids[n - 1])[f]);
        assert(list[n - 1].fills[f].table == table_of(phase).text());
    }
}

proof fn batch_is_ready(
    world: World,
    s: ApplyView,
    phase: Phase,
    list: Seq<EntryView>,
    ids: Seq<i64>,
)
    requires
        list == s.planned(phase),
    ensures
        ready(State { world, step: Some(s.after_batch(phase, list, ids)) }),
{
    let n = paired(list, ids);
    if writes(list, ids, n).len() > 0 {
        assert forall|w: int| 0 <= w < writes(list, ids, n).len() implies (#[trigger] writes(
            list,
            ids,
            n,
        )[w]).table == table_of(phase).text() by {
            writes_name_the_table(s, phase, ids, n, w);
        }
    } else {
        enter_is_ready(world, s.settled(phase, list, ids), phase.following());
    }
}

proof fn empty_rows_are_found(store: Store, world: World, s: ApplyView, column: BlobColumn)
    requires
        finds_all(store, column, s.empty_queries(column), world.rows(blob_table(column))),
    ensures
        all_found(
            world,
            s,
            column,
            rows_found((store.lookup)(s.empty_queries(column), world.rows(blob_table(column)))),
        ),
{
    let rows = world.rows(blob_table(column));
    let queries = s.empty_queries(column);
    let answer = (store.lookup)(queries, rows);
    assert forall|id: i64| #[trigger] endangered(world, s, column, id) implies rows_found(
        answer,
    ).contains(EmptyRowView { key: row_key(column, rows[id])->0, id }) by {
        wanted_rows_are_asked_for(s, column, rows[id]);
        assert(sought(column, queries, rows, id));
        found_is_listed(answer, row_key(column, rows[id])->0, id);
    }
}

proof fn empty_is_ready(store: Store, world: World, s: ApplyView, column: BlobColumn)
    requires
        finds_all(store, column, s.empty_queries(column), world.rows(blob_table(column))),
        column == BlobColumn::InputBeef ==> covered(world, s, BlobColumn::RawTx),
    ensures
        ready(
            State {
                world,
                step: Some(
                    s.after_empty(
                        column,
                        (store.lookup)(
                            s.empty_queries(column),
                            world.rows(blob_table(column)),
                        ),
                    ),
                ),
            },
        ),
{
    empty_rows_are_found(store, world, s, column);
    let answer = (store.lookup)(s.empty_queries(column), world.rows(blob_table(column)));
    if rows_found(answer).len() == 0 {
        assert forall|id: i64| #[trigger] endangered(world, s, column, id) implies s.is_held(
            column,
            row_key(column, world.rows(blob_table(column))[id])->0,
        ) by {
            assert(rows_found(answer).contains(
                EmptyRowView { key: row_key(column, world.rows(blob_table(column))[id])->0, id },
            ));
        }
        past_is_ready(world, s, column);
    }
}

proof fn answer_is_ready(
    world: World,
    s: ApplyView,
    column: BlobColumn,
    found: Seq<EmptyRowView>,
)
    requires
        all_found(world, s, column, found),
        column == BlobColumn::InputBeef ==> covered(world, s, BlobColumn::RawTx),
    ensures
        ready(
            State {
                world,
                step: Some(s.holding(column, found, asked(world, column, found)).past(column)),
            },
        ),
{
    let exists = asked(world, column, found);
    let after = s.holding(column, found, exists);
    let more = held_rows(column, found, exists, found.len() as int);
    wanted_is_kept(s, after, column);
    assert forall|id: i64| #[trigger] endangered(world, after, column, id) implies after.is_held(
        column,
        row_key(column, world.rows(blob_table(column))[id])->0,
    ) by {
        let key = row_key(column, world.rows(blob_table(column))[id])->0;
        assert(endangered(world, s, column, id));
        let j = choose|j: int| 0 <= j < found.len() && found[j] == (EmptyRowView { key, id });
        assert(exists[j]);
        answered_is_held(column, found, exists, found.len() as int, j);
        let i = choose|i: int| 0 <= i < more.len() && more[i] == (HeldView { column, key });
        assert(after.held[s.held.len() + i] == (HeldView { column, key }));
    }
    if column == BlobColumn::InputBeef {
        holding_keeps_covered(world, s, column, found, exists, BlobColumn::RawTx);
    }
    past_is_ready(world, after, column);
}

proof fn user_is_ready(world: World, s: ApplyView, updated: bool)
    ensures
        ready(State { world, step: Some(s.after_user(updated)) }),
        ready(State { world, step: Some(s.rest()) }),
{
    let result = ProcessSyncChunkResult {
        updates: if updated {
            counted(s.result.updates, 1)
        } else {
            s.result.updates
        },
        max_updated_at: match s.chunk.user {
            Some(user) => Some(latest(s.result.max_updated_at, user.updated_at)),
            None => s.result.max_updated_at,
        },
        ..s.result
    };
    enter_is_ready(world, ApplyView { result, ..s }, Phase::Baskets);
    enter_is_ready(world, s, Phase::Baskets);
}

proof fn names_are_ready(world: World, s: ApplyView, rows: Seq<KeyedId>)
    ensures
        ready(State { world, step: Some(s.after_basket_names(rows)) }),
{
    let after = ApplyView { basket_names: rows, ..s };
    if after.spend_queries().len() == 0 {
        probe_is_ready(world, after, BlobColumn::LockingScript);
    }
}

#[verifier::spinoff_prover]
proof fn next_is_ready(store: Store, state: State)
    requires
        ready(state),
        finds_empty_rows(store, state),
    ensures
        ready(next(store, state)),
{
    let world = state.world;
    let after = next(store, state);
    assert(after == (State { world: after.world, step: after.step }));
    match state.step {
        None => {},
        Some(ProgressView::Done { .. }) => {},
        Some(ProgressView::MergeUser { apply }) => {
            user_is_ready(after.world, apply, takes_user(world, apply));
        },
        Some(ProgressView::RunUpserts { apply, phase, entries }) => {
            match all_ids(batch(store, world, phase, entries, entries.len() as int).ids) {
                Some(ids) => {
                    batch_is_ready(after.world, apply, phase, entries, ids);
                },
                None => {},
            }
        },
        Some(ProgressView::LoadProofs { apply, queries }) => {
            let rows = (store.lookup)(queries, world.rows(Table::ProvenTxs));
            probe_is_ready(world, ApplyView { proofs: rows, ..apply }, BlobColumn::RawTx);
        },
        Some(ProgressView::LoadTxids { apply, queries }) => {},
        Some(ProgressView::LoadBasketNames { apply, query }) => {
            let rows = (store.lookup)(seq![query], world.rows(Table::OutputBaskets));
            names_are_ready(world, apply, rows);
        },
        Some(ProgressView::LoadSpends { apply, queries }) => {
            let rows = (store.lookup)(queries, world.rows(Table::Transactions));
            probe_is_ready(world, ApplyView { spends: rows, ..apply }, BlobColumn::LockingScript);
        },
        Some(ProgressView::FindEmpty { apply, column, queries }) => {
            assert(state == (State {
                world,
                step: Some(ProgressView::FindEmpty { apply, column, queries }),
            }));
            empty_is_ready(store, world, apply, column);
        },
        Some(ProgressView::AskStore { apply, column, found }) => {
            answer_is_ready(world, apply, column, found);
        },
        Some(ProgressView::PutBlobs { apply, phase, writes }) => {
            enter_is_ready(after.world, apply, phase.following());
        },
    }
}

proof fn given_has(list: Seq<Option<Seq<char>>>, i: int)
    requires
        0 <= i < list.len(),
        list[i] is Some,
    ensures
        given(list).contains(list[i]->0),
    decreases list.len(),
{
    let text = list[i]->0;
    let rest = list.drop_last();
    if i < list.len() - 1 {
        assert(rest[i] == list[i]);
        given_has(rest, i);
        let j = choose|j: int| 0 <= j < given(rest).len() && given(rest)[j] == text;
        assert(given(list)[j] == text);
    } else {
        assert(given(list)[given(list).len() - 1] == text);
    }
}

/// What a batch brings in for a column whose blob may be in the object store: a blob with
/// some bytes is one of those that were asked for, and not withheld.
pub open spec fn brings(s: ApplyView, column: BlobColumn, row: Row) -> bool {
    &&& row_key(column, row) is Some
    &&& column.of_user() ==> at(row, Column::UserId) == SqlValue::Int(s.user_id as int)
    &&& is_empty_value(at(row, field(column))) || (s.wanted(column).contains(
        row_key(column, row)->0,
    ) && !s.is_held(column, row_key(column, row)->0))
}

#[verifier::rlimit(40)]
proof fn request_brings(s: ApplyView, k: int)
    requires
        0 <= k < s.planned(Phase::ProvenTxReqs).len(),
    ensures
        brings(
            s,
            BlobColumn::RequestBeef,
            incoming(plan_of(Phase::ProvenTxReqs), s.planned(Phase::ProvenTxReqs)[k]),
        ),
{
    let phase = Phase::ProvenTxReqs;
    let entry = s.planned(phase)[k];
    a_row_has_what_is_bound(phase, entry, 0);
    a_row_has_what_is_bound(phase, entry, 7);
    let rows = rows_of(s.chunk.proven_tx_reqs);
    let list = Seq::new(
        rows.len(),
        |i: int|
            if short(rows[i].input_beef) {
                Some(rows[i].txid@)
            } else {
                None
            },
    );
    if short(rows[k].input_beef) {
        given_has(list, k);
    }
}

#[verifier::rlimit(40)]
proof fn transaction_brings(s: ApplyView, column: BlobColumn, k: int)
    requires
        column == BlobColumn::RawTx || column == BlobColumn::InputBeef,
        0 <= k < s.planned(Phase::Transactions).len(),
    ensures
        brings(
            s,
            column,
            incoming(plan_of(Phase::Transactions), s.planned(Phase::Transactions)[k]),
        ),
{
    let phase = Phase::Transactions;
    let entry = s.planned(phase)[k];
    a_row_has_what_is_bound(phase, entry, 0);
    a_row_has_what_is_bound(phase, entry, 3);
    a_row_has_what_is_bound(phase, entry, 10);
    a_row_has_what_is_bound(phase, entry, 11);
    let rows = rows_of(s.chunk.transactions);
    if column == BlobColumn::RawTx {
        let list = Seq::new(
            rows.len(),
            |i: int|
                if short(rows[i].raw_tx) {
                    Some(rows[i].reference@)
                } else {
                    None
                },
        );
        if short(rows[k].raw_tx) {
            given_has(list, k);
        }
    } else {
        let list = Seq::new(
            rows.len(),
            |i: int|
                if short(rows[i].input_beef) {
                    Some(rows[i].reference@)
                } else {
                    None
                },
        );
        if short(rows[k].input_beef) {
            given_has(list, k);
        }
    }
}

pub(crate) proof fn output_params(s: ApplyView, o: TableOutput, entry: EntryView)
    requires
        s.output_entry(o) == Some(entry),
    ensures
        s.transaction_of(o) is Some,
        entry.query.params[0] == SqlValue::Int(s.user_id as int),
        entry.query.params[1] == SqlValue::Int(s.transaction_of(o)->0 as int),
        entry.query.params[4] == SqlValue::Int(o.vout as int),
        is_empty_value(entry.query.params[6]) || (short(o.locking_script) && !s.is_held(
            BlobColumn::LockingScript,
            output_key(s.transaction_of(o)->0, o.vout),
        )),
{
}

#[verifier::rlimit(40)]
pub(crate) proof fn output_row(entry: EntryView)
    ensures
        ({
            let row = incoming(plan_of(Phase::Outputs), entry);
            &&& at(row, Column::UserId) == entry.query.params[0]
            &&& at(row, Column::TransactionId) == entry.query.params[1]
            &&& at(row, Column::Vout) == entry.query.params[4]
            &&& at(row, Column::LockingScript) == entry.query.params[6]
        }),
{
    let phase = Phase::Outputs;
    let columns = plan_of(phase).insert.columns;
    assert(columns[0].0 == Column::UserId);
    assert(columns[1].0 == Column::TransactionId);
    assert(columns[4].0 == Column::Vout);
    assert(columns[6].0 == Column::LockingScript);
    a_row_has_what_is_bound(phase, entry, 0);
    a_row_has_what_is_bound(phase, entry, 1);
    a_row_has_what_is_bound(phase, entry, 4);
    a_row_has_what_is_bound(phase, entry, 6);
}

proof fn output_row_brings(s: ApplyView, i: int, entry: EntryView, row: Row)
    requires
        0 <= i < rows_of(s.chunk.outputs).len(),
        s.output_entry(rows_of(s.chunk.outputs)[i]) == Some(entry),
        at(row, Column::UserId) == entry.query.params[0],
        at(row, Column::TransactionId) == entry.query.params[1],
        at(row, Column::Vout) == entry.query.params[4],
        at(row, Column::LockingScript) == entry.query.params[6],
    ensures
        brings(s, BlobColumn::LockingScript, row),
{
    let rows = rows_of(s.chunk.outputs);
    let o = rows[i];
    output_params(s, o, entry);
    let list = Seq::new(rows.len(), |i: int| s.wanted_output(rows[i]));
    if short(o.locking_script) {
        given_has(list, i);
        assert(list[i] == Some(output_key(s.transaction_of(o)->0, o.vout)));
    }
}

proof fn output_brings(s: ApplyView, k: int)
    requires
        0 <= k < s.planned(Phase::Outputs).len(),
    ensures
        brings(
            s,
            BlobColumn::LockingScript,
            incoming(plan_of(Phase::Outputs), s.planned(Phase::Outputs)[k]),
        ),
{
    let entry = s.planned(Phase::Outputs)[k];
    planned_entries(s, Phase::Outputs, k);
    let rows = rows_of(s.chunk.outputs);
    let i = choose|i: int| 0 <= i < rows.len() && Some(entry) == s.output_entry(#[trigger] rows[i]);
    output_row(entry);
    output_row_brings(s, i, entry, incoming(plan_of(Phase::Outputs), entry));
}

proof fn entry_brings(s: ApplyView, column: BlobColumn, k: int)
    requires
        0 <= k < s.planned(column.phase()).len(),
    ensures
        brings(
            s,
            column,
            incoming(plan_of(column.phase()), s.planned(column.phase())[k]),
        ),
{
    match column {
        BlobColumn::RequestBeef => request_brings(s, k),
        BlobColumn::RawTx => transaction_brings(s, column, k),
        BlobColumn::InputBeef => transaction_brings(s, column, k),
        BlobColumn::LockingScript => output_brings(s, k),
    }
}

proof fn same_key_same_text(column: BlobColumn, a: Row, b: Row)
    requires
        same_key(plan_of(column.phase()).key, a, b),
    ensures
        row_key(column, a) == row_key(column, b),
        column == BlobColumn::LockingScript ==> at(a, Column::UserId) == at(b, Column::UserId),
{
    let key = plan_of(column.phase()).key;
    match column {
        BlobColumn::RequestBeef => {
            assert(key[0] == Column::Txid);
        },
        BlobColumn::RawTx | BlobColumn::InputBeef => {
            assert(key[0] == Column::Reference);
        },
        BlobColumn::LockingScript => {
            assert(key[0] == Column::TransactionId);
            assert(key[1] == Column::Vout);
            assert(key[2] == Column::UserId);
        },
    }
}

proof fn blob_is_only_filled(column: BlobColumn)
    ensures
        plan_of(column.phase()).sets.contains(fills_blob(field(column))),
        newer_row_merges().contains(plan_of(column.phase())) || plan_of(column.phase())
            == output_merge(),
{
    blobs_are_only_filled();
    assert(newer_row_merges()[2] == plan_of(Phase::ProvenTxReqs));
    assert(newer_row_merges()[5] == plan_of(Phase::Transactions));
}

/// Whether a row of `b` is the one of `a` as far as its blob and its key go: a blob in the
/// column stays, and an empty column stays empty.
spec fn blob_kept(column: BlobColumn, a: Row, b: Row) -> bool {
    &&& is_empty_value(at(b, field(column))) == is_empty_value(at(a, field(column)))
    &&& !is_empty_value(at(a, field(column))) ==> at(b, field(column)) == at(a, field(column))
    &&& row_key(column, b) == row_key(column, a)
    &&& at(b, Column::UserId) == at(a, Column::UserId)
}

#[verifier::rlimit(40)]
proof fn statement_keeps_blob(
    store: Store,
    world: World,
    s: ApplyView,
    column: BlobColumn,
    id: i64,
    rows: Rows,
    k: int,
)
    requires
        0 <= k < s.planned(column.phase()).len(),
        covered(world, s, column),
        populated(world, column, id),
        rows.contains_key(id),
        blob_kept(column, world.rows(blob_table(column))[id], rows[id]),
    ensures
        ({
            let plan = plan_of(column.phase());
            let after = upserted(
                store,
                plan,
                world.rows(Table::OutputBaskets),
                rows,
                incoming(plan, s.planned(column.phase())[k]),
            ).0;
            &&& after.contains_key(id)
            &&& blob_kept(column, world.rows(blob_table(column))[id], after[id])
        }),
{
    let plan = plan_of(column.phase());
    let row = incoming(plan, s.planned(column.phase())[k]);
    let baskets = world.rows(Table::OutputBaskets);
    let start = world.rows(blob_table(column))[id];
    entry_brings(s, column, k);
    if hit(plan.key, rows, row) == Some(id) {
        let m = merge_with(baskets, rows[id], row);
        assert(same_key(plan.key, rows[id], row));
        same_key_same_text(column, rows[id], row);
        blob_is_only_filled(column);
        merging_keeps_the_key(m, plan);
        merging_keeps_the_owner(m, plan);
        same_key_same_text(column, m.merged(plan.sets), row);
        a_blob_is_filled(m, plan, field(column));
        if is_empty_value(at(start, field(column))) && !foreign(plan, rows[id], row)
            && !is_empty_value(at(row, field(column))) {
            assert(endangered(world, s, column, id));
        }
    }
}

proof fn batch_keeps_blob(
    store: Store,
    world: World,
    s: ApplyView,
    column: BlobColumn,
    id: i64,
    n: int,
)
    requires
        0 <= n <= s.planned(column.phase()).len(),
        covered(world, s, column),
        populated(world, column, id),
    ensures
        ({
            let rows = batch(store, world, column.phase(), s.planned(column.phase()), n).rows;
            &&& rows.contains_key(id)
            &&& blob_kept(column, world.rows(blob_table(column))[id], rows[id])
        }),
    decreases n,
{
    if n > 0 {
        batch_keeps_blob(store, world, s, column, id, n - 1);
        let rows = batch(store, world, column.phase(), s.planned(column.phase()), n - 1).rows;
        statement_keeps_blob(store, world, s, column, id, rows, n - 1);
    }
}

proof fn tables_differ(phase: Phase, column: BlobColumn)
    requires
        phase != Phase::Finished,
    ensures
        table_of(phase) == blob_table(column) <==> phase == column.phase(),
        column.table() == blob_table(column).text(),
{
}

proof fn batched_keeps_place(
    store: Store,
    world: World,
    s: ApplyView,
    phase: Phase,
    column: BlobColumn,
    id: i64,
    n: int,
)
    requires
        0 <= n <= s.planned(phase).len(),
        s.planned(phase).len() > 0,
        forall|c: BlobColumn| c.phase() == phase ==> #[trigger] covered(world, s, c),
        populated(world, column, id),
    ensures
        same_place(world, batched(store, world, phase, s.planned(phase), n), column, id),
{
    tables_differ(phase, column);
    if phase == column.phase() {
        assert(covered(world, s, column));
        batch_keeps_blob(store, world, s, column, id, n);
    }
}

proof fn filled_keeps_place(
    world: World,
    phase: Phase,
    w: BlobWriteView,
    column: BlobColumn,
    id: i64,
)
    requires
        phase != Phase::Finished,
        w.table == table_of(phase).text(),
        populated(world, column, id),
    ensures
        same_place(world, filled(world, table_of(phase), w), column, id),
        blob_step(world, table_of(phase), w) is Put ==> same_place(
            world,
            put(world, w),
            column,
            id,
        ),
{
    tables_differ(phase, column);
    reveal_strlit("raw_tx");
    reveal_strlit("input_beef");
    reveal_strlit("locking_script");
    if phase == column.phase() && w.id == id && blob_column(w.column) == Some(field(column)) {
        assert(w.column == column.column());
        assert(key_of(w) == place_key(column, id));
    }
}

proof fn filled_all_keeps_place(
    world: World,
    phase: Phase,
    list: Seq<BlobWriteView>,
    column: BlobColumn,
    id: i64,
    n: int,
)
    requires
        phase != Phase::Finished,
        0 <= n <= list.len(),
        forall|i: int| 0 <= i < list.len() ==> (#[trigger] list[i]).table == table_of(phase).text(),
        populated(world, column, id),
    ensures
        same_place(world, filled_all(world, table_of(phase), list, n), column, id),
    decreases n,
{
    if n > 0 {
        filled_all_keeps_place(world, phase, list, column, id, n - 1);
        let before = filled_all(world, table_of(phase), list, n - 1);
        filled_keeps_place(before, phase, list[n - 1], column, id);
    }
}

#[verifier::spinoff_prover]
proof fn next_keeps_place(store: Store, state: State, column: BlobColumn, id: i64)
    requires
        ready(state),
        populated(state.world, column, id),
    ensures
        same_place(state.world, next(store, state).world, column, id),
{
    match state.step {
        Some(ProgressView::RunUpserts { apply, phase, entries }) => {
            if entries.len() > 0 {
                batched_keeps_place(
                    store,
                    state.world,
                    apply,
                    phase,
                    column,
                    id,
                    entries.len() as int,
                );
            }
        },
        Some(ProgressView::PutBlobs { apply, phase, writes }) => {
            filled_all_keeps_place(state.world, phase, writes, column, id, writes.len() as int);
        },
        _ => {},
    }
}

proof fn broken_off_keeps_place(
    store: Store,
    state: State,
    m: nat,
    put_next: bool,
    column: BlobColumn,
    id: i64,
)
    requires
        ready(state),
        populated(state.world, column, id),
    ensures
        same_place(state.world, broken_off(store, state, m, put_next), column, id),
{
    match state.step {
        Some(ProgressView::RunUpserts { apply, phase, entries }) => {
            if m <= entries.len() && entries.len() > 0 {
                batched_keeps_place(store, state.world, apply, phase, column, id, m as int);
            }
        },
        Some(ProgressView::PutBlobs { apply, phase, writes }) => {
            if m <= writes.len() {
                filled_all_keeps_place(state.world, phase, writes, column, id, m as int);
                let world = filled_all(state.world, table_of(phase), writes, m as int);
                if m < writes.len() {
                    filled_keeps_place(world, phase, writes[m as int], column, id);
                }
            }
        },
        _ => {},
    }
}

/// Whether the statements that look for empty columns find, in the first `n` steps of a run,
/// every row that they ask for.
pub open spec fn finds_empty_rows_until(store: Store, state: State, n: nat) -> bool {
    forall|i: nat| i < n ==> finds_empty_rows(store, #[trigger] run(store, state, i))
}

proof fn run_keeps_place(store: Store, state: State, n: nat, column: BlobColumn, id: i64)
    requires
        ready(state),
        finds_empty_rows_until(store, state, n),
        populated(state.world, column, id),
    ensures
        ready(run(store, state, n)),
        same_place(state.world, run(store, state, n).world, column, id),
        populated(run(store, state, n).world, column, id),
    decreases n,
{
    if n > 0 {
        let before = (n - 1) as nat;
        assert forall|i: nat| i < before implies finds_empty_rows(
            store,
            #[trigger] run(store, state, i),
        ) by {}
        run_keeps_place(store, state, before, column, id);
        let reached = run(store, state, before);
        assert(finds_empty_rows(store, reached));
        next_is_ready(store, reached);
        next_keeps_place(store, reached, column, id);
    }
}

/// A blob that a row has, in its column or in the object store, stays where it is with its
/// bytes through the whole merge, whatever blobs the chunk carries, and wherever the merge
/// ends or breaks off: reading the row goes to the same source, whatever text the column
/// is shown as. The statements that look for empty columns have to find the rows that they
/// ask for.
pub proof fn a_blob_that_is_there_stays(
    store: Store,
    world: World,
    user_id: i64,
    chunk: SyncChunk,
    n: nat,
    m: nat,
    put_next: bool,
    column: BlobColumn,
    id: i64,
    shown: spec_fn(SqlValue) -> Option<String>,
)
    requires
        populated(world, column, id),
        finds_empty_rows_until(
            store,
            State { world, step: Some(first_step(user_id, chunk)) },
            n,
        ),
        forall|v: SqlValue|
            is_empty_value(v) <==> !(#[trigger] shown(v) is Some && shown(v)->0@.len() > 0),
    ensures
        ({
            let end = run(store, State { world, step: Some(first_step(user_id, chunk)) }, n);
            let after = end.world;
            let broken = broken_off(store, end, m, put_next);
            let source = |w: World|
                blob_source(column.table(), id, column.column(), shown(value_at(w, column, id)));
            &&& same_place(world, after, column, id)
            &&& same_place(world, broken, column, id)
            &&& source(after) == source(world)
            &&& source(broken) == source(world)
        }),
{
    let start = State { world, step: Some(first_step(user_id, chunk)) };
    user_is_ready(world, fresh(user_id, chunk), false);
    run_keeps_place(store, start, n, column, id);
    let end = run(store, start, n);
    broken_off_keeps_place(store, end, m, put_next, column, id);
}

// ---------------------------------------------------------------------------
// Filling one column
// ---------------------------------------------------------------------------

/// Filling a column that is empty, of a blob that the object store does not hold: up to the
/// threshold the column gets the bytes and nothing is put; a longer blob is put in the
/// object store and the column gets `NULL`. The instant of the last change is stamped only
/// where that is asked for, and no other column, row or object changes.
pub proof fn an_empty_column_is_filled(world: World, table: Table, w: BlobWriteView)
    requires
        blob_column(w.column) is Some,
        world.rows(table).contains_key(w.id),
        is_empty_value(at(world.rows(table)[w.id], blob_column(w.column)->0)),
        !world.objects.contains_key(key_of(w)),
    ensures
        ({
            let column = blob_column(w.column)->0;
            let after = filled(world, table, w);
            let row = after.rows(table)[w.id];
            &&& after.objects == (if w.bytes.len() > THRESHOLD {
                world.objects.insert(key_of(w), w.bytes)
            } else {
                world.objects
            })
            &&& at(row, column) == (if w.bytes.len() > THRESHOLD {
                SqlValue::Null
            } else {
                SqlValue::Blob(w.bytes)
            })
            &&& at(row, Column::UpdatedAt) == (if w.also_updated {
                SqlValue::Time(w.updated_at)
            } else {
                at(world.rows(table)[w.id], Column::UpdatedAt)
            })
            &&& forall|c: Column|
                c != column && c != Column::UpdatedAt ==> #[trigger] at(row, c) == at(
                    world.rows(table)[w.id],
                    c,
                )
            &&& after.rows(table) == world.rows(table).insert(w.id, row)
            &&& forall|t: Table| t != table ==> #[trigger] after.rows(t) == world.rows(t)
            &&& after.users == world.users
        }),
{
    let after = filled(world, table, w);
    assert(after.rows(table) =~= world.rows(table).insert(w.id, after.rows(table)[w.id]));
}

} // verus!
