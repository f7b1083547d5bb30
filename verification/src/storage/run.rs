//! A merge of a chunk as a whole: what its steps do to the tables and to the object store,
//! given what the store leaves open.

use crate::r2::object_key_text;
use crate::sql::expr::{at, is_empty_value, Merge, Row};
use crate::sql::names::{Column, Table};
use crate::sql::plan::{Slot, UpsertView};
use crate::sql::query::{QueryView, SqlValue};
use crate::storage::apply::{ApplyView, BlobColumn, EmptyRowView, EntryView, Phase, ProgressView};
use crate::storage::apply_laws::planned_entries;
use crate::storage::blob_column::{BlobStepView, BlobWriteView};
use crate::storage::lookup::KeyedId;
use crate::storage::merge::{foreign, same_key, Rows};
use crate::storage::upsert::{
    basket_merge, certificate_field_merge, certificate_merge, commission_merge, output_merge,
    output_tag_map_merge, output_tag_merge, proven_tx_merge, proven_tx_req_merge, transaction_merge,
    tx_label_map_merge, tx_label_merge,
};
use crate::time::Timestamp;
use vstd::prelude::*;

verus! {

// ---------------------------------------------------------------------------
// What there is
// ---------------------------------------------------------------------------

/// What the store has of a user's own record.
pub struct UserRow {
    pub active: Option<Seq<char>>,
    pub updated_at: Option<Timestamp>,
}

/// The tables, the users' own records and the objects, by their keys.
#[verifier::ext_equal]
pub struct World {
    pub tables: Map<Table, Rows>,
    pub users: Map<i64, UserRow>,
    pub objects: Map<Seq<char>, Seq<u8>>,
}

impl World {
    /// The rows of a table.
    pub open spec fn rows(self, table: Table) -> Rows {
        if self.tables.contains_key(table) {
            self.tables[table]
        } else {
            Map::empty()
        }
    }

    pub open spec fn with_rows(self, table: Table, rows: Rows) -> World {
        World { tables: self.tables.insert(table, rows), ..self }
    }
}

/// What a store leaves open: the id of a row that it adds to a table, and the rows that
/// statements find in a table.
pub struct Store {
    pub fresh: spec_fn(Rows) -> i64,
    pub lookup: spec_fn(Seq<QueryView>, Rows) -> Seq<KeyedId>,
}

// ---------------------------------------------------------------------------
// Merging inserts
// ---------------------------------------------------------------------------

/// The merge of a phase.
pub open spec fn plan_of(phase: Phase) -> UpsertView {
    match phase {
        Phase::Baskets => basket_merge(),
        Phase::ProvenTxReqs => proven_tx_req_merge(),
        Phase::ProvenTxs => proven_tx_merge(),
        Phase::TxLabels => tx_label_merge(),
        Phase::OutputTags => output_tag_merge(),
        Phase::Certificates => certificate_merge(),
        Phase::Transactions => transaction_merge(),
        Phase::Outputs => output_merge(),
        Phase::CertificateFields => certificate_field_merge(),
        Phase::TxLabelMaps => tx_label_map_merge(),
        Phase::OutputTagMaps => output_tag_map_merge(),
        Phase::Commissions => commission_merge(),
        Phase::Finished => basket_merge(),
    }
}

/// The table of a phase.
pub open spec fn table_of(phase: Phase) -> Table {
    plan_of(phase).insert.table
}

/// How many of the first `n` columns get a bound value.
pub open spec fn binds(columns: Seq<(Column, Slot)>, n: int) -> int
    decreases n,
{
    if n <= 0 {
        0
    } else {
        binds(columns, n - 1) + (if columns[n - 1].1 == Slot::Bind {
            1int
        } else {
            0int
        })
    }
}

/// What an insert puts in its column with the given number.
pub open spec fn value_for(
    columns: Seq<(Column, Slot)>,
    params: Seq<SqlValue>,
    i: int,
) -> SqlValue {
    match columns[i].1 {
        Slot::Bind => params[binds(columns, i)],
        Slot::Zero => SqlValue::Int(0),
        Slot::Null => SqlValue::Null,
    }
}

/// The row that the first `n` columns of an insert make.
pub open spec fn made(columns: Seq<(Column, Slot)>, params: Seq<SqlValue>, n: int) -> Row
    decreases n,
{
    if n <= 0 {
        Map::empty()
    } else {
        made(columns, params, n - 1).insert(columns[n - 1].0, value_for(columns, params, n - 1))
    }
}

/// A row with a value for every column, `NULL` where it has none.
pub open spec fn full(row: Row) -> Row {
    Map::new(|c: Column| true, |c: Column| at(row, c))
}

/// The row that an entry of a batch brings in.
pub open spec fn incoming(plan: UpsertView, entry: EntryView) -> Row {
    full(made(plan.insert.columns, entry.query.params, plan.insert.columns.len() as int))
}

/// The row with the key of an incoming one, where there is one.
pub open spec fn hit(key: Seq<Column>, rows: Rows, row: Row) -> Option<i64> {
    if exists|k: i64| #[trigger] rows.contains_key(k) && same_key(key, rows[k], row) {
        Some(choose|k: i64| #[trigger] rows.contains_key(k) && same_key(key, rows[k], row))
    } else {
        None
    }
}

/// Whether a basket is the one of a user that is named `default`.
pub open spec fn is_default(basket: Row, user: SqlValue) -> bool {
    at(basket, Column::UserId) == user && at(basket, Column::Name) == SqlValue::Text("default"@)
}

/// The basket of a user that is named `default`, where there is one.
pub open spec fn default_of(baskets: Rows, user: SqlValue) -> Option<int> {
    if exists|k: i64| #[trigger] baskets.contains_key(k) && is_default(baskets[k], user) {
        Some(
            (choose|k: i64| #[trigger]
                baskets.contains_key(k) && is_default(baskets[k], user)) as int,
        )
    } else {
        None
    }
}

/// What a merging insert reads of a row that is there.
pub open spec fn merge_with(baskets: Rows, stored: Row, row: Row) -> Merge {
    Merge { stored, incoming: row, default_basket: default_of(baskets, at(stored, Column::UserId)) }
}

/// The rows after a merging insert, and the id that it returns: it merges into the row with
/// the key of the incoming one, leaves that row alone where it belongs to another user, and
/// adds a row where none has the key. Without a free id it does nothing.
pub open spec fn upserted(
    store: Store,
    plan: UpsertView,
    baskets: Rows,
    rows: Rows,
    row: Row,
) -> (Rows, Option<i64>) {
    match hit(plan.key, rows, row) {
        Some(k) => if foreign(plan, rows[k], row) {
            (rows, None)
        } else {
            (rows.insert(k, merge_with(baskets, rows[k], row).merged(plan.sets)), Some(k))
        },
        None => {
            let id = (store.fresh)(rows);
            if rows.contains_key(id) {
                (rows, None)
            } else {
                (rows.insert(id, row), Some(id))
            }
        },
    }
}

/// The rows after statements of a batch, and the ids that they returned.
pub struct Ran {
    pub rows: Rows,
    pub ids: Seq<Option<i64>>,
}

/// The rows after the first `n` statements of a batch, and the ids that they returned.
pub open spec fn ran(
    store: Store,
    plan: UpsertView,
    baskets: Rows,
    rows: Rows,
    list: Seq<EntryView>,
    n: int,
) -> Ran
    decreases n,
{
    if n <= 0 {
        Ran { rows, ids: Seq::empty() }
    } else {
        let before = ran(store, plan, baskets, rows, list, n - 1);
        let (after, id) = upserted(store, plan, baskets, before.rows, incoming(plan, list[n - 1]));
        Ran { rows: after, ids: before.ids.push(id) }
    }
}

/// The ids of a batch, where every statement returned one.
pub open spec fn all_ids(ids: Seq<Option<i64>>) -> Option<Seq<i64>> {
    if forall|i: int| 0 <= i < ids.len() ==> (#[trigger] ids[i]) is Some {
        Some(Seq::new(ids.len(), |i: int| ids[i]->0))
    } else {
        None
    }
}

/// The first `n` statements of a phase's batch.
pub open spec fn batch(
    store: Store,
    world: World,
    phase: Phase,
    list: Seq<EntryView>,
    n: int,
) -> Ran {
    ran(
        store,
        plan_of(phase),
        world.rows(Table::OutputBaskets),
        world.rows(table_of(phase)),
        list,
        n,
    )
}

/// The world after the first `n` statements of a phase's batch.
pub open spec fn batched(
    store: Store,
    world: World,
    phase: Phase,
    list: Seq<EntryView>,
    n: int,
) -> World {
    world.with_rows(table_of(phase), batch(store, world, phase, list, n).rows)
}

// ---------------------------------------------------------------------------
// Blobs
// ---------------------------------------------------------------------------

/// The column that a blob goes in, by its name.
pub open spec fn blob_column(name: Seq<char>) -> Option<Column> {
    if name == "raw_tx"@ {
        Some(Column::RawTx)
    } else if name == "input_beef"@ {
        Some(Column::InputBeef)
    } else if name == "locking_script"@ {
        Some(Column::LockingScript)
    } else {
        None
    }
}

/// The key of the object for a blob.
pub open spec fn key_of(w: BlobWriteView) -> Seq<char> {
    object_key_text(w.table, w.id as int, w.column)
}

/// Whether a row is there and its column holds something.
pub open spec fn holds_value(rows: Rows, id: i64, column: Column) -> bool {
    rows.contains_key(id) && !is_empty_value(at(rows[id], column))
}

/// The rows after a statement wrote a column that is still empty.
pub open spec fn written(rows: Rows, w: BlobWriteView, column: Column, query: QueryView) -> Rows {
    if rows.contains_key(w.id) && is_empty_value(at(rows[w.id], column)) {
        let row = rows[w.id].insert(column, query.params[0]);
        rows.insert(
            w.id,
            if w.also_updated {
                row.insert(Column::UpdatedAt, SqlValue::Time(w.updated_at))
            } else {
                row
            },
        )
    } else {
        rows
    }
}

/// The world after a blob was put in the object store.
pub open spec fn put(world: World, w: BlobWriteView) -> World {
    World { objects: world.objects.insert(key_of(w), w.bytes), ..world }
}

/// The world after the last step of filling a column.
pub open spec fn ended(world: World, table: Table, w: BlobWriteView, step: BlobStepView) -> World {
    match (step, blob_column(w.column)) {
        (BlobStepView::Write { query }, Some(column)) => world.with_rows(
            table,
            written(world.rows(table), w, column, query),
        ),
        _ => world,
    }
}

/// What is left to do for a blob: nothing where its column holds one, else what the answer
/// of the object store leads to.
pub open spec fn blob_step(world: World, table: Table, w: BlobWriteView) -> BlobStepView {
    if blob_column(w.column) matches Some(column) && holds_value(world.rows(table), w.id, column) {
        BlobStepView::Settled
    } else {
        w.after_store(world.objects.contains_key(key_of(w)))
    }
}

/// The world after a column was filled.
pub open spec fn filled(world: World, table: Table, w: BlobWriteView) -> World {
    match blob_step(world, table, w) {
        BlobStepView::Put { write } => ended(put(world, w), table, w, w.finished()),
        step => ended(world, table, w, step),
    }
}

/// The world after the first `n` columns were filled.
pub open spec fn filled_all(world: World, table: Table, list: Seq<BlobWriteView>, n: int) -> World
    decreases n,
{
    if n <= 0 {
        world
    } else {
        filled(filled_all(world, table, list, n - 1), table, list[n - 1])
    }
}

/// The table of a column whose blob may be in the object store.
pub open spec fn blob_table(column: BlobColumn) -> Table {
    table_of(column.phase())
}

/// Whether the object store holds the blobs of rows.
pub open spec fn asked(world: World, column: BlobColumn, found: Seq<EmptyRowView>) -> Seq<bool> {
    Seq::new(
        found.len(),
        |i: int|
            world.objects.contains_key(
                object_key_text(column.table(), found[i].id as int, column.column()),
            ),
    )
}

// ---------------------------------------------------------------------------
// Steps
// ---------------------------------------------------------------------------

/// What there is, and the step that comes next. A call that failed has none.
#[verifier::ext_equal]
pub struct State {
    pub world: World,
    pub step: Option<ProgressView>,
}

/// Whether the record of a user is taken over.
pub open spec fn takes_user(world: World, apply: ApplyView) -> bool {
    &&& apply.chunk.user matches Some(user)
    &&& user.active_storage is Some
    &&& world.users.contains_key(apply.user_id) && world.users[apply.user_id].updated_at is Some
        ==> user.updated_at.after(world.users[apply.user_id].updated_at->0)
}

/// The world after the record of a user was merged.
pub open spec fn user_merged(world: World, apply: ApplyView) -> World {
    if takes_user(world, apply) && world.users.contains_key(apply.user_id) {
        let user = apply.chunk.user->0;
        World {
            users: world.users.insert(
                apply.user_id,
                UserRow {
                    active: Some(user.active_storage->0@),
                    updated_at: Some(user.updated_at),
                },
            ),
            ..world
        }
    } else {
        world
    }
}

/// The state after a step was taken. A batch in which a statement returned no id fails the
/// call.
pub open spec fn next(store: Store, state: State) -> State {
    let world = state.world;
    match state.step {
        None => state,
        Some(ProgressView::Done { .. }) => state,
        Some(ProgressView::MergeUser { apply }) => State {
            world: user_merged(world, apply),
            step: Some(apply.after_user(takes_user(world, apply))),
        },
        Some(ProgressView::RunUpserts { apply, phase, entries }) => State {
            world: batched(store, world, phase, entries, entries.len() as int),
            step: match all_ids(batch(store, world, phase, entries, entries.len() as int).ids) {
                Some(ids) => Some(apply.after_batch(phase, entries, ids)),
                None => None,
            },
        },
        Some(ProgressView::LoadProofs { apply, queries }) => State {
            step: Some(
                ApplyView {
                    proofs: (store.lookup)(queries, world.rows(Table::ProvenTxs)),
                    ..apply
                }.probe(BlobColumn::RawTx),
            ),
            ..state
        },
        Some(ProgressView::LoadTxids { apply, queries }) => State {
            step: Some(
                apply.after_txids((store.lookup)(queries, world.rows(Table::Transactions))),
            ),
            ..state
        },
        Some(ProgressView::LoadBasketNames { apply, query }) => State {
            step: Some(
                apply.after_basket_names(
                    (store.lookup)(seq![query], world.rows(Table::OutputBaskets)),
                ),
            ),
            ..state
        },
        Some(ProgressView::LoadSpends { apply, queries }) => State {
            step: Some(
                ApplyView {
                    spends: (store.lookup)(queries, world.rows(Table::Transactions)),
                    ..apply
                }.probe(BlobColumn::LockingScript),
            ),
            ..state
        },
        Some(ProgressView::FindEmpty { apply, column, queries }) => State {
            step: Some(
                apply.after_empty(
                    column,
                    (store.lookup)(queries, world.rows(blob_table(column))),
                ),
            ),
            ..state
        },
        Some(ProgressView::AskStore { apply, column, found }) => State {
            step: Some(
                apply.holding(column, found, asked(world, column, found)).past(column),
            ),
            ..state
        },
        Some(ProgressView::PutBlobs { apply, phase, writes }) => State {
            world: filled_all(world, table_of(phase), writes, writes.len() as int),
            step: Some(apply.enter(phase.following())),
        },
    }
}

/// The state after `n` steps.
pub open spec fn run(store: Store, state: State, n: nat) -> State
    decreases n,
{
    if n == 0 {
        state
    } else {
        next(store, run(store, state, (n - 1) as nat))
    }
}

/// The world of a call that breaks off within a step: after the first `m` statements of its
/// batch, or after its first `m` blobs, with the one after them put or not.
pub open spec fn broken_off(store: Store, state: State, m: nat, put_next: bool) -> World {
    match state.step {
        Some(ProgressView::RunUpserts { apply, phase, entries }) => if m <= entries.len() {
            batched(store, state.world, phase, entries, m as int)
        } else {
            state.world
        },
        Some(ProgressView::PutBlobs { apply, phase, writes }) => if m <= writes.len() {
            let world = filled_all(state.world, table_of(phase), writes, m as int);
            if put_next && m < writes.len() && blob_step(
                world,
                table_of(phase),
                writes[m as int],
            ) is Put {
                put(world, writes[m as int])
            } else {
                world
            }
        } else {
            state.world
        },
        _ => state.world,
    }
}

proof fn made_reads(columns: Seq<(Column, Slot)>, params: Seq<SqlValue>, n: int, i: int)
    requires
        0 <= i < n <= columns.len(),
        forall|j: int, k: int|
            0 <= j < k < columns.len() ==> (#[trigger] columns[j]).0 != (#[trigger] columns[k]).0,
    ensures
        at(made(columns, params, n), columns[i].0) == value_for(columns, params, i),
    decreases n,
{
    if i < n - 1 {
        made_reads(columns, params, n - 1, i);
        assert(columns[i].0 != columns[n - 1].0);
    }
}

proof fn binds_each(columns: Seq<(Column, Slot)>, n: int)
    requires
        0 <= n <= columns.len(),
        forall|i: int| 0 <= i < columns.len() ==> (#[trigger] columns[i]).1 == Slot::Bind,
    ensures
        binds(columns, n) == n,
    decreases n,
{
    if n > 0 {
        binds_each(columns, n - 1);
    }
}

#[verifier::rlimit(40)]
proof fn inserted_columns_differ(phase: Phase)
    ensures
        forall|j: int, k: int|
            0 <= j < k < plan_of(phase).insert.columns.len() ==> (
            #[trigger] plan_of(phase).insert.columns[j]).0 != (
            #[trigger] plan_of(phase).insert.columns[k]).0,
{
}

/// A row that an entry brings in has in each column what the statement binds to it.
#[verifier::rlimit(40)]
pub proof fn a_row_has_what_is_bound(phase: Phase, entry: EntryView, i: int)
    requires
        0 <= i < plan_of(phase).insert.columns.len(),
    ensures
        at(incoming(plan_of(phase), entry), plan_of(phase).insert.columns[i].0) == value_for(
            plan_of(phase).insert.columns,
            entry.query.params,
            i,
        ),
        phase != Phase::TxLabelMaps && phase != Phase::OutputTagMaps ==> value_for(
            plan_of(phase).insert.columns,
            entry.query.params,
            i,
        ) == entry.query.params[i],
{
    let columns = plan_of(phase).insert.columns;
    inserted_columns_differ(phase);
    made_reads(columns, entry.query.params, columns.len() as int, i);
    if phase != Phase::TxLabelMaps && phase != Phase::OutputTagMaps {
        binds_each(columns, i);
    }
}

/// The statement of every row of a phase's batch is the merge of the phase.
pub proof fn a_batch_runs_the_merge_of_its_phase(s: ApplyView, phase: Phase, k: int)
    requires
        0 <= k < s.planned(phase).len(),
    ensures
        s.planned(phase)[k].query.sql == plan_of(phase).text(),
{
    planned_entries(s, phase, k);
}

} // verus!
