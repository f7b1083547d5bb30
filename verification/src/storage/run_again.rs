//! Merging a chunk a second time changes nothing.

use crate::sql::expr::{at, newer, Merge, Row};
use crate::sql::names::{Column, Table};
use crate::sql::plan::UpsertView;
use crate::sql::query::SqlValue;
use crate::storage::apply::{EntryView, Phase};
use crate::storage::blob_column::BlobWriteView;
use crate::storage::merge::{
    a_spend_only_goes_forward, a_stale_output_only_tells_a_spend, a_stale_row_changes_nothing,
    foreign, has_key, keyed_by, merging_keeps_the_key, merging_keeps_the_owner, newer_row_merges,
    same_key, updated_at_is_the_later_one, Rows,
};
use crate::storage::run::{
    blob_column, filled, filled_all, hit, holds_value, incoming, key_of, merge_with, plan_of, ran,
    upserted, Store, World,
};
use crate::storage::upsert::{output_merge, overflows};
use vstd::prelude::*;

verus! {

// ---------------------------------------------------------------------------
// Rows
// ---------------------------------------------------------------------------

/// Whether every row has a value for every column.
pub open spec fn full_rows(rows: Rows) -> bool {
    forall|k: i64, c: Column|
        #![trigger rows[k].contains_key(c)]
        rows.contains_key(k) ==> rows[k].contains_key(c)
}

/// Whether an output that a row brings in does not both call itself spendable and name the
/// transaction that spends it.
pub open spec fn plain_spend(row: Row) -> bool {
    !(at(row, Column::SpentBy) is Null) ==> at(row, Column::Spendable) == SqlValue::Int(0)
}

/// Whether merging a row brings nothing more: the stored row has its key, belongs to its
/// user, is not older, and knows the spend that it tells.
pub open spec fn merged_in(plan: UpsertView, stored: Row, row: Row) -> bool {
    &&& same_key(plan.key, stored, row)
    &&& !foreign(plan, stored, row)
    &&& !newer(stored, row)
    &&& plan == output_merge() ==> plain_spend(stored) && (!(at(row, Column::SpentBy) is Null)
        ==> !(at(stored, Column::SpentBy) is Null))
}

pub open spec fn is_merge(plan: UpsertView) -> bool {
    newer_row_merges().contains(plan) || plan == output_merge()
}

proof fn merged_row_is_full(m: Merge, plan: UpsertView, n: int)
    requires
        0 <= n <= plan.sets.len(),
        forall|c: Column| #[trigger] m.stored.contains_key(c),
    ensures
        forall|c: Column| #[trigger] m.merged(plan.sets.take(n)).contains_key(c),
    decreases n,
{
    if n > 0 {
        merged_row_is_full(m, plan, n - 1);
        assert(plan.sets.take(n).drop_last() =~= plan.sets.take(n - 1));
        assert forall|c: Column| #[trigger] m.merged(plan.sets.take(n)).contains_key(c) by {
            assert(m.merged(plan.sets.take(n - 1)).contains_key(c));
        }
    } else {
        assert forall|c: Column| #[trigger] m.merged(plan.sets.take(n)).contains_key(c) by {
            assert(m.stored.contains_key(c));
        }
    }
}

proof fn merged_in_stays(plan: UpsertView, m: Merge, row: Row)
    requires
        is_merge(plan),
        merged_in(plan, m.stored, row),
        same_key(plan.key, m.stored, m.incoming),
    ensures
        merged_in(plan, m.merged(plan.sets), row),
{
    let after = m.merged(plan.sets);
    merging_keeps_the_key(m, plan);
    merging_keeps_the_owner(m, plan);
    updated_at_is_the_later_one(m, plan);
    assert forall|i: int| 0 <= i < plan.key.len() implies at(after, #[trigger] plan.key[i]) == at(
        row,
        plan.key[i],
    ) && !(at(after, plan.key[i]) is Null) by {
        assert(at(after, plan.key[i]) == at(m.incoming, plan.key[i]));
        assert(at(m.stored, plan.key[i]) == at(m.incoming, plan.key[i]));
        assert(at(m.stored, plan.key[i]) == at(row, plan.key[i]));
    }
    if plan == output_merge() {
        a_spend_only_goes_forward(m);
    }
}

proof fn merging_merges_in(plan: UpsertView, m: Merge)
    requires
        is_merge(plan),
        same_key(plan.key, m.stored, m.incoming),
        !foreign(plan, m.stored, m.incoming),
    ensures
        merged_in(plan, m.merged(plan.sets), m.incoming),
{
    merging_keeps_the_key(m, plan);
    merging_keeps_the_owner(m, plan);
    updated_at_is_the_later_one(m, plan);
    if plan == output_merge() {
        a_spend_only_goes_forward(m);
    }
}

proof fn nothing_more_changes(plan: UpsertView, m: Merge)
    requires
        is_merge(plan),
        merged_in(plan, m.stored, m.incoming),
        forall|c: Column| #[trigger] m.stored.contains_key(c),
    ensures
        m.merged(plan.sets) == m.stored,
{
    let after = m.merged(plan.sets);
    merged_row_is_full(m, plan, plan.sets.len() as int);
    assert(plan.sets.take(plan.sets.len() as int) =~= plan.sets);
    assert forall|c: Column| #[trigger] after.contains_key(c) && m.stored.contains_key(c)
        implies after[c] == m.stored[c] by {
        if plan == output_merge() {
            a_stale_output_only_tells_a_spend(m, c);
            a_spend_only_goes_forward(m);
        } else {
            a_stale_row_changes_nothing(m, plan, c);
        }
        assert(at(after, c) == at(m.stored, c));
    }
    assert(after =~= m.stored);
}

// ---------------------------------------------------------------------------
// Batches
// ---------------------------------------------------------------------------

proof fn statement_keeps_keys(
    store: Store,
    plan: UpsertView,
    baskets: Rows,
    rows: Rows,
    row: Row,
)
    requires
        is_merge(plan),
        keyed_by(plan.key, rows),
    ensures
        keyed_by(plan.key, upserted(store, plan, baskets, rows, row).0),
{
    let (after, id) = upserted(store, plan, baskets, rows, row);
    match hit(plan.key, rows, row) {
        Some(k) => {
            let m = merge_with(baskets, rows[k], row);
            merging_keeps_the_key(m, plan);
            let new = m.merged(plan.sets);
            assert forall|i: i64, j: i64|
                #![trigger after.contains_key(i), after.contains_key(j)]
                after.contains_key(i) && after.contains_key(j) && same_key(
                    plan.key,
                    after[i],
                    after[j],
                ) implies i == j by {
                assert(rows.contains_key(i) && rows.contains_key(j));
                if !foreign(plan, rows[k], row) {
                    if i == k && j != k {
                        key_goes_over(plan.key, rows[k], new, row, rows[j]);
                    } else if j == k && i != k {
                        key_goes_back(plan.key, rows[k], new, row, rows[i]);
                    }
                }
            }
        },
        None => {
            assert forall|i: i64, j: i64|
                #![trigger after.contains_key(i), after.contains_key(j)]
                after.contains_key(i) && after.contains_key(j) && same_key(
                    plan.key,
                    after[i],
                    after[j],
                ) implies i == j by {
                if i != j && id == Some(i) {
                    assert(rows.contains_key(j));
                    key_turns(plan.key, row, rows[j]);
                } else if i != j && id == Some(j) {
                    assert(rows.contains_key(i));
                }
            }
        },
    }
}

proof fn key_turns(key: Seq<Column>, a: Row, b: Row)
    requires
        same_key(key, a, b),
    ensures
        same_key(key, b, a),
{
    assert forall|i: int| 0 <= i < key.len() implies at(b, #[trigger] key[i]) == at(a, key[i])
        && !(at(b, key[i]) is Null) by {
        assert(at(a, key[i]) == at(b, key[i]));
    }
}

proof fn key_goes_over(key: Seq<Column>, stored: Row, new: Row, row: Row, other: Row)
    requires
        same_key(key, stored, row),
        same_key(key, new, row),
        same_key(key, new, other),
    ensures
        same_key(key, stored, other),
{
    assert forall|i: int| 0 <= i < key.len() implies at(stored, #[trigger] key[i]) == at(
        other,
        key[i],
    ) && !(at(stored, key[i]) is Null) by {
        assert(at(stored, key[i]) == at(row, key[i]));
        assert(at(new, key[i]) == at(row, key[i]));
        assert(at(new, key[i]) == at(other, key[i]));
    }
}

proof fn key_goes_back(key: Seq<Column>, stored: Row, new: Row, row: Row, other: Row)
    requires
        same_key(key, stored, row),
        same_key(key, new, row),
        same_key(key, other, new),
    ensures
        same_key(key, other, stored),
{
    assert forall|i: int| 0 <= i < key.len() implies at(other, #[trigger] key[i]) == at(
        stored,
        key[i],
    ) && !(at(other, key[i]) is Null) by {
        assert(at(stored, key[i]) == at(row, key[i]));
        assert(at(new, key[i]) == at(row, key[i]));
        assert(at(other, key[i]) == at(new, key[i]));
    }
}

/// What a batch relies on and leaves: no two rows have the same key, and every row has a
/// value for every column.
pub open spec fn well_kept(plan: UpsertView, rows: Rows) -> bool {
    keyed_by(plan.key, rows) && full_rows(rows)
}

proof fn statement_merges_in(
    store: Store,
    plan: UpsertView,
    baskets: Rows,
    rows: Rows,
    row: Row,
)
    requires
        is_merge(plan),
        well_kept(plan, rows),
        forall|c: Column| #[trigger] row.contains_key(c),
        has_key(plan.key, row),
        plan == output_merge() ==> plain_spend(row),
    ensures
        ({
            let (after, id) = upserted(store, plan, baskets, rows, row);
            &&& well_kept(plan, after)
            &&& id matches Some(id) ==> after.contains_key(id) && merged_in(plan, after[id], row)
            &&& forall|k: i64, other: Row| #[trigger]
                merged_in(plan, rows[k], other) && rows.contains_key(k) ==> after.contains_key(k)
                    && merged_in(plan, after[k], other)
        }),
{
    let (after, id) = upserted(store, plan, baskets, rows, row);
    statement_keeps_keys(store, plan, baskets, rows, row);
    match hit(plan.key, rows, row) {
        Some(h) => {
            let m = merge_with(baskets, rows[h], row);
            assert forall|c: Column| #[trigger] m.stored.contains_key(c) by {
                assert(rows[h].contains_key(c));
            }
            merged_row_is_full(m, plan, plan.sets.len() as int);
            assert(plan.sets.take(plan.sets.len() as int) =~= plan.sets);
            if !foreign(plan, rows[h], row) {
                merging_merges_in(plan, m);
                assert forall|k: i64, other: Row| #[trigger]
                    merged_in(plan, rows[k], other) && rows.contains_key(k) implies
                    after.contains_key(k) && merged_in(plan, after[k], other) by {
                    if k == h {
                        merged_in_stays(plan, m, other);
                    }
                }
            }
            assert(full_rows(after));
        },
        None => {
            assert(same_key(plan.key, row, row));
            assert(full_rows(after));
        },
    }
}

/// What an entry has to bring for a second merge to change nothing.
pub open spec fn mergeable(plan: UpsertView, entry: EntryView) -> bool {
    &&& has_key(plan.key, incoming(plan, entry))
    &&& plan == output_merge() ==> plain_spend(incoming(plan, entry))
}

pub(crate) proof fn batch_merges_in(
    store: Store,
    plan: UpsertView,
    baskets: Rows,
    rows: Rows,
    list: Seq<EntryView>,
    n: int,
)
    requires
        is_merge(plan),
        well_kept(plan, rows),
        0 <= n <= list.len(),
        forall|j: int| 0 <= j < list.len() ==> mergeable(plan, #[trigger] list[j]),
    ensures
        ({
            let end = ran(store, plan, baskets, rows, list, n);
            &&& well_kept(plan, end.rows)
            &&& end.ids.len() == n
            &&& forall|j: int|
                0 <= j < n && (#[trigger] end.ids[j]) is Some ==> end.rows.contains_key(
                    end.ids[j]->0,
                ) && merged_in(plan, end.rows[end.ids[j]->0], incoming(plan, list[j]))
        }),
    decreases n,
{
    if n > 0 {
        batch_merges_in(store, plan, baskets, rows, list, n - 1);
        let before = ran(store, plan, baskets, rows, list, n - 1);
        let end = ran(store, plan, baskets, rows, list, n);
        let row = incoming(plan, list[n - 1]);
        assert(mergeable(plan, list[n - 1]));
        statement_merges_in(store, plan, baskets, before.rows, row);
        assert forall|j: int| 0 <= j < n && (#[trigger] end.ids[j]) is Some implies
            end.rows.contains_key(end.ids[j]->0) && merged_in(
            plan,
            end.rows[end.ids[j]->0],
            incoming(plan, list[j]),
        ) by {
            if j < n - 1 {
                assert(end.ids[j] == before.ids[j]);
                assert(merged_in(plan, before.rows[before.ids[j]->0], incoming(plan, list[j])));
            }
        }
    }
}

proof fn statement_again(
    store: Store,
    plan: UpsertView,
    baskets: Rows,
    rows: Rows,
    row: Row,
    id: i64,
)
    requires
        is_merge(plan),
        well_kept(plan, rows),
        rows.contains_key(id),
        merged_in(plan, rows[id], row),
    ensures
        upserted(store, plan, baskets, rows, row) == (rows, Some(id)),
{
    assert(rows.contains_key(id) && same_key(plan.key, rows[id], row));
    let h = hit(plan.key, rows, row)->0;
    assert(rows.contains_key(h) && same_key(plan.key, rows[h], row));
    key_turns(plan.key, rows[id], row);
    key_meets(plan.key, rows[h], row, rows[id]);
    assert(h == id);
    let m = merge_with(baskets, rows[id], row);
    assert forall|c: Column| #[trigger] m.stored.contains_key(c) by {
        assert(rows[id].contains_key(c));
    }
    nothing_more_changes(plan, m);
    assert(rows.insert(id, rows[id]) =~= rows);
}

proof fn key_meets(key: Seq<Column>, a: Row, b: Row, c: Row)
    requires
        same_key(key, a, b),
        same_key(key, b, c),
    ensures
        same_key(key, a, c),
{
    assert forall|i: int| 0 <= i < key.len() implies at(a, #[trigger] key[i]) == at(c, key[i])
        && !(at(a, key[i]) is Null) by {
        assert(at(a, key[i]) == at(b, key[i]));
        assert(at(b, key[i]) == at(c, key[i]));
    }
}

/// A batch whose rows are all merged in changes nothing, and returns the ids of the rows
/// that it finds.
pub(crate) proof fn batch_again(
    store: Store,
    plan: UpsertView,
    baskets: Rows,
    rows: Rows,
    list: Seq<EntryView>,
    ids: Seq<i64>,
    n: int,
)
    requires
        is_merge(plan),
        well_kept(plan, rows),
        0 <= n <= list.len(),
        list.len() == ids.len(),
        forall|j: int|
            0 <= j < list.len() ==> rows.contains_key(#[trigger] ids[j]) && merged_in(
                plan,
                rows[ids[j]],
                incoming(plan, list[j]),
            ),
    ensures
        ran(store, plan, baskets, rows, list, n).rows == rows,
        ran(store, plan, baskets, rows, list, n).ids == Seq::new(n as nat, |i: int| Some(ids[i])),
    decreases n,
{
    if n > 0 {
        batch_again(store, plan, baskets, rows, list, ids, n - 1);
        assert(rows.contains_key(ids[n - 1]));
        statement_again(store, plan, baskets, rows, incoming(plan, list[n - 1]), ids[n - 1]);
        assert(ran(store, plan, baskets, rows, list, n).ids =~= Seq::new(
            n as nat,
            |i: int| Some(ids[i]),
        ));
    } else {
        assert(ran(store, plan, baskets, rows, list, n).ids =~= Seq::new(
            n as nat,
            |i: int| Some(ids[i]),
        ));
    }
}

// ---------------------------------------------------------------------------
// Blobs
// ---------------------------------------------------------------------------

/// Whether a blob is there, in its column or in the object store.
pub open spec fn blob_settled(world: World, table: Table, w: BlobWriteView) -> bool {
    ||| blob_column(w.column) matches Some(column) && holds_value(world.rows(table), w.id, column)
    ||| world.objects.contains_key(key_of(w))
}

pub open spec fn is_blob_column(column: Column) -> bool {
    column == Column::RawTx || column == Column::InputBeef || column == Column::LockingScript
}

pub(crate) proof fn keys_hold_no_blobs(phase: Phase)
    ensures
        is_merge(plan_of(phase)),
        forall|i: int|
            0 <= i < plan_of(phase).key.len() ==> !is_blob_column(#[trigger] plan_of(phase).key[i]),
{
    assert(newer_row_merges()[0] == plan_of(Phase::Baskets));
    assert(newer_row_merges()[1] == plan_of(Phase::ProvenTxs));
    assert(newer_row_merges()[2] == plan_of(Phase::ProvenTxReqs));
    assert(newer_row_merges()[3] == plan_of(Phase::TxLabels));
    assert(newer_row_merges()[4] == plan_of(Phase::OutputTags));
    assert(newer_row_merges()[5] == plan_of(Phase::Transactions));
    assert(newer_row_merges()[6] == plan_of(Phase::TxLabelMaps));
    assert(newer_row_merges()[7] == plan_of(Phase::OutputTagMaps));
    assert(newer_row_merges()[8] == plan_of(Phase::Certificates));
    assert(newer_row_merges()[9] == plan_of(Phase::CertificateFields));
    assert(newer_row_merges()[10] == plan_of(Phase::Commissions));
}

/// Whether a row is another one but for its blobs.
pub open spec fn but_for_blobs(a: Row, b: Row) -> bool {
    forall|c: Column| !is_blob_column(c) ==> #[trigger] at(b, c) == at(a, c)
}

pub(crate) proof fn merged_in_but_for_blobs(phase: Phase, a: Row, b: Row, row: Row)
    requires
        but_for_blobs(a, b),
        merged_in(plan_of(phase), a, row),
    ensures
        merged_in(plan_of(phase), b, row),
{
    let plan = plan_of(phase);
    keys_hold_no_blobs(phase);
    assert forall|i: int| 0 <= i < plan.key.len() implies at(b, #[trigger] plan.key[i]) == at(
        row,
        plan.key[i],
    ) && !(at(b, plan.key[i]) is Null) by {
        assert(at(a, plan.key[i]) == at(row, plan.key[i]));
        assert(at(b, plan.key[i]) == at(a, plan.key[i]));
    }
    assert(at(b, Column::UserId) == at(a, Column::UserId));
    assert(at(b, Column::UpdatedAt) == at(a, Column::UpdatedAt));
    assert(at(b, Column::SpentBy) == at(a, Column::SpentBy));
    assert(at(b, Column::Spendable) == at(a, Column::Spendable));
}

pub(crate) proof fn well_kept_but_for_blobs(phase: Phase, a: Rows, b: Rows)
    requires
        well_kept(plan_of(phase), a),
        full_rows(b),
        forall|k: i64| #[trigger]
            b.contains_key(k) ==> a.contains_key(k) && but_for_blobs(a[k], b[k]),
    ensures
        well_kept(plan_of(phase), b),
{
    let key = plan_of(phase).key;
    keys_hold_no_blobs(phase);
    assert forall|i: i64, j: i64|
        #![trigger b.contains_key(i), b.contains_key(j)]
        b.contains_key(i) && b.contains_key(j) && same_key(key, b[i], b[j]) implies i == j by {
        assert forall|x: int| 0 <= x < key.len() implies at(a[i], #[trigger] key[x]) == at(
            a[j],
            key[x],
        ) && !(at(a[i], key[x]) is Null) by {
            assert(at(b[i], key[x]) == at(b[j], key[x]));
            assert(at(b[i], key[x]) == at(a[i], key[x]));
            assert(at(b[j], key[x]) == at(a[j], key[x]));
        }
        assert(same_key(key, a[i], a[j]));
    }
}

/// What filling columns keeps: the other tables, the users, the objects, and the rows but
/// for their blobs.
pub open spec fn fills_only(a: World, b: World, table: Table) -> bool {
    &&& b.tables.dom() == a.tables.dom()
    &&& forall|t: Table| t != table ==> #[trigger] b.rows(t) == a.rows(t)
    &&& b.users == a.users
    &&& forall|key: Seq<char>| #[trigger]
        a.objects.contains_key(key) ==> b.objects.contains_key(key)
    &&& forall|k: i64|
        a.rows(table).contains_key(k) <==> #[trigger] b.rows(table).contains_key(k)
    &&& forall|k: i64| #[trigger]
        b.rows(table).contains_key(k) ==> but_for_blobs(a.rows(table)[k], b.rows(table)[k])
    &&& full_rows(a.rows(table)) ==> full_rows(b.rows(table))
}

proof fn filled_fills_only(world: World, table: Table, w: BlobWriteView)
    requires
        world.tables.contains_key(table),
        overflows(Some(w.bytes)),
        !w.also_updated,
    ensures
        fills_only(world, filled(world, table, w), table),
        blob_settled(filled(world, table, w), table, w),
        forall|other: BlobWriteView| #[trigger]
            blob_settled(world, table, other) ==> blob_settled(
                filled(world, table, w),
                table,
                other,
            ),
{
    let after = filled(world, table, w);
    assert(after.tables.dom() =~= world.tables.dom());
    assert forall|k: i64| #[trigger] after.rows(table).contains_key(k) implies but_for_blobs(
        world.rows(table)[k],
        after.rows(table)[k],
    ) by {
        assert forall|c: Column| !is_blob_column(c) implies #[trigger] at(
            after.rows(table)[k],
            c,
        ) == at(world.rows(table)[k], c) by {}
    }
    if full_rows(world.rows(table)) {
        assert forall|k: i64, c: Column|
            #![trigger after.rows(table)[k].contains_key(c)]
            after.rows(table).contains_key(k) implies after.rows(table)[k].contains_key(c) by {
            assert(world.rows(table)[k].contains_key(c));
        }
    }
    assert forall|other: BlobWriteView| #[trigger] blob_settled(world, table, other) implies
        blob_settled(after, table, other) by {
        match blob_column(other.column) {
            Some(column) => {
                if holds_value(world.rows(table), other.id, column) {
                    assert(holds_value(after.rows(table), other.id, column));
                }
            },
            None => {},
        }
    }
}

pub(crate) proof fn filled_all_fills_only(
    world: World,
    table: Table,
    list: Seq<BlobWriteView>,
    n: int,
)
    requires
        world.tables.contains_key(table),
        0 <= n <= list.len(),
        forall|i: int|
            0 <= i < list.len() ==> overflows(Some((#[trigger] list[i]).bytes))
                && !list[i].also_updated,
    ensures
        fills_only(world, filled_all(world, table, list, n), table),
        forall|i: int|
            0 <= i < n ==> blob_settled(
                filled_all(world, table, list, n),
                table,
                #[trigger] list[i],
            ),
    decreases n,
{
    if n > 0 {
        filled_all_fills_only(world, table, list, n - 1);
        let before = filled_all(world, table, list, n - 1);
        let after = filled_all(world, table, list, n);
        assert(before.tables.contains_key(table));
        filled_fills_only(before, table, list[n - 1]);
        assert forall|k: i64| #[trigger] after.rows(table).contains_key(k) implies but_for_blobs(
            world.rows(table)[k],
            after.rows(table)[k],
        ) by {
            assert(before.rows(table).contains_key(k));
            assert forall|c: Column| !is_blob_column(c) implies #[trigger] at(
                after.rows(table)[k],
                c,
            ) == at(world.rows(table)[k], c) by {
                assert(at(before.rows(table)[k], c) == at(world.rows(table)[k], c));
            }
        }
        assert forall|t: Table| t != table implies #[trigger] after.rows(t) == world.rows(t) by {
            assert(before.rows(t) == world.rows(t));
        }
        assert forall|i: int| 0 <= i < n implies blob_settled(after, table, #[trigger] list[i]) by {
            if i < n - 1 {
                assert(blob_settled(before, table, list[i]));
            }
        }
    }
}

pub(crate) proof fn filling_again(world: World, table: Table, list: Seq<BlobWriteView>, n: int)
    requires
        0 <= n <= list.len(),
        forall|i: int| 0 <= i < list.len() ==> blob_settled(world, table, #[trigger] list[i]),
    ensures
        filled_all(world, table, list, n) == world,
    decreases n,
{
    if n > 0 {
        filling_again(world, table, list, n - 1);
        assert(blob_settled(world, table, list[n - 1]));
    }
}

} // verus!
