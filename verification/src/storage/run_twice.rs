//! Merging the same chunk twice: the second call changes nothing and answers as the first.

use crate::entities::{
    TableCertificateField, TableCommission, TableOutput, TableOutputTagMap, TableTxLabelMap,
};
use crate::sql::expr::{at, Row};
use crate::sql::names::{Column, Table};
use crate::sql::plan::Slot;
use crate::sql::query::{QueryView, SqlValue};
use crate::storage::apply::{
    fill_writes, first_step, fresh, kept, no_rows, paired, recorded, rows_of, times, writes,
    ApplyView, BlobColumn, EntryView, Phase, ProgressView,
};
use crate::storage::apply_laws::{
    only_overflow, planned_entries, planned_fills_overflow, writes_overflow,
};
use crate::storage::merge::has_key;
use crate::storage::run::{
    a_row_has_what_is_bound, all_ids, batch, batched, binds, filled_all, incoming, made, plan_of,
    run, table_of, takes_user, user_merged, value_for, State, Store, World,
};
use crate::storage::run_again::{
    batch_again, batch_merges_in, blob_settled, filled_all_fills_only, filling_again,
    is_blob_column, keys_hold_no_blobs, mergeable, merged_in, merged_in_but_for_blobs, plain_spend,
    well_kept, well_kept_but_for_blobs,
};
use crate::storage::run_laws::{output_params, output_row};
use crate::storage::run_phases::{
    a_call_comes_to_its_end, a_call_comes_to_its_rows, a_phase_comes_to_its_batch,
    a_phase_comes_to_its_end, asked_for, finish, finish_is_over, looked_up, names_looked_up,
    one_end, past_user, prepared, runs_add_up, went,
};
use crate::storage::run_users::{
    ids_in_order, phases_have_tables, run_leaves_others, start_for_user,
};
use crate::storage::upsert::{output_merge, overflows};
use crate::time::{latest, Timestamp};
use crate::types::{ProcessSyncChunkResult, SyncChunk};
use vstd::prelude::*;

verus! {

// ---------------------------------------------------------------------------
// Entries
// ---------------------------------------------------------------------------

/// Whether two merges differ at most in which blobs they withhold, and in how many updates
/// they count.
pub open spec fn alike(s: ApplyView, t: ApplyView) -> bool {
    t == ApplyView {
        held: t.held,
        result: ProcessSyncChunkResult { updates: t.result.updates, ..s.result },
        ..s
    }
}

/// The places of the blobs in the statement of a phase.
pub open spec fn blob_place(phase: Phase, i: int) -> bool {
    match phase {
        Phase::ProvenTxReqs => i == 7,
        Phase::Transactions => i == 10 || i == 11,
        Phase::Outputs => i == 6,
        _ => false,
    }
}

/// Whether two entries differ at most in the blobs that they bind.
pub open spec fn alike_entries(phase: Phase, a: EntryView, b: EntryView) -> bool {
    &&& a.foreign == b.foreign
    &&& a.updated_at == b.updated_at
    &&& a.fills == b.fills
    &&& a.query.params.len() == b.query.params.len()
    &&& forall|i: int|
        0 <= i < a.query.params.len() && !blob_place(phase, i) ==> #[trigger] a.query.params[i]
            == b.query.params[i]
}

pub open spec fn alike_lists(phase: Phase, a: Seq<EntryView>, b: Seq<EntryView>) -> bool {
    a.len() == b.len() && forall|k: int|
        0 <= k < a.len() ==> alike_entries(phase, #[trigger] a[k], b[k])
}

proof fn kept_alike(phase: Phase, a: Seq<Option<EntryView>>, b: Seq<Option<EntryView>>)
    requires
        a.len() == b.len(),
        forall|k: int|
            0 <= k < a.len() ==> ((#[trigger] a[k]) is Some) == (b[k] is Some) && (a[k] is Some
                ==> alike_entries(phase, a[k]->0, b[k]->0)),
    ensures
        alike_lists(phase, kept(a), kept(b)),
    decreases a.len(),
{
    if a.len() > 0 {
        let n = a.len() - 1;
        assert forall|k: int| 0 <= k < a.drop_last().len() implies ((
        #[trigger] a.drop_last()[k]) is Some) == (b.drop_last()[k] is Some) && (
        a.drop_last()[k] is Some ==> alike_entries(
            phase,
            a.drop_last()[k]->0,
            b.drop_last()[k]->0,
        )) by {
            assert(a.drop_last()[k] == a[k]);
        }
        kept_alike(phase, a.drop_last(), b.drop_last());
        assert(a[n] == a.last());
    }
}

#[verifier::rlimit(40)]
proof fn outputs_alike(s: ApplyView, t: ApplyView)
    requires
        alike(s, t),
    ensures
        alike_lists(Phase::Outputs, s.planned(Phase::Outputs), t.planned(Phase::Outputs)),
{
    let rows = rows_of(s.chunk.outputs);
    let a = Seq::new(rows.len(), |i: int| s.output_entry(rows[i]));
    let b = Seq::new(rows.len(), |i: int| t.output_entry(rows[i]));
    assert forall|k: int| 0 <= k < a.len() implies ((#[trigger] a[k]) is Some) == (b[k] is Some)
        && (a[k] is Some ==> alike_entries(Phase::Outputs, a[k]->0, b[k]->0)) by {
        assert(s.transaction_of(rows[k]) == t.transaction_of(rows[k]));
        assert(s.basket_of(rows[k]) == t.basket_of(rows[k]));
        assert(s.spender_of(rows[k]) == t.spender_of(rows[k]));
    }
    kept_alike(Phase::Outputs, a, b);
}

#[verifier::rlimit(40)]
proof fn requests_alike(s: ApplyView, t: ApplyView)
    requires
        alike(s, t),
    ensures
        alike_lists(
            Phase::ProvenTxReqs,
            s.planned(Phase::ProvenTxReqs),
            t.planned(Phase::ProvenTxReqs),
        ),
{
}

#[verifier::rlimit(40)]
proof fn transactions_alike(s: ApplyView, t: ApplyView)
    requires
        alike(s, t),
    ensures
        alike_lists(
            Phase::Transactions,
            s.planned(Phase::Transactions),
            t.planned(Phase::Transactions),
        ),
{
    let rows = rows_of(s.chunk.transactions);
    assert forall|k: int| 0 <= k < rows.len() implies alike_entries(
        Phase::Transactions,
        #[trigger] s.planned(Phase::Transactions)[k],
        t.planned(Phase::Transactions)[k],
    ) by {
        assert(s.proof_of(rows[k]) == t.proof_of(rows[k]));
    }
}

proof fn maps_alike(s: ApplyView, t: ApplyView)
    requires
        alike(s, t),
    ensures
        s.planned(Phase::TxLabelMaps) == t.planned(Phase::TxLabelMaps),
        s.planned(Phase::OutputTagMaps) == t.planned(Phase::OutputTagMaps),
{
    let labels = rows_of(s.chunk.tx_label_maps);
    assert(Seq::new(labels.len(), |i: int| s.tx_label_map_entry(labels[i])) =~= Seq::new(
        labels.len(),
        |i: int| t.tx_label_map_entry(labels[i]),
    ));
    let tags = rows_of(s.chunk.output_tag_maps);
    assert(Seq::new(tags.len(), |i: int| s.output_tag_map_entry(tags[i])) =~= Seq::new(
        tags.len(),
        |i: int| t.output_tag_map_entry(tags[i]),
    ));
}

proof fn children_alike(s: ApplyView, t: ApplyView)
    requires
        alike(s, t),
    ensures
        s.planned(Phase::CertificateFields) == t.planned(Phase::CertificateFields),
        s.planned(Phase::Commissions) == t.planned(Phase::Commissions),
{
    let fields = rows_of(s.chunk.certificate_fields);
    assert(Seq::new(fields.len(), |i: int| s.certificate_field_entry(fields[i])) =~= Seq::new(
        fields.len(),
        |i: int| t.certificate_field_entry(fields[i]),
    ));
    let commissions = rows_of(s.chunk.commissions);
    assert(Seq::new(commissions.len(), |i: int| s.commission_entry(commissions[i])) =~= Seq::new(
        commissions.len(),
        |i: int| t.commission_entry(commissions[i]),
    ));
}

proof fn parents_alike(s: ApplyView, t: ApplyView)
    requires
        alike(s, t),
    ensures
        s.planned(Phase::Baskets) == t.planned(Phase::Baskets),
        s.planned(Phase::ProvenTxs) == t.planned(Phase::ProvenTxs),
        s.planned(Phase::TxLabels) == t.planned(Phase::TxLabels),
        s.planned(Phase::OutputTags) == t.planned(Phase::OutputTags),
        s.planned(Phase::Certificates) == t.planned(Phase::Certificates),
        s.planned(Phase::Finished) == t.planned(Phase::Finished),
{
    assert(s.planned(Phase::Baskets) =~= t.planned(Phase::Baskets));
    assert(s.planned(Phase::ProvenTxs) =~= t.planned(Phase::ProvenTxs));
    assert(s.planned(Phase::TxLabels) =~= t.planned(Phase::TxLabels));
    assert(s.planned(Phase::OutputTags) =~= t.planned(Phase::OutputTags));
    assert(s.planned(Phase::Certificates) =~= t.planned(Phase::Certificates));
}

/// The phases whose statements bind blobs that may be in the object store.
pub open spec fn blob_phase(phase: Phase) -> bool {
    phase == Phase::ProvenTxReqs || phase == Phase::Transactions || phase == Phase::Outputs
}

proof fn same_list_is_alike(phase: Phase, a: Seq<EntryView>, b: Seq<EntryView>)
    requires
        a == b,
    ensures
        alike_lists(phase, a, b),
{
}

/// Alike merges plan alike entries.
proof fn planned_alike(s: ApplyView, t: ApplyView, phase: Phase)
    requires
        alike(s, t),
    ensures
        alike_lists(phase, s.planned(phase), t.planned(phase)),
{
    if phase == Phase::Outputs {
        outputs_alike(s, t);
    } else if phase == Phase::Transactions {
        transactions_alike(s, t);
    } else if phase == Phase::ProvenTxReqs {
        requests_alike(s, t);
    } else {
        maps_alike(s, t);
        children_alike(s, t);
        parents_alike(s, t);
        same_list_is_alike(phase, s.planned(phase), t.planned(phase));
    }
}

proof fn output_statement_is_whole(s: ApplyView, o: TableOutput, entry: EntryView)
    requires
        s.output_entry(o) == Some(entry),
    ensures
        entry.query.params.len() == 21,
{
}

proof fn outputs_statements_are_whole(s: ApplyView, k: int)
    requires
        0 <= k < s.planned(Phase::Outputs).len(),
    ensures
        s.planned(Phase::Outputs)[k].query.params.len() == 21,
{
    let entry = s.planned(Phase::Outputs)[k];
    planned_entries(s, Phase::Outputs, k);
    let rows = rows_of(s.chunk.outputs);
    let i = choose|i: int| 0 <= i < rows.len() && Some(entry) == s.output_entry(#[trigger] rows[i]);
    output_statement_is_whole(s, rows[i], entry);
}

/// A statement that binds blobs binds a value to each column.
proof fn statements_are_whole(s: ApplyView, phase: Phase, k: int)
    requires
        blob_phase(phase),
        0 <= k < s.planned(phase).len(),
    ensures
        s.planned(phase)[k].query.params.len() == plan_of(phase).insert.columns.len(),
{
    if phase == Phase::Outputs {
        outputs_statements_are_whole(s, k);
    }
}

proof fn made_lacks(columns: Seq<(Column, Slot)>, params: Seq<SqlValue>, n: int, c: Column)
    requires
        0 <= n <= columns.len(),
        forall|i: int| 0 <= i < columns.len() ==> (#[trigger] columns[i]).0 != c,
    ensures
        !made(columns, params, n).contains_key(c),
    decreases n,
{
    if n > 0 {
        made_lacks(columns, params, n - 1, c);
    }
}

proof fn blob_places_hold_blobs(phase: Phase, i: int)
    requires
        blob_phase(phase),
        0 <= i < plan_of(phase).insert.columns.len(),
        blob_place(phase, i),
    ensures
        is_blob_column(plan_of(phase).insert.columns[i].0),
{
}

/// Alike entries bring in the same row but for the blobs.
#[verifier::rlimit(40)]
proof fn alike_entries_bring_alike_rows(phase: Phase, a: EntryView, b: EntryView, c: Column)
    requires
        alike_entries(phase, a, b),
        blob_phase(phase) ==> a.query.params.len() == plan_of(phase).insert.columns.len(),
        !is_blob_column(c),
    ensures
        at(incoming(plan_of(phase), a), c) == at(incoming(plan_of(phase), b), c),
{
    let columns = plan_of(phase).insert.columns;
    if !blob_phase(phase) {
        assert(a.query.params =~= b.query.params);
    } else if exists|i: int| 0 <= i < columns.len() && (#[trigger] columns[i]).0 == c {
        let i = choose|i: int| 0 <= i < columns.len() && (#[trigger] columns[i]).0 == c;
        a_row_has_what_is_bound(phase, a, i);
        a_row_has_what_is_bound(phase, b, i);
        if blob_place(phase, i) {
            blob_places_hold_blobs(phase, i);
        }
        assert(a.query.params[i] == b.query.params[i]);
    } else {
        made_lacks(columns, a.query.params, columns.len() as int, c);
        made_lacks(columns, b.query.params, columns.len() as int, c);
    }
}

// ---------------------------------------------------------------------------
// Keys
// ---------------------------------------------------------------------------

proof fn bound_key(phase: Phase, entry: EntryView, places: Seq<int>)
    requires
        places.len() == plan_of(phase).key.len(),
        forall|i: int|
            0 <= i < places.len() ==> 0 <= #[trigger] places[i] < plan_of(
                phase,
            ).insert.columns.len() && plan_of(phase).insert.columns[places[i]].0 == plan_of(
                phase,
            ).key[i] && !(value_for(
                plan_of(phase).insert.columns,
                entry.query.params,
                places[i],
            ) is Null),
    ensures
        has_key(plan_of(phase).key, incoming(plan_of(phase), entry)),
{
    let plan = plan_of(phase);
    assert forall|i: int| 0 <= i < plan.key.len() implies !(at(
        incoming(plan, entry),
        #[trigger] plan.key[i],
    ) is Null) by {
        assert(0 <= places[i] < plan.insert.columns.len());
        a_row_has_what_is_bound(phase, entry, places[i]);
    }
}

proof fn bound_at(phase: Phase, params: Seq<SqlValue>, i: int)
    requires
        phase != Phase::TxLabelMaps && phase != Phase::OutputTagMaps,
        0 <= i < plan_of(phase).insert.columns.len(),
    ensures
        value_for(plan_of(phase).insert.columns, params, i) == params[i],
{
    let entry = EntryView {
        query: QueryView { sql: Seq::empty(), params },
        foreign: 0,
        updated_at: Timestamp { seconds: 0, nanos: 0 },
        fills: Seq::empty(),
    };
    a_row_has_what_is_bound(phase, entry, i);
}

proof fn output_has_key(s: ApplyView, k: int)
    requires
        0 <= k < s.planned(Phase::Outputs).len(),
    ensures
        has_key(
            plan_of(Phase::Outputs).key,
            incoming(plan_of(Phase::Outputs), s.planned(Phase::Outputs)[k]),
        ),
{
    let entry = s.planned(Phase::Outputs)[k];
    planned_entries(s, Phase::Outputs, k);
    let rows = rows_of(s.chunk.outputs);
    let i = choose|i: int| 0 <= i < rows.len() && Some(entry) == s.output_entry(#[trigger] rows[i]);
    output_params(s, rows[i], entry);
    output_row(entry);
    output_key_columns(incoming(plan_of(Phase::Outputs), entry));
}

proof fn output_key_columns(row: Row)
    requires
        !(at(row, Column::TransactionId) is Null),
        !(at(row, Column::Vout) is Null),
        !(at(row, Column::UserId) is Null),
    ensures
        has_key(plan_of(Phase::Outputs).key, row),
{
}

#[verifier::rlimit(40)]
proof fn transaction_has_key(s: ApplyView, k: int)
    requires
        0 <= k < s.planned(Phase::Transactions).len(),
    ensures
        has_key(
            plan_of(Phase::Transactions).key,
            incoming(plan_of(Phase::Transactions), s.planned(Phase::Transactions)[k]),
        ),
{
    let entry = s.planned(Phase::Transactions)[k];
    bound_at(Phase::Transactions, entry.query.params, 3);
    bound_key(Phase::Transactions, entry, seq![3int]);
}

#[verifier::rlimit(40)]
proof fn request_has_key(s: ApplyView, k: int)
    requires
        0 <= k < s.planned(Phase::ProvenTxReqs).len(),
    ensures
        has_key(
            plan_of(Phase::ProvenTxReqs).key,
            incoming(plan_of(Phase::ProvenTxReqs), s.planned(Phase::ProvenTxReqs)[k]),
        ),
{
    let entry = s.planned(Phase::ProvenTxReqs)[k];
    bound_at(Phase::ProvenTxReqs, entry.query.params, 0);
    bound_key(Phase::ProvenTxReqs, entry, seq![0int]);
}

proof fn proven_tx_has_key(s: ApplyView, k: int)
    requires
        0 <= k < s.planned(Phase::ProvenTxs).len(),
    ensures
        has_key(
            plan_of(Phase::ProvenTxs).key,
            incoming(plan_of(Phase::ProvenTxs), s.planned(Phase::ProvenTxs)[k]),
        ),
{
    let entry = s.planned(Phase::ProvenTxs)[k];
    bound_at(Phase::ProvenTxs, entry.query.params, 0);
    bound_key(Phase::ProvenTxs, entry, seq![0int]);
}

proof fn name_bound(phase: Phase, entry: EntryView)
    requires
        phase == Phase::Baskets || phase == Phase::TxLabels || phase == Phase::OutputTags,
        !(entry.query.params[0] is Null),
        !(entry.query.params[1] is Null),
    ensures
        has_key(plan_of(phase).key, incoming(plan_of(phase), entry)),
{
    bound_at(phase, entry.query.params, 0);
    bound_at(phase, entry.query.params, 1);
    bound_key(phase, entry, seq![1int, 0int]);
}

proof fn named_has_key(s: ApplyView, phase: Phase, k: int)
    requires
        phase == Phase::Baskets || phase == Phase::TxLabels || phase == Phase::OutputTags,
        0 <= k < s.planned(phase).len(),
    ensures
        has_key(plan_of(phase).key, incoming(plan_of(phase), s.planned(phase)[k])),
{
    let entry = s.planned(phase)[k];
    assert(!(entry.query.params[0] is Null) && !(entry.query.params[1] is Null)) by {
        match phase {
            Phase::Baskets => {
                assert(entry == s.basket_entry(rows_of(s.chunk.output_baskets)[k]));
            },
            Phase::TxLabels => {
                assert(entry == s.tx_label_entry(rows_of(s.chunk.tx_labels)[k]));
            },
            _ => {
                assert(entry == s.output_tag_entry(rows_of(s.chunk.output_tags)[k]));
            },
        }
    }
    name_bound(phase, entry);
}

#[verifier::rlimit(40)]
proof fn certificate_has_key(s: ApplyView, k: int)
    requires
        0 <= k < s.planned(Phase::Certificates).len(),
    ensures
        has_key(
            plan_of(Phase::Certificates).key,
            incoming(plan_of(Phase::Certificates), s.planned(Phase::Certificates)[k]),
        ),
{
    let entry = s.planned(Phase::Certificates)[k];
    bound_at(Phase::Certificates, entry.query.params, 0);
    bound_at(Phase::Certificates, entry.query.params, 1);
    bound_at(Phase::Certificates, entry.query.params, 2);
    bound_at(Phase::Certificates, entry.query.params, 3);
    bound_key(Phase::Certificates, entry, seq![0int, 2int, 3int, 1int]);
}

proof fn field_params(s: ApplyView, row: TableCertificateField, entry: EntryView)
    requires
        s.certificate_field_entry(row) == Some(entry),
    ensures
        !(entry.query.params[1] is Null),
        !(entry.query.params[2] is Null),
{
}

proof fn planned_field_params(s: ApplyView, k: int)
    requires
        0 <= k < s.planned(Phase::CertificateFields).len(),
    ensures
        !(s.planned(Phase::CertificateFields)[k].query.params[1] is Null),
        !(s.planned(Phase::CertificateFields)[k].query.params[2] is Null),
{
    let entry = s.planned(Phase::CertificateFields)[k];
    planned_entries(s, Phase::CertificateFields, k);
    let rows = rows_of(s.chunk.certificate_fields);
    let i = choose|i: int|
        0 <= i < rows.len() && Some(entry) == s.certificate_field_entry(#[trigger] rows[i]);
    field_params(s, rows[i], entry);
}

proof fn field_bound(entry: EntryView)
    requires
        !(entry.query.params[1] is Null),
        !(entry.query.params[2] is Null),
    ensures
        has_key(
            plan_of(Phase::CertificateFields).key,
            incoming(plan_of(Phase::CertificateFields), entry),
        ),
{
    bound_at(Phase::CertificateFields, entry.query.params, 1);
    bound_at(Phase::CertificateFields, entry.query.params, 2);
    bound_key(Phase::CertificateFields, entry, seq![2int, 1int]);
}

proof fn field_has_key(s: ApplyView, k: int)
    requires
        0 <= k < s.planned(Phase::CertificateFields).len(),
    ensures
        has_key(
            plan_of(Phase::CertificateFields).key,
            incoming(plan_of(Phase::CertificateFields), s.planned(Phase::CertificateFields)[k]),
        ),
{
    planned_field_params(s, k);
    field_bound(s.planned(Phase::CertificateFields)[k]);
}

proof fn commission_params(s: ApplyView, row: TableCommission, entry: EntryView)
    requires
        s.commission_entry(row) == Some(entry),
    ensures
        !(entry.query.params[1] is Null),
{
}

proof fn planned_commission_params(s: ApplyView, k: int)
    requires
        0 <= k < s.planned(Phase::Commissions).len(),
    ensures
        !(s.planned(Phase::Commissions)[k].query.params[1] is Null),
{
    let entry = s.planned(Phase::Commissions)[k];
    planned_entries(s, Phase::Commissions, k);
    let rows = rows_of(s.chunk.commissions);
    let i = choose|i: int|
        0 <= i < rows.len() && Some(entry) == s.commission_entry(#[trigger] rows[i]);
    commission_params(s, rows[i], entry);
}

proof fn commission_bound(entry: EntryView)
    requires
        !(entry.query.params[1] is Null),
    ensures
        has_key(plan_of(Phase::Commissions).key, incoming(plan_of(Phase::Commissions), entry)),
{
    bound_at(Phase::Commissions, entry.query.params, 1);
    bound_key(Phase::Commissions, entry, seq![1int]);
}

proof fn commission_has_key(s: ApplyView, k: int)
    requires
        0 <= k < s.planned(Phase::Commissions).len(),
    ensures
        has_key(
            plan_of(Phase::Commissions).key,
            incoming(plan_of(Phase::Commissions), s.planned(Phase::Commissions)[k]),
        ),
{
    planned_commission_params(s, k);
    commission_bound(s.planned(Phase::Commissions)[k]);
}

proof fn label_map_params(s: ApplyView, row: TableTxLabelMap, entry: EntryView)
    requires
        s.tx_label_map_entry(row) == Some(entry),
    ensures
        !(entry.query.params[0] is Null),
        !(entry.query.params[1] is Null),
{
}

proof fn planned_label_map_params(s: ApplyView, k: int)
    requires
        0 <= k < s.planned(Phase::TxLabelMaps).len(),
    ensures
        !(s.planned(Phase::TxLabelMaps)[k].query.params[0] is Null),
        !(s.planned(Phase::TxLabelMaps)[k].query.params[1] is Null),
{
    let entry = s.planned(Phase::TxLabelMaps)[k];
    planned_entries(s, Phase::TxLabelMaps, k);
    let rows = rows_of(s.chunk.tx_label_maps);
    let i = choose|i: int|
        0 <= i < rows.len() && Some(entry) == s.tx_label_map_entry(#[trigger] rows[i]);
    label_map_params(s, rows[i], entry);
}

proof fn label_map_bound(entry: EntryView)
    requires
        !(entry.query.params[0] is Null),
        !(entry.query.params[1] is Null),
    ensures
        has_key(plan_of(Phase::TxLabelMaps).key, incoming(plan_of(Phase::TxLabelMaps), entry)),
{
    reveal_with_fuel(binds, 3);
    bound_key(Phase::TxLabelMaps, entry, seq![0int, 1int]);
}

proof fn label_map_has_key(s: ApplyView, k: int)
    requires
        0 <= k < s.planned(Phase::TxLabelMaps).len(),
    ensures
        has_key(
            plan_of(Phase::TxLabelMaps).key,
            incoming(plan_of(Phase::TxLabelMaps), s.planned(Phase::TxLabelMaps)[k]),
        ),
{
    planned_label_map_params(s, k);
    label_map_bound(s.planned(Phase::TxLabelMaps)[k]);
}

proof fn tag_map_params(s: ApplyView, row: TableOutputTagMap, entry: EntryView)
    requires
        s.output_tag_map_entry(row) == Some(entry),
    ensures
        !(entry.query.params[0] is Null),
        !(entry.query.params[1] is Null),
{
}

proof fn planned_tag_map_params(s: ApplyView, k: int)
    requires
        0 <= k < s.planned(Phase::OutputTagMaps).len(),
    ensures
        !(s.planned(Phase::OutputTagMaps)[k].query.params[0] is Null),
        !(s.planned(Phase::OutputTagMaps)[k].query.params[1] is Null),
{
    let entry = s.planned(Phase::OutputTagMaps)[k];
    planned_entries(s, Phase::OutputTagMaps, k);
    let rows = rows_of(s.chunk.output_tag_maps);
    let i = choose|i: int|
        0 <= i < rows.len() && Some(entry) == s.output_tag_map_entry(#[trigger] rows[i]);
    tag_map_params(s, rows[i], entry);
}

proof fn tag_map_bound(entry: EntryView)
    requires
        !(entry.query.params[0] is Null),
        !(entry.query.params[1] is Null),
    ensures
        has_key(plan_of(Phase::OutputTagMaps).key, incoming(plan_of(Phase::OutputTagMaps), entry)),
{
    reveal_with_fuel(binds, 3);
    bound_key(Phase::OutputTagMaps, entry, seq![0int, 1int]);
}

proof fn tag_map_has_key(s: ApplyView, k: int)
    requires
        0 <= k < s.planned(Phase::OutputTagMaps).len(),
    ensures
        has_key(
            plan_of(Phase::OutputTagMaps).key,
            incoming(plan_of(Phase::OutputTagMaps), s.planned(Phase::OutputTagMaps)[k]),
        ),
{
    planned_tag_map_params(s, k);
    tag_map_bound(s.planned(Phase::OutputTagMaps)[k]);
}

/// Every row that a batch brings in has a value in each column of its key.
pub proof fn a_batch_brings_keys(s: ApplyView, phase: Phase, k: int)
    requires
        phase != Phase::Finished,
        0 <= k < s.planned(phase).len(),
    ensures
        has_key(plan_of(phase).key, incoming(plan_of(phase), s.planned(phase)[k])),
{
    match phase {
        Phase::Outputs => output_has_key(s, k),
        Phase::Transactions => transaction_has_key(s, k),
        Phase::ProvenTxReqs => request_has_key(s, k),
        Phase::ProvenTxs => proven_tx_has_key(s, k),
        Phase::Certificates => certificate_has_key(s, k),
        Phase::CertificateFields => field_has_key(s, k),
        Phase::Commissions => commission_has_key(s, k),
        Phase::TxLabelMaps => label_map_has_key(s, k),
        Phase::OutputTagMaps => tag_map_has_key(s, k),
        _ => named_has_key(s, phase, k),
    }
}

// ---------------------------------------------------------------------------
// Phases
// ---------------------------------------------------------------------------

/// Whether every table is there, no two of its rows have the same key, and every row has a
/// value for every column.
pub open spec fn sound(world: World) -> bool {
    &&& forall|t: Table| #[trigger] world.tables.contains_key(t)
    &&& forall|phase: Phase|
        phase != Phase::Finished ==> well_kept(
            #[trigger] plan_of(phase),
            world.rows(table_of(phase)),
        )
}

/// Whether no output of a batch both calls itself spendable and names, by its local id, the
/// transaction that spends it.
pub open spec fn plain_outputs(entries: Seq<EntryView>) -> bool {
    forall|k: int|
        0 <= k < entries.len() ==> plain_spend(incoming(output_merge(), #[trigger] entries[k]))
}

/// Whether that holds of the outputs of a step.
pub open spec fn spends_are_plain(state: State) -> bool {
    match state.step {
        Some(ProgressView::RunUpserts { apply, phase, entries }) => phase == Phase::Outputs
            ==> plain_outputs(entries),
        _ => true,
    }
}

/// Whether that holds of every batch of a run.
pub open spec fn spends_stay_plain(store: Store, state: State) -> bool {
    forall|i: nat| spends_are_plain(#[trigger] run(store, state, i))
}

proof fn spends_stay_plain_later(store: Store, state: State, n: nat)
    requires
        spends_stay_plain(store, state),
    ensures
        spends_stay_plain(store, run(store, state, n)),
{
    assert forall|i: nat| spends_are_plain(#[trigger] run(store, run(store, state, n), i)) by {
        runs_add_up(store, state, n, i);
        assert(spends_are_plain(run(store, state, n + i)));
    }
}

proof fn plans_differ(phase: Phase)
    ensures
        plan_of(phase) == output_merge() <==> phase == Phase::Outputs,
{
    assert(output_merge().insert.table == Table::Outputs);
    assert(plan_of(phase).insert.table == table_of(phase));
    if phase != Phase::Outputs {
        assert(table_of(phase) != Table::Outputs);
    }
}

proof fn plain_entries_are_mergeable(world: World, p: ApplyView, phase: Phase, j: int)
    requires
        phase != Phase::Finished,
        spends_are_plain(State { world, step: Some(p.run(phase)) }),
        0 <= j < p.planned(phase).len(),
    ensures
        mergeable(plan_of(phase), p.planned(phase)[j]),
{
    a_batch_brings_keys(p, phase, j);
    plans_differ(phase);
    let entries = p.planned(phase);
    assert(p.run(phase) == ProgressView::RunUpserts { apply: p, phase, entries });
    if phase == Phase::Outputs {
        assert(plan_of(phase) == output_merge());
        assert(plain_outputs(entries));
        assert(plain_spend(incoming(output_merge(), entries[j])));
    } else {
        assert(plan_of(phase) != output_merge());
    }
}

proof fn entries_are_mergeable(store: Store, world: World, s: ApplyView, phase: Phase, p: ApplyView)
    requires
        phase != Phase::Finished,
        spends_stay_plain(store, State { world, step: Some(s.enter(phase)) }),
        p == prepared(store, world, s, phase),
    ensures
        forall|j: int|
            0 <= j < p.planned(phase).len() ==> mergeable(
                plan_of(phase),
                #[trigger] p.planned(phase)[j],
            ),
{
    let start = State { world, step: Some(s.enter(phase)) };
    let n = a_phase_comes_to_its_batch(store, world, s, phase);
    assert(spends_are_plain(run(store, start, n)));
    assert forall|j: int| 0 <= j < p.planned(phase).len() implies mergeable(
        plan_of(phase),
        #[trigger] p.planned(phase)[j],
    ) by {
        plain_entries_are_mergeable(world, p, phase, j);
    }
}

/// What a phase leaves: the other tables and the users, the objects that were there, and
/// tables that are sound.
pub open spec fn leaves(a: World, b: World, table: Table) -> bool {
    &&& forall|t: Table| t != table ==> #[trigger] b.rows(t) == a.rows(t)
    &&& b.users == a.users
    &&& forall|key: Seq<char>| #[trigger]
        a.objects.contains_key(key) ==> b.objects.contains_key(key)
    &&& sound(b)
}

/// Whether every row of a batch is merged in, under the id that it got, and every blob is
/// there.
pub open spec fn took(world: World, phase: Phase, list: Seq<EntryView>, ids: Seq<i64>) -> bool {
    &&& ids.len() == list.len()
    &&& forall|j: int|
        0 <= j < list.len() ==> world.rows(table_of(phase)).contains_key(#[trigger] ids[j])
            && merged_in(
            plan_of(phase),
            world.rows(table_of(phase))[ids[j]],
            incoming(plan_of(phase), list[j]),
        )
    &&& forall|i: int|
        0 <= i < writes(list, ids, list.len() as int).len() ==> blob_settled(
            world,
            table_of(phase),
            #[trigger] writes(list, ids, list.len() as int)[i],
        )
}

proof fn sound_after(world: World, after: World, phase: Phase)
    requires
        sound(world),
        phase != Phase::Finished,
        after.tables.dom() == world.tables.dom(),
        forall|t: Table| t != table_of(phase) ==> #[trigger] after.rows(t) == world.rows(t),
        well_kept(plan_of(phase), after.rows(table_of(phase))),
    ensures
        sound(after),
{
    assert forall|t: Table| #[trigger] after.tables.contains_key(t) by {
        assert(world.tables.contains_key(t));
    }
    assert forall|q: Phase| q != Phase::Finished implies well_kept(
        #[trigger] plan_of(q),
        after.rows(table_of(q)),
    ) by {
        phases_have_tables(q, phase);
        if q != phase {
            assert(after.rows(table_of(q)) == world.rows(table_of(q)));
        }
    }
}

#[verifier::rlimit(40)]
proof fn batch_took(
    store: Store,
    world: World,
    p: ApplyView,
    phase: Phase,
    ids: Seq<i64>,
)
    requires
        phase != Phase::Finished,
        sound(world),
        forall|j: int|
            0 <= j < p.planned(phase).len() ==> mergeable(
                plan_of(phase),
                #[trigger] p.planned(phase)[j],
            ),
        all_ids(batch(store, world, phase, p.planned(phase), p.planned(phase).len() as int).ids)
            == Some(ids),
    ensures
        ({
            let list = p.planned(phase);
            let n = list.len() as int;
            let blobs = writes(list, ids, n);
            let after = filled_all(
                batched(store, world, phase, list, n),
                table_of(phase),
                blobs,
                blobs.len() as int,
            );
            leaves(world, after, table_of(phase)) && took(after, phase, list, ids)
        }),
{
    let plan = plan_of(phase);
    let table = table_of(phase);
    let list = p.planned(phase);
    let n = list.len() as int;
    let blobs = writes(list, ids, n);
    let ran_world = batched(store, world, phase, list, n);
    let done = batch(store, world, phase, list, n);
    keys_hold_no_blobs(phase);
    assert(well_kept(plan_of(phase), world.rows(table)));
    assert(world.tables.contains_key(table));
    batch_merges_in(store, plan, world.rows(Table::OutputBaskets), world.rows(table), list, n);
    assert(ran_world.rows(table) == done.rows);
    assert(ran_world.tables.dom() =~= world.tables.dom());
    assert(ran_world.tables.contains_key(table));
    assert forall|k: int| 0 <= k < list.len() implies only_overflow(#[trigger] list[k]) by {
        planned_fills_overflow(p, phase, k);
    }
    assert forall|i: int| 0 <= i < blobs.len() implies overflows(
        Some((#[trigger] blobs[i]).bytes),
    ) && !blobs[i].also_updated by {
        writes_overflow(list, ids, n, i);
    }
    filled_all_fills_only(ran_world, table, blobs, blobs.len() as int);
    let after = filled_all(ran_world, table, blobs, blobs.len() as int);
    well_kept_but_for_blobs(phase, ran_world.rows(table), after.rows(table));
    assert forall|t: Table| t != table implies #[trigger] after.rows(t) == world.rows(t) by {
        assert(ran_world.rows(t) == world.rows(t));
    }
    sound_after(world, after, phase);
    assert forall|j: int| 0 <= j < list.len() implies after.rows(table).contains_key(
        #[trigger] ids[j],
    ) && merged_in(plan, after.rows(table)[ids[j]], incoming(plan, list[j])) by {
        assert(done.ids[j] is Some);
        assert(done.ids[j]->0 == ids[j]);
        assert(after.rows(table).contains_key(ids[j]));
        merged_in_but_for_blobs(
            phase,
            ran_world.rows(table)[ids[j]],
            after.rows(table)[ids[j]],
            incoming(plan, list[j]),
        );
    }
    assert(ids.len() == list.len());
    assert(after.users == world.users);
    assert forall|key: Seq<char>| #[trigger] world.objects.contains_key(key) implies
        after.objects.contains_key(key) by {
        assert(ran_world.objects.contains_key(key));
    }
    assert(leaves(world, after, table));
    assert(took(after, phase, list, ids));
}

proof fn asking_keeps_alike(
    store: Store,
    world: World,
    other: World,
    s: ApplyView,
    t: ApplyView,
    column: BlobColumn,
)
    requires
        alike(s, t),
    ensures
        alike(asked_for(store, world, s, column), asked_for(store, other, t, column)),
{
}

/// Whether two worlds have the same rows in the tables of the phases before one, and in its
/// own.
pub open spec fn same_until(a: World, b: World, phase: Phase) -> bool {
    forall|q: Phase|
        q.left() > phase.left() ==> #[trigger] b.rows(table_of(q)) == a.rows(table_of(q))
}

proof fn looking_up_alike(
    store: Store,
    world: World,
    other: World,
    s: ApplyView,
    t: ApplyView,
    phase: Phase,
)
    requires
        alike(s, t),
        same_until(world, other, phase),
    ensures
        alike(looked_up(store, world, s, phase), looked_up(store, other, t, phase)),
{
    match phase {
        Phase::Transactions => {
            assert(table_of(Phase::ProvenTxs) == Table::ProvenTxs);
            assert(other.rows(table_of(Phase::ProvenTxs)) == world.rows(
                table_of(Phase::ProvenTxs),
            ));
        },
        Phase::Outputs => {
            assert(table_of(Phase::Transactions) == Table::Transactions);
            assert(table_of(Phase::Baskets) == Table::OutputBaskets);
            assert(other.rows(table_of(Phase::Transactions)) == world.rows(
                table_of(Phase::Transactions),
            ));
            assert(other.rows(table_of(Phase::Baskets)) == world.rows(table_of(Phase::Baskets)));
            if s.chunk.outputs is Some {
                assert(alike(
                    names_looked_up(store, world, s),
                    names_looked_up(store, other, t),
                ));
            }
        },
        _ => {},
    }
}

proof fn preparing_alike(
    store: Store,
    world: World,
    other: World,
    s: ApplyView,
    t: ApplyView,
    phase: Phase,
)
    requires
        alike(s, t),
        same_until(world, other, phase),
    ensures
        alike(prepared(store, world, s, phase), prepared(store, other, t, phase)),
{
    looking_up_alike(store, world, other, s, t, phase);
    let a = looked_up(store, world, s, phase);
    let b = looked_up(store, other, t, phase);
    match phase {
        Phase::ProvenTxReqs => {
            asking_keeps_alike(store, world, other, a, b, BlobColumn::RequestBeef);
        },
        Phase::Transactions => {
            asking_keeps_alike(store, world, other, a, b, BlobColumn::RawTx);
            asking_keeps_alike(
                store,
                world,
                other,
                asked_for(store, world, a, BlobColumn::RawTx),
                asked_for(store, other, b, BlobColumn::RawTx),
                BlobColumn::InputBeef,
            );
        },
        Phase::Outputs => {
            asking_keeps_alike(store, world, other, a, b, BlobColumn::LockingScript);
        },
        _ => {},
    }
}

proof fn recorded_alike(
    phase: Phase,
    map: Map<i64, i64>,
    a: Seq<EntryView>,
    b: Seq<EntryView>,
    ids: Seq<i64>,
    n: int,
)
    requires
        alike_lists(phase, a, b),
        n <= a.len(),
    ensures
        recorded(map, a, ids, n) == recorded(map, b, ids, n),
    decreases n,
{
    if n > 0 {
        recorded_alike(phase, map, a, b, ids, n - 1);
        assert(alike_entries(phase, a[n - 1], b[n - 1]));
    }
}

proof fn writes_alike(
    phase: Phase,
    a: Seq<EntryView>,
    b: Seq<EntryView>,
    ids: Seq<i64>,
    n: int,
)
    requires
        alike_lists(phase, a, b),
        n <= a.len(),
    ensures
        writes(a, ids, n) == writes(b, ids, n),
    decreases n,
{
    if n > 0 {
        writes_alike(phase, a, b, ids, n - 1);
        assert(alike_entries(phase, a[n - 1], b[n - 1]));
        assert(fill_writes(a[n - 1], ids[n - 1]) =~= fill_writes(b[n - 1], ids[n - 1]));
    }
}

proof fn settling_alike(
    s: ApplyView,
    t: ApplyView,
    phase: Phase,
    a: Seq<EntryView>,
    b: Seq<EntryView>,
    ids: Seq<i64>,
)
    requires
        alike(s, t),
        alike_lists(phase, a, b),
    ensures
        alike(s.settled(phase, a, ids), t.settled(phase, b, ids)),
{
    let n = paired(a, ids);
    assert forall|i: int| 0 <= i < n implies a[i].updated_at == b[i].updated_at by {
        assert(alike_entries(phase, a[i], b[i]));
    }
    assert(times(a, n) =~= times(b, n));
    recorded_alike(phase, s.ids.baskets, a, b, ids, n);
    recorded_alike(phase, s.ids.labels, a, b, ids, n);
    recorded_alike(phase, s.ids.tags, a, b, ids, n);
    recorded_alike(phase, s.ids.certificates, a, b, ids, n);
    recorded_alike(phase, s.ids.transactions, a, b, ids, n);
    recorded_alike(phase, s.ids.outputs, a, b, ids, n);
}

// ---------------------------------------------------------------------------
// The whole call
// ---------------------------------------------------------------------------

/// A phase that did not fail leaves its rows merged in.
proof fn a_phase_takes(store: Store, world: World, s: ApplyView, phase: Phase, p: ApplyView)
    requires
        phase != Phase::Finished,
        sound(world),
        p == prepared(store, world, s, phase),
        spends_stay_plain(store, State { world, step: Some(s.enter(phase)) }),
        went(store, world, s, phase).1 is Some,
    ensures
        leaves(world, went(store, world, s, phase).0, table_of(phase)),
        p.planned(phase).len() == 0 ==> went(store, world, s, phase) == (
            world,
            Some(p.settled(phase, p.planned(phase), Seq::empty())),
        ),
        p.planned(phase).len() > 0 ==> exists|ids: Seq<i64>|
            #[trigger] took(went(store, world, s, phase).0, phase, p.planned(phase), ids)
                && went(store, world, s, phase).1 == Some(
                p.settled(phase, p.planned(phase), ids),
            ),
{
    reveal(went);
    let list = p.planned(phase);
    let n = list.len() as int;
    if n > 0 {
        entries_are_mergeable(store, world, s, phase, p);
        let ids = all_ids(batch(store, world, phase, list, n).ids)->0;
        ids_in_order(store, world, phase, list, n);
        batch_took(store, world, p, phase, ids);
        assert(paired(list, ids) == n);
        assert(took(went(store, world, s, phase).0, phase, list, ids));
    }
}

proof fn merged_in_alike(phase: Phase, stored: Row, p: ApplyView, q: ApplyView, k: int)
    requires
        phase != Phase::Finished,
        alike(p, q),
        0 <= k < p.planned(phase).len(),
        k < q.planned(phase).len(),
        alike_entries(phase, p.planned(phase)[k], q.planned(phase)[k]),
        merged_in(plan_of(phase), stored, incoming(plan_of(phase), p.planned(phase)[k])),
    ensures
        merged_in(plan_of(phase), stored, incoming(plan_of(phase), q.planned(phase)[k])),
{
    let plan = plan_of(phase);
    let a = p.planned(phase)[k];
    let b = q.planned(phase)[k];
    if blob_phase(phase) {
        statements_are_whole(p, phase, k);
    }
    keys_hold_no_blobs(phase);
    let x = incoming(plan, a);
    let y = incoming(plan, b);
    assert forall|i: int| 0 <= i < plan.key.len() implies at(stored, #[trigger] plan.key[i]) == at(
        y,
        plan.key[i],
    ) && !(at(stored, plan.key[i]) is Null) by {
        alike_entries_bring_alike_rows(phase, a, b, plan.key[i]);
        assert(at(stored, plan.key[i]) == at(x, plan.key[i]));
    }
    alike_entries_bring_alike_rows(phase, a, b, Column::UserId);
    alike_entries_bring_alike_rows(phase, a, b, Column::UpdatedAt);
    alike_entries_bring_alike_rows(phase, a, b, Column::SpentBy);
}

proof fn took_is_kept(
    end: World,
    phase: Phase,
    p: ApplyView,
    q: ApplyView,
    ids: Seq<i64>,
    other: World,
)
    requires
        phase != Phase::Finished,
        alike(p, q),
        took(end, phase, p.planned(phase), ids),
        other.rows(table_of(phase)) == end.rows(table_of(phase)),
        forall|key: Seq<char>| #[trigger]
            end.objects.contains_key(key) ==> other.objects.contains_key(key),
    ensures
        took(other, phase, q.planned(phase), ids),
        alike_lists(phase, p.planned(phase), q.planned(phase)),
{
    let a = p.planned(phase);
    let b = q.planned(phase);
    let table = table_of(phase);
    planned_alike(p, q, phase);
    writes_alike(phase, a, b, ids, a.len() as int);
    assert forall|j: int| 0 <= j < b.len() implies other.rows(table).contains_key(
        #[trigger] ids[j],
    ) && merged_in(plan_of(phase), other.rows(table)[ids[j]], incoming(plan_of(phase), b[j])) by {
        assert(end.rows(table).contains_key(ids[j]));
        assert(alike_entries(phase, a[j], b[j]));
        merged_in_alike(phase, end.rows(table)[ids[j]], p, q, j);
    }
    assert forall|i: int| 0 <= i < writes(b, ids, b.len() as int).len() implies blob_settled(
        other,
        table,
        #[trigger] writes(b, ids, b.len() as int)[i],
    ) by {
        assert(blob_settled(end, table, writes(a, ids, a.len() as int)[i]));
    }
}

proof fn same_rows_same_world(world: World, table: Table)
    requires
        world.tables.contains_key(table),
    ensures
        world.with_rows(table, world.rows(table)) == world,
{
    assert(world.tables.insert(table, world.tables[table]) =~= world.tables);
}

proof fn batch_repeats(store: Store, world: World, q: ApplyView, phase: Phase, ids: Seq<i64>)
    requires
        phase != Phase::Finished,
        sound(world),
        took(world, phase, q.planned(phase), ids),
    ensures
        batched(store, world, phase, q.planned(phase), q.planned(phase).len() as int) == world,
        all_ids(batch(store, world, phase, q.planned(phase), q.planned(phase).len() as int).ids)
            == Some(ids),
        filled_all(
            world,
            table_of(phase),
            writes(q.planned(phase), ids, q.planned(phase).len() as int),
            writes(q.planned(phase), ids, q.planned(phase).len() as int).len() as int,
        ) == world,
{
    let list = q.planned(phase);
    let n = list.len() as int;
    let table = table_of(phase);
    keys_hold_no_blobs(phase);
    assert(well_kept(plan_of(phase), world.rows(table)));
    assert(world.tables.contains_key(table));
    batch_again(
        store,
        plan_of(phase),
        world.rows(Table::OutputBaskets),
        world.rows(table),
        list,
        ids,
        n,
    );
    same_rows_same_world(world, table);
    let got = batch(store, world, phase, list, n).ids;
    assert(got =~= Seq::new(n as nat, |i: int| Some(ids[i])));
    assert(all_ids(got)->0 =~= ids);
    let blobs = writes(list, ids, n);
    filling_again(world, table, blobs, blobs.len() as int);
}

/// A phase that is gone through again on what a first merge left changes nothing.
proof fn a_phase_repeats(
    store: Store,
    world: World,
    s: ApplyView,
    phase: Phase,
    end: World,
    t: ApplyView,
)
    requires
        phase != Phase::Finished,
        sound(world),
        spends_stay_plain(store, State { world, step: Some(s.enter(phase)) }),
        went(store, world, s, phase).1 is Some,
        sound(end),
        same_until(world, end, phase),
        end.rows(table_of(phase)) == went(store, world, s, phase).0.rows(table_of(phase)),
        forall|key: Seq<char>| #[trigger]
            went(store, world, s, phase).0.objects.contains_key(key)
                ==> end.objects.contains_key(key),
        alike(s, t),
    ensures
        went(store, end, t, phase).0 == end,
        went(store, end, t, phase).1 is Some,
        alike(went(store, world, s, phase).1->0, went(store, end, t, phase).1->0),
{
    reveal(went);
    let p = prepared(store, world, s, phase);
    let q = prepared(store, end, t, phase);
    preparing_alike(store, world, end, s, t, phase);
    a_phase_takes(store, world, s, phase, p);
    let left = went(store, world, s, phase).0;
    if p.planned(phase).len() == 0 {
        planned_alike(p, q, phase);
        settling_alike(p, q, phase, p.planned(phase), q.planned(phase), Seq::empty());
    } else {
        let ids = choose|ids: Seq<i64>|
            #[trigger] took(left, phase, p.planned(phase), ids) && went(
                store,
                world,
                s,
                phase,
            ).1 == Some(p.settled(phase, p.planned(phase), ids));
        took_is_kept(left, phase, p, q, ids, end);
        batch_repeats(store, end, q, phase, ids);
        settling_alike(p, q, phase, p.planned(phase), q.planned(phase), ids);
        assert(paired(q.planned(phase), ids) == q.planned(phase).len());
    }
}

proof fn updates_stay(store: Store, world: World, s: ApplyView, phase: Phase)
    requires
        went(store, world, s, phase).1 is Some,
    ensures
        went(store, world, s, phase).1->0.result.updates == s.result.updates,
{
    reveal(went);
    assert(looked_up(store, world, s, phase).result == s.result);
    assert(prepared(store, world, s, phase).result == s.result);
}

proof fn plain_after_a_phase(store: Store, world: World, s: ApplyView, phase: Phase)
    requires
        phase != Phase::Finished,
        spends_stay_plain(store, State { world, step: Some(s.enter(phase)) }),
        went(store, world, s, phase).1 is Some,
    ensures
        spends_stay_plain(
            store,
            State {
                world: went(store, world, s, phase).0,
                step: Some(went(store, world, s, phase).1->0.enter(phase.following())),
            },
        ),
{
    let n = a_phase_comes_to_its_end(store, world, s, phase);
    spends_stay_plain_later(store, State { world, step: Some(s.enter(phase)) }, n);
}

/// A merge that succeeds leaves sound tables, and those of the phases before it as they
/// were.
#[verifier::rlimit(40)]
proof fn a_merge_ends_well(store: Store, world: World, s: ApplyView, phase: Phase)
    requires
        sound(world),
        spends_stay_plain(store, State { world, step: Some(s.enter(phase)) }),
        finish(store, world, s, phase).step is Some,
    ensures
        ({
            let end = finish(store, world, s, phase).world;
            &&& sound(end)
            &&& same_until(world, end, phase)
            &&& end.users == world.users
            &&& forall|key: Seq<char>| #[trigger]
                world.objects.contains_key(key) ==> end.objects.contains_key(key)
        }),
    decreases phase.left(),
{
    if phase != Phase::Finished {
        let (after, gone) = went(store, world, s, phase);
        a_phase_takes(store, world, s, phase, prepared(store, world, s, phase));
        plain_after_a_phase(store, world, s, phase);
        a_merge_ends_well(store, after, gone->0, phase.following());
        let end = finish(store, world, s, phase).world;
        assert forall|q: Phase| q.left() > phase.left() implies #[trigger] end.rows(table_of(q))
            == world.rows(table_of(q)) by {
            phases_have_tables(q, phase);
            assert(end.rows(table_of(q)) == after.rows(table_of(q)));
            assert(after.rows(table_of(q)) == world.rows(table_of(q)));
        }
        assert forall|key: Seq<char>| #[trigger] world.objects.contains_key(key) implies
            end.objects.contains_key(key) by {
            assert(after.objects.contains_key(key));
        }
    }
}

/// A merge that is gone through again from a phase on, on what a first merge left, ends
/// with the same world, and with the same answer but for the updates that it counts.
#[verifier::rlimit(40)]
proof fn a_merge_repeats(store: Store, world: World, s: ApplyView, phase: Phase, t: ApplyView)
    requires
        sound(world),
        spends_stay_plain(store, State { world, step: Some(s.enter(phase)) }),
        finish(store, world, s, phase).step is Some,
        alike(s, t),
    ensures
        ({
            let first = finish(store, world, s, phase);
            &&& first.step matches Some(ProgressView::Done { result }) && finish(
                store,
                first.world,
                t,
                phase,
            ) == (State {
                world: first.world,
                step: Some(
                    ProgressView::Done {
                        result: ProcessSyncChunkResult { updates: t.result.updates, ..result },
                    },
                ),
            })
        }),
    decreases phase.left(),
{
    if phase != Phase::Finished {
        let (after, gone) = went(store, world, s, phase);
        let end = finish(store, world, s, phase).world;
        a_phase_takes(store, world, s, phase, prepared(store, world, s, phase));
        plain_after_a_phase(store, world, s, phase);
        a_merge_ends_well(store, world, s, phase);
        a_merge_ends_well(store, after, gone->0, phase.following());
        assert(end.rows(table_of(phase)) == after.rows(table_of(phase)));
        a_phase_repeats(store, world, s, phase, end, t);
        updates_stay(store, end, t, phase);
        a_merge_repeats(
            store,
            after,
            gone->0,
            phase.following(),
            went(store, end, t, phase).1->0,
        );
    }
}

proof fn a_user_is_taken_once(world: World, end: World, s: ApplyView)
    requires
        world.users.contains_key(s.user_id),
        end.users == user_merged(world, s).users,
    ensures
        !takes_user(end, s),
        user_merged(end, s) == end,
{
}

/// A push is idempotent as a whole. Where a call succeeds, a second call with the same chunk
/// succeeds too, changes no row, no user and no object, counts the same rows and no update,
/// and says the same of being done and of the latest change. The record of the user has to
/// be there, and no output of the first call may both call itself spendable and name a
/// local transaction that spends it.
pub proof fn merging_twice_changes_nothing(
    store: Store,
    world: World,
    user_id: i64,
    chunk: SyncChunk,
    n: nat,
)
    requires
        sound(world),
        world.users.contains_key(user_id),
        spends_stay_plain(store, State { world, step: Some(first_step(user_id, chunk)) }),
        run(store, State { world, step: Some(first_step(user_id, chunk)) }, n).step matches Some(
            ProgressView::Done { .. },
        ),
    ensures
        ({
            let first = run(store, State { world, step: Some(first_step(user_id, chunk)) }, n);
            let again = State { world: first.world, step: Some(first_step(user_id, chunk)) };
            exists|m: nat|
                (#[trigger] run(store, again, m)).world == first.world && answers_again(
                    first,
                    run(store, again, m),
                )
        }),
{
    let start = State { world, step: Some(first_step(user_id, chunk)) };
    let s = fresh(user_id, chunk);
    let past = past_user(s, takes_user(world, s));
    let merged = user_merged(world, s);
    let k = a_call_comes_to_its_end(store, world, user_id, chunk);
    let first = run(store, start, n);
    if !no_rows(chunk) {
        finish_is_over(store, merged, past, Phase::Baskets);
    }
    one_end(store, start, n, k);
    assert(sound(merged)) by {
        assert forall|t: Table| #[trigger] merged.tables.contains_key(t) by {
            assert(world.tables.contains_key(t));
        }
        assert forall|phase: Phase| phase != Phase::Finished implies well_kept(
            #[trigger] plan_of(phase),
            merged.rows(table_of(phase)),
        ) by {
            assert(merged.rows(table_of(phase)) == world.rows(table_of(phase)));
        }
    }
    let end = first.world;
    let again = State { world: end, step: Some(first_step(user_id, chunk)) };
    let m = a_call_comes_to_its_end(store, end, user_id, chunk);
    if no_rows(chunk) {
        a_user_is_taken_once(world, end, s);
    } else {
        let a = a_call_comes_to_its_rows(store, world, user_id, chunk);
        spends_stay_plain_later(store, start, a);
        a_merge_ends_well(store, merged, past, Phase::Baskets);
        a_user_is_taken_once(world, end, s);
        let t = past_user(s, false);
        assert(alike(past, t));
        a_merge_repeats(store, merged, past, Phase::Baskets, t);
    }
    assert(run(store, again, m).world == end);
    assert(answers_again(first, run(store, again, m)));
}

/// Whether the second of two calls answers as the first one did, with no update.
pub open spec fn answers_again(first: State, second: State) -> bool {
    match (first.step, second.step) {
        (
            Some(ProgressView::Done { result: a }),
            Some(ProgressView::Done { result: b }),
        ) => {
            &&& b.inserts == a.inserts
            &&& b.updates == 0
            &&& b.done == a.done
            &&& b.max_updated_at == a.max_updated_at
            &&& b.error == a.error
        },
        _ => false,
    }
}

proof fn plain_output(s: ApplyView, o: TableOutput, entry: EntryView)
    requires
        s.output_entry(o) == Some(entry),
        o.spendable ==> o.spent_by is None && o.spent_by_reference is None,
    ensures
        !(entry.query.params[18] is Null) ==> entry.query.params[12] == SqlValue::Int(0),
{
}

proof fn spend_columns(entry: EntryView)
    ensures
        ({
            let row = incoming(plan_of(Phase::Outputs), entry);
            &&& at(row, Column::Spendable) == entry.query.params[12]
            &&& at(row, Column::SpentBy) == entry.query.params[18]
        }),
{
    let columns = plan_of(Phase::Outputs).insert.columns;
    assert(columns[12].0 == Column::Spendable);
    assert(columns[18].0 == Column::SpentBy);
    a_row_has_what_is_bound(Phase::Outputs, entry, 12);
    a_row_has_what_is_bound(Phase::Outputs, entry, 18);
}

/// Whether no output of a chunk calls itself spendable and names a transaction that spends
/// it.
pub open spec fn plain_chunk(chunk: SyncChunk) -> bool {
    forall|i: int|
        0 <= i < rows_of(chunk.outputs).len() && (#[trigger] rows_of(chunk.outputs)[i]).spendable
            ==> rows_of(chunk.outputs)[i].spent_by is None && rows_of(
            chunk.outputs,
        )[i].spent_by_reference is None
}

proof fn planned_outputs_are_plain(s: ApplyView, k: int)
    requires
        plain_chunk(s.chunk),
        0 <= k < s.planned(Phase::Outputs).len(),
    ensures
        plain_spend(incoming(output_merge(), s.planned(Phase::Outputs)[k])),
{
    let entry = s.planned(Phase::Outputs)[k];
    planned_entries(s, Phase::Outputs, k);
    let rows = rows_of(s.chunk.outputs);
    let i = choose|i: int| 0 <= i < rows.len() && Some(entry) == s.output_entry(#[trigger] rows[i]);
    plain_output(s, rows[i], entry);
    spend_columns(entry);
}

/// A chunk in which no output calls itself spendable and names a transaction that spends it
/// can be merged twice: it never brings in an output that both can be spent and is spent.
pub proof fn a_plain_chunk_stays_plain(
    store: Store,
    world: World,
    user_id: i64,
    chunk: SyncChunk,
)
    requires
        plain_chunk(chunk),
    ensures
        spends_stay_plain(store, State { world, step: Some(first_step(user_id, chunk)) }),
{
    let start = State { world, step: Some(first_step(user_id, chunk)) };
    start_for_user(world, fresh(user_id, chunk), false);
    assert forall|i: nat| spends_are_plain(#[trigger] run(store, start, i)) by {
        run_leaves_others(store, start, i, user_id, chunk);
        match run(store, start, i).step {
            Some(ProgressView::RunUpserts { apply, phase, entries }) => {
                if phase == Phase::Outputs {
                    assert forall|k: int| 0 <= k < entries.len() implies plain_spend(
                        incoming(output_merge(), #[trigger] entries[k]),
                    ) by {
                        planned_outputs_are_plain(apply, k);
                    }
                }
            },
            _ => {},
        }
    }
}

} // verus!
