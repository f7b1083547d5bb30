//! What holds of every merge of a chunk, whatever the store answers.

use crate::entities::TableOutput;
use crate::r2::THRESHOLD;
use crate::sql::query::withheld;
use crate::storage::apply::{
    counted, fill_writes, first_step, found, fresh, kept, no_rows, output_key, paired, recorded,
    rows_of, times, writes, ApplyView, BlobColumn, EmptyRowView, EntryView, Phase, ProgressView,
};
use crate::storage::lookup::{absorbed, KeyedId};
use crate::storage::upsert::output_query;
use crate::time::{latest, latest_of_is_the_maximum, Timestamp};
use crate::types::{ProcessSyncChunkResult, SyncChunk};
use vstd::prelude::*;

verus! {

/// The answer as far as a step has it.
pub open spec fn answer(step: ProgressView) -> ProcessSyncChunkResult {
    match step {
        ProgressView::MergeUser { apply } => apply.result,
        ProgressView::RunUpserts { apply, phase, entries } => apply.result,
        ProgressView::LoadProofs { apply, queries } => apply.result,
        ProgressView::LoadTxids { apply, queries } => apply.result,
        ProgressView::LoadBasketNames { apply, query } => apply.result,
        ProgressView::LoadSpends { apply, queries } => apply.result,
        ProgressView::FindEmpty { apply, column, queries } => apply.result,
        ProgressView::AskStore { apply, column, found } => apply.result,
        ProgressView::PutBlobs { apply, phase, writes } => apply.result,
        ProgressView::Done { result } => result,
    }
}

/// How many phases a step still has before it.
pub open spec fn phases_left(step: ProgressView) -> nat {
    match step {
        ProgressView::MergeUser { apply } => 13,
        ProgressView::RunUpserts { apply, phase, entries } => phase.left(),
        ProgressView::LoadProofs { apply, queries } => Phase::Transactions.left(),
        ProgressView::LoadTxids { apply, queries } => Phase::Outputs.left(),
        ProgressView::LoadBasketNames { apply, query } => Phase::Outputs.left(),
        ProgressView::LoadSpends { apply, queries } => Phase::Outputs.left(),
        ProgressView::FindEmpty { apply, column, queries } => column.phase().left(),
        ProgressView::AskStore { apply, column, found } => column.phase().left(),
        ProgressView::PutBlobs { apply, phase, writes } => phase.left(),
        ProgressView::Done { result } => 0,
    }
}

/// The latest change that an answer knows does not go back from `before` to `after`.
pub open spec fn does_not_go_back(before: Option<Timestamp>, after: Option<Timestamp>) -> bool {
    before matches Some(t) ==> after is Some && !t.after(after->0)
}

/// Whether one answer follows another without a batch in between: what it says of being
/// done, of updates and of an error stays, and the latest change does not go back.
pub open spec fn carries_on(before: ProcessSyncChunkResult, after: ProcessSyncChunkResult) -> bool {
    &&& after.done == before.done
    &&& after.updates == before.updates
    &&& after.error == before.error
    &&& does_not_go_back(before.max_updated_at, after.max_updated_at)
}

pub(crate) proof fn settling_keeps(s: ApplyView, phase: Phase, list: Seq<EntryView>, ids: Seq<i64>)
    ensures
        ({
            let after = s.settled(phase, list, ids);
            &&& after.chunk == s.chunk
            &&& after.user_id == s.user_id
            &&& after.result.done == s.result.done
            &&& after.result.updates == s.result.updates
            &&& after.result.error == s.result.error
            &&& does_not_go_back(s.result.max_updated_at, after.result.max_updated_at)
        }),
{
    let max = s.result.max_updated_at;
    match phase {
        Phase::ProvenTxs => {
            let rows = rows_of(s.chunk.proven_txs);
            latest_of_is_the_maximum(max, Seq::new(rows.len(), |i: int| rows[i].updated_at));
        },
        Phase::CertificateFields => {
            let rows = rows_of(s.chunk.certificate_fields);
            latest_of_is_the_maximum(max, Seq::new(rows.len(), |i: int| rows[i].updated_at));
        },
        Phase::TxLabelMaps | Phase::OutputTagMaps | Phase::Commissions => {},
        _ => {
            latest_of_is_the_maximum(max, times(list, paired(list, ids)));
        },
    }
}

#[verifier::rlimit(40)]
proof fn entering_keeps(s: ApplyView, phase: Phase)
    ensures
        answer(s.enter(phase)).done == s.result.done,
        answer(s.enter(phase)).updates == s.result.updates,
        answer(s.enter(phase)).error == s.result.error,
        does_not_go_back(s.result.max_updated_at, answer(s.enter(phase)).max_updated_at),
        phases_left(s.enter(phase)) <= phase.left(),
        answer(s.run(phase)).done == s.result.done,
        answer(s.run(phase)).updates == s.result.updates,
        answer(s.run(phase)).error == s.result.error,
        does_not_go_back(s.result.max_updated_at, answer(s.run(phase)).max_updated_at),
        phases_left(s.run(phase)) <= phase.left(),
        forall|column: BlobColumn|
            column.phase() == phase ==> carries_on(
                s.result,
                answer(#[trigger] s.probe(column)),
            ) && phases_left(s.probe(column)) <= phase.left(),
    decreases phase.left(),
{
    if phase != Phase::Finished {
        let after = s.settled(phase, s.planned(phase), Seq::empty());
        settling_keeps(s, phase, s.planned(phase), Seq::empty());
        entering_keeps(after, phase.following());
        assert forall|column: BlobColumn| column.phase() == phase implies carries_on(
            s.result,
            answer(#[trigger] s.probe(column)),
        ) && phases_left(s.probe(column)) <= phase.left() by {
            reveal_with_fuel(ApplyView::probe, 2);
        }
        assert(s.probe(BlobColumn::RequestBeef) == s.probe(BlobColumn::RequestBeef));
        assert(s.probe(BlobColumn::RawTx) == s.probe(BlobColumn::RawTx));
    }
}

/// The answer says that all is done exactly for a chunk without rows besides the user
/// record: such a chunk is answered at once, and any other goes through its phases with an
/// answer that is not done.
pub proof fn done_means_no_rows(user_id: i64, chunk: SyncChunk, updated: bool)
    ensures
        chunk.user is None ==> answer(first_step(user_id, chunk)).done == no_rows(chunk),
        chunk.user is Some ==> first_step(user_id, chunk) == (ProgressView::MergeUser {
            apply: fresh(user_id, chunk),
        }),
        answer(fresh(user_id, chunk).after_user(updated)).done == no_rows(chunk),
        no_rows(chunk) ==> fresh(user_id, chunk).after_user(updated) is Done,
{
    let s = fresh(user_id, chunk);
    entering_keeps(s, Phase::Baskets);
    let after = ApplyView {
        result: ProcessSyncChunkResult {
            updates: if updated {
                counted(s.result.updates, 1)
            } else {
                s.result.updates
            },
            max_updated_at: match s.chunk.user {
                Some(user) => Some(latest(s.result.max_updated_at, user.updated_at)),
                None => s.result.max_updated_at,
            },
            ..s.result
        },
        ..s
    };
    entering_keeps(after, Phase::Baskets);
}

/// Whatever the store answers to a batch, the answer keeps whether it is done, how many
/// updates it counts and its error; the latest change does not go back; and the next step
/// belongs to a later phase, except for the blobs of the same one. So each phase runs its
/// batch at most once.
pub proof fn a_batch_goes_forward(s: ApplyView, phase: Phase, list: Seq<EntryView>, ids: Seq<i64>)
    requires
        phase != Phase::Finished,
    ensures
        ({
            let step = s.after_batch(phase, list, ids);
            &&& answer(step).done == s.result.done
            &&& answer(step).updates == s.result.updates
            &&& answer(step).error == s.result.error
            &&& does_not_go_back(s.result.max_updated_at, answer(step).max_updated_at)
            &&& phases_left(step) < phase.left() || step is PutBlobs
        }),
        phases_left(s.enter(phase.following())) < phase.left(),
{
    settling_keeps(s, phase, list, ids);
    entering_keeps(s.settled(phase, list, ids), phase.following());
    entering_keeps(s, phase.following());
    let m = s.result.max_updated_at;
    let a = s.settled(phase, list, ids).result.max_updated_at;
    let b = answer(s.after_batch(phase, list, ids)).max_updated_at;
    assert(does_not_go_back(m, a) && does_not_go_back(a, b));
}

/// Whatever a lookup finds, the answer carries on.
pub proof fn a_lookup_carries_the_answer_on(s: ApplyView, rows: Seq<KeyedId>)
    ensures
        answer(s.after_txids(rows)) == s.result,
        carries_on(s.result, answer(s.after_basket_names(rows))),
        carries_on(
            s.result,
            answer((ApplyView { proofs: rows, ..s }).probe(BlobColumn::RawTx)),
        ),
        carries_on(
            s.result,
            answer((ApplyView { spends: rows, ..s }).probe(BlobColumn::LockingScript)),
        ),
        forall|column: BlobColumn|
            carries_on(s.result, answer(#[trigger] s.after_empty(column, rows))),
        forall|column: BlobColumn, found: Seq<EmptyRowView>, exists: Seq<bool>|
            carries_on(
                s.result,
                answer(#[trigger] s.holding(column, found, exists).past(column)),
            ),
{
    entering_keeps(ApplyView { basket_names: rows, ..s }, Phase::Outputs);
    entering_keeps(ApplyView { proofs: rows, ..s }, Phase::Transactions);
    entering_keeps(ApplyView { spends: rows, ..s }, Phase::Outputs);
    assert forall|column: BlobColumn|
        carries_on(s.result, answer(#[trigger] s.after_empty(column, rows))) by {
        entering_keeps(s, column.phase());
    }
    assert forall|column: BlobColumn, found: Seq<EmptyRowView>, exists: Seq<bool>|
        carries_on(
            s.result,
            answer(#[trigger] s.holding(column, found, exists).past(column)),
        ) by {
        entering_keeps(s.holding(column, found, exists), column.phase());
    }
}

/// The answer knows a change at least as late as that of every row of a batch that got an
/// id.
pub proof fn the_latest_change_covers_a_batch(
    s: ApplyView,
    phase: Phase,
    list: Seq<EntryView>,
    ids: Seq<i64>,
    i: int,
)
    requires
        0 <= i < paired(list, ids),
        phase != Phase::ProvenTxs && phase != Phase::CertificateFields && phase
            != Phase::TxLabelMaps && phase != Phase::OutputTagMaps && phase != Phase::Commissions,
    ensures
        s.settled(phase, list, ids).result.max_updated_at matches Some(t)
            && !list[i].updated_at.after(t),
{
    let seen = times(list, paired(list, ids));
    latest_of_is_the_maximum(s.result.max_updated_at, seen);
    assert(seen[i] == list[i].updated_at);
}

/// The answer knows a change at least as late as that of every proven transaction and of
/// every certificate field of the chunk, whether or not they got an id.
pub proof fn the_latest_change_covers_proofs_and_fields(
    s: ApplyView,
    list: Seq<EntryView>,
    ids: Seq<i64>,
    i: int,
)
    ensures
        0 <= i < rows_of(s.chunk.proven_txs).len() ==> (s.settled(
            Phase::ProvenTxs,
            list,
            ids,
        ).result.max_updated_at matches Some(t) && !rows_of(
            s.chunk.proven_txs,
        )[i].updated_at.after(t)),
        0 <= i < rows_of(s.chunk.certificate_fields).len() ==> (s.settled(
            Phase::CertificateFields,
            list,
            ids,
        ).result.max_updated_at matches Some(t) && !rows_of(
            s.chunk.certificate_fields,
        )[i].updated_at.after(t)),
{
    let proofs = rows_of(s.chunk.proven_txs);
    let seen = Seq::new(proofs.len(), |k: int| proofs[k].updated_at);
    latest_of_is_the_maximum(s.result.max_updated_at, seen);
    if 0 <= i < proofs.len() {
        assert(seen[i] == proofs[i].updated_at);
    }
    let fields = rows_of(s.chunk.certificate_fields);
    let noted = Seq::new(fields.len(), |k: int| fields[k].updated_at);
    latest_of_is_the_maximum(s.result.max_updated_at, noted);
    if 0 <= i < fields.len() {
        assert(noted[i] == fields[i].updated_at);
    }
}

// ---------------------------------------------------------------------------
// Parents and children
// ---------------------------------------------------------------------------

/// Every row of a batch that got an id is found by the id that the chunk gives it: a row
/// without a later namesake under its own local id.
pub proof fn no_parent_is_missed(map: Map<i64, i64>, list: Seq<EntryView>, ids: Seq<i64>, n: int, i: int)
    requires
        0 <= i < n <= list.len(),
        n <= ids.len(),
    ensures
        found(recorded(map, list, ids, n), list[i].foreign) is Some,
        (forall|k: int| i < k < n ==> (#[trigger] list[k]).foreign != list[i].foreign) ==> found(
            recorded(map, list, ids, n),
            list[i].foreign,
        ) == Some(ids[i]),
    decreases n,
{
    if i < n - 1 {
        no_parent_is_missed(map, list, ids, n - 1, i);
        assert(list[n - 1].foreign == list[n - 1].foreign);
    }
}

proof fn kept_entries(list: Seq<Option<EntryView>>, entry: EntryView)
    ensures
        kept(list).contains(entry) <==> list.contains(Some(entry)),
    decreases list.len(),
{
    if list.len() > 0 {
        let rest = list.drop_last();
        kept_entries(rest, entry);
        if list.contains(Some(entry)) && list.last() != Some(entry) {
            let i = choose|i: int| 0 <= i < list.len() && list[i] == Some(entry);
            assert(rest[i] == Some(entry));
        }
        if rest.contains(Some(entry)) {
            let i = choose|i: int| 0 <= i < rest.len() && rest[i] == Some(entry);
            assert(list[i] == Some(entry));
        }
        if kept(rest).contains(entry) {
            let i = choose|i: int| 0 <= i < kept(rest).len() && kept(rest)[i] == entry;
            assert(kept(list)[i] == entry);
        }
        match list.last() {
            Some(last) => {
                assert(kept(list)[kept(list).len() - 1] == last);
                assert(list[list.len() - 1] == Some(last));
                if kept(list).contains(entry) && last != entry {
                    let i = choose|i: int| 0 <= i < kept(list).len() && kept(list)[i] == entry;
                    assert(kept(rest)[i] == entry);
                }
            },
            None => {},
        }
    }
}

/// An output goes in exactly where its local transaction is known, under that
/// transaction: an orphan is left out, and the id that the chunk gives a transaction is
/// never taken for a local one.
pub proof fn an_output_goes_under_its_local_transaction(s: ApplyView, entry: EntryView)
    ensures
        s.planned(Phase::Outputs).contains(entry) <==> exists|i: int|
            0 <= i < rows_of(s.chunk.outputs).len() && s.output_entry(
                #[trigger] rows_of(s.chunk.outputs)[i],
            ) == Some(entry),
        forall|o: TableOutput|
            #![trigger s.output_entry(o)]
            s.output_entry(o) is Some <==> s.transaction_of(o) is Some,
        forall|o: TableOutput|
            #![trigger s.output_entry(o)]
            s.output_entry(o) == Some(entry) ==> entry.query == withheld(
                output_query(
                    s.user_id,
                    o,
                    s.transaction_of(o)->0,
                    s.basket_of(o),
                    s.spender_of(o),
                ),
                6,
                s.is_held(
                    BlobColumn::LockingScript,
                    output_key(s.transaction_of(o)->0, o.vout),
                ),
            ),
{
    let rows = rows_of(s.chunk.outputs);
    let list = Seq::new(rows.len(), |i: int| s.output_entry(rows[i]));
    kept_entries(list, entry);
    if list.contains(Some(entry)) {
        let i = choose|i: int| 0 <= i < list.len() && list[i] == Some(entry);
        assert(s.output_entry(rows[i]) == Some(entry));
    }
    if exists|i: int| 0 <= i < rows.len() && s.output_entry(#[trigger] rows[i]) == Some(entry) {
        let i = choose|i: int|
            0 <= i < rows.len() && s.output_entry(#[trigger] rows[i]) == Some(entry);
        assert(list[i] == Some(entry));
    }
}

/// An output keeps its basket and its spender across chunks: where the ids of this chunk do
/// not tell them, their stable names do.
pub proof fn names_bridge_chunks(s: ApplyView, o: TableOutput)
    ensures
        o.basket_id matches Some(id) && found(s.ids.baskets, id) is Some ==> s.basket_of(o)
            == found(s.ids.baskets, o.basket_id->0),
        !(o.basket_id matches Some(id) && found(s.ids.baskets, id) is Some) && o.basket_name is Some
            ==> s.basket_of(o) == found(
            absorbed(Map::empty(), s.basket_names),
            o.basket_name->0@,
        ),
        o.spent_by matches Some(id) && found(s.ids.transactions, id) is Some ==> s.spender_of(o)
            == found(s.ids.transactions, o.spent_by->0),
        !(o.spent_by matches Some(id) && found(s.ids.transactions, id) is Some)
            && o.spent_by_reference is Some ==> s.spender_of(o) == found(
            absorbed(Map::empty(), s.spends),
            o.spent_by_reference->0@,
        ),
        o.spent_by is None && o.spent_by_reference is None ==> s.spender_of(o) is None,
{
}

// ---------------------------------------------------------------------------
// Blobs
// ---------------------------------------------------------------------------

/// Whether all blobs of an entry are too long for their columns.
pub open spec fn only_overflow(entry: EntryView) -> bool {
    forall|i: int| 0 <= i < entry.fills.len() ==> (#[trigger] entry.fills[i]).bytes.len() > THRESHOLD
}

/// Which row of the chunk an entry of a phase stands for.
pub open spec fn entry_of_some_row(s: ApplyView, phase: Phase, entry: EntryView) -> bool {
    match phase {
        Phase::Baskets => exists|i: int|
            0 <= i < rows_of(s.chunk.output_baskets).len() && entry == s.basket_entry(
                #[trigger] rows_of(s.chunk.output_baskets)[i],
            ),
        Phase::ProvenTxReqs => exists|i: int|
            0 <= i < rows_of(s.chunk.proven_tx_reqs).len() && entry == s.proven_tx_req_entry(
                #[trigger] rows_of(s.chunk.proven_tx_reqs)[i],
            ),
        Phase::ProvenTxs => exists|i: int|
            0 <= i < rows_of(s.chunk.proven_txs).len() && entry == s.proven_tx_entry(
                #[trigger] rows_of(s.chunk.proven_txs)[i],
            ),
        Phase::TxLabels => exists|i: int|
            0 <= i < rows_of(s.chunk.tx_labels).len() && entry == s.tx_label_entry(
                #[trigger] rows_of(s.chunk.tx_labels)[i],
            ),
        Phase::OutputTags => exists|i: int|
            0 <= i < rows_of(s.chunk.output_tags).len() && entry == s.output_tag_entry(
                #[trigger] rows_of(s.chunk.output_tags)[i],
            ),
        Phase::Certificates => exists|i: int|
            0 <= i < rows_of(s.chunk.certificates).len() && entry == s.certificate_entry(
                #[trigger] rows_of(s.chunk.certificates)[i],
            ),
        Phase::Transactions => exists|i: int|
            0 <= i < rows_of(s.chunk.transactions).len() && entry == s.transaction_entry(
                #[trigger] rows_of(s.chunk.transactions)[i],
            ),
        Phase::Outputs => exists|i: int|
            0 <= i < rows_of(s.chunk.outputs).len() && Some(entry) == s.output_entry(
                #[trigger] rows_of(s.chunk.outputs)[i],
            ),
        Phase::CertificateFields => exists|i: int|
            0 <= i < rows_of(s.chunk.certificate_fields).len() && Some(entry)
                == s.certificate_field_entry(#[trigger] rows_of(s.chunk.certificate_fields)[i]),
        Phase::TxLabelMaps => exists|i: int|
            0 <= i < rows_of(s.chunk.tx_label_maps).len() && Some(entry) == s.tx_label_map_entry(
                #[trigger] rows_of(s.chunk.tx_label_maps)[i],
            ),
        Phase::OutputTagMaps => exists|i: int|
            0 <= i < rows_of(s.chunk.output_tag_maps).len() && Some(entry)
                == s.output_tag_map_entry(#[trigger] rows_of(s.chunk.output_tag_maps)[i]),
        Phase::Commissions => exists|i: int|
            0 <= i < rows_of(s.chunk.commissions).len() && Some(entry) == s.commission_entry(
                #[trigger] rows_of(s.chunk.commissions)[i],
            ),
        Phase::Finished => false,
    }
}

/// Every entry of a batch stands for a row of the chunk.
pub proof fn planned_entries(s: ApplyView, phase: Phase, k: int)
    requires
        0 <= k < s.planned(phase).len(),
    ensures
        entry_of_some_row(s, phase, s.planned(phase)[k]),
{
    let entry = s.planned(phase)[k];
    match phase {
        Phase::Outputs => {
            let rows = rows_of(s.chunk.outputs);
            let list = Seq::new(rows.len(), |i: int| s.output_entry(rows[i]));
            assert(kept(list).contains(entry));
            kept_entries(list, entry);
            let i = choose|i: int| 0 <= i < list.len() && list[i] == Some(entry);
            assert(s.output_entry(rows[i]) == Some(entry));
        },
        Phase::CertificateFields => {
            let rows = rows_of(s.chunk.certificate_fields);
            let list = Seq::new(rows.len(), |i: int| s.certificate_field_entry(rows[i]));
            assert(kept(list).contains(entry));
            kept_entries(list, entry);
            let i = choose|i: int| 0 <= i < list.len() && list[i] == Some(entry);
            assert(s.certificate_field_entry(rows[i]) == Some(entry));
        },
        Phase::TxLabelMaps => {
            let rows = rows_of(s.chunk.tx_label_maps);
            let list = Seq::new(rows.len(), |i: int| s.tx_label_map_entry(rows[i]));
            assert(kept(list).contains(entry));
            kept_entries(list, entry);
            let i = choose|i: int| 0 <= i < list.len() && list[i] == Some(entry);
            assert(s.tx_label_map_entry(rows[i]) == Some(entry));
        },
        Phase::OutputTagMaps => {
            let rows = rows_of(s.chunk.output_tag_maps);
            let list = Seq::new(rows.len(), |i: int| s.output_tag_map_entry(rows[i]));
            assert(kept(list).contains(entry));
            kept_entries(list, entry);
            let i = choose|i: int| 0 <= i < list.len() && list[i] == Some(entry);
            assert(s.output_tag_map_entry(rows[i]) == Some(entry));
        },
        Phase::Commissions => {
            let rows = rows_of(s.chunk.commissions);
            let list = Seq::new(rows.len(), |i: int| s.commission_entry(rows[i]));
            assert(kept(list).contains(entry));
            kept_entries(list, entry);
            let i = choose|i: int| 0 <= i < list.len() && list[i] == Some(entry);
            assert(s.commission_entry(rows[i]) == Some(entry));
        },
        Phase::Baskets => {
            assert(s.basket_entry(rows_of(s.chunk.output_baskets)[k]) == entry);
        },
        Phase::ProvenTxReqs => {
            assert(s.proven_tx_req_entry(rows_of(s.chunk.proven_tx_reqs)[k]) == entry);
        },
        Phase::ProvenTxs => {
            assert(s.proven_tx_entry(rows_of(s.chunk.proven_txs)[k]) == entry);
        },
        Phase::TxLabels => {
            assert(s.tx_label_entry(rows_of(s.chunk.tx_labels)[k]) == entry);
        },
        Phase::OutputTags => {
            assert(s.output_tag_entry(rows_of(s.chunk.output_tags)[k]) == entry);
        },
        Phase::Certificates => {
            assert(s.certificate_entry(rows_of(s.chunk.certificates)[k]) == entry);
        },
        Phase::Transactions => {
            assert(s.transaction_entry(rows_of(s.chunk.transactions)[k]) == entry);
        },
        Phase::Finished => {},
    }
}

pub(crate) proof fn planned_fills_overflow(s: ApplyView, phase: Phase, k: int)
    requires
        0 <= k < s.planned(phase).len(),
    ensures
        only_overflow(s.planned(phase)[k]),
{
    let entry = s.planned(phase)[k];
    match phase {
        Phase::Outputs => {
            let rows = rows_of(s.chunk.outputs);
            let list = Seq::new(rows.len(), |i: int| s.output_entry(rows[i]));
            assert(kept(list).contains(entry));
            kept_entries(list, entry);
        },
        Phase::CertificateFields => {
            let rows = rows_of(s.chunk.certificate_fields);
            let list = Seq::new(rows.len(), |i: int| s.certificate_field_entry(rows[i]));
            assert(kept(list).contains(entry));
            kept_entries(list, entry);
        },
        Phase::TxLabelMaps => {
            let rows = rows_of(s.chunk.tx_label_maps);
            let list = Seq::new(rows.len(), |i: int| s.tx_label_map_entry(rows[i]));
            assert(kept(list).contains(entry));
            kept_entries(list, entry);
        },
        Phase::OutputTagMaps => {
            let rows = rows_of(s.chunk.output_tag_maps);
            let list = Seq::new(rows.len(), |i: int| s.output_tag_map_entry(rows[i]));
            assert(kept(list).contains(entry));
            kept_entries(list, entry);
        },
        Phase::Commissions => {
            let rows = rows_of(s.chunk.commissions);
            let list = Seq::new(rows.len(), |i: int| s.commission_entry(rows[i]));
            assert(kept(list).contains(entry));
            kept_entries(list, entry);
        },
        _ => {},
    }
}

pub(crate) proof fn writes_overflow(list: Seq<EntryView>, ids: Seq<i64>, n: int, w: int)
    requires
        n <= list.len(),
        forall|k: int| 0 <= k < list.len() ==> only_overflow(#[trigger] list[k]),
        0 <= w < writes(list, ids, n).len(),
    ensures
        writes(list, ids, n)[w].bytes.len() > THRESHOLD,
        !writes(list, ids, n)[w].also_updated,
    decreases n,
{
    let before = writes(list, ids, n - 1);
    let more = fill_writes(list[n - 1], ids[n - 1]);
    assert(only_overflow(list[n - 1]));
    if w < before.len() {
        writes_overflow(list, ids, n - 1, w);
    } else {
        assert(more[w - before.len()].bytes == list[n - 1].fills[w - before.len()].bytes);
    }
}

/// After a batch only blobs that are too long for their columns go to the object store.
pub proof fn only_long_blobs_leave_the_batch(s: ApplyView, phase: Phase, ids: Seq<i64>, w: int)
    requires
        0 <= w < writes(s.planned(phase), ids, paired(s.planned(phase), ids)).len(),
    ensures
        writes(s.planned(phase), ids, paired(s.planned(phase), ids))[w].bytes.len() > THRESHOLD,
{
    let list = s.planned(phase);
    assert forall|k: int| 0 <= k < list.len() implies only_overflow(#[trigger] list[k]) by {
        planned_fills_overflow(s, phase, k);
    }
    writes_overflow(list, ids, paired(list, ids), w);
}

/// Parents are merged before their children.
pub proof fn parents_come_first()
    ensures
        Phase::ProvenTxs.left() > Phase::Transactions.left(),
        Phase::Baskets.left() > Phase::Outputs.left(),
        Phase::Transactions.left() > Phase::Outputs.left(),
        Phase::Transactions.left() > Phase::TxLabelMaps.left(),
        Phase::TxLabels.left() > Phase::TxLabelMaps.left(),
        Phase::Outputs.left() > Phase::OutputTagMaps.left(),
        Phase::OutputTags.left() > Phase::OutputTagMaps.left(),
        Phase::Certificates.left() > Phase::CertificateFields.left(),
        Phase::Transactions.left() > Phase::Commissions.left(),
{
}

} // verus!
