//! Which step of a merge follows which, said of the rows that the chunk carries.

use crate::sql::query::SqlValue;
use crate::storage::apply::{
    first_step, fresh, mismatch_text, no_rows, proof_txids, rows_of, spend_references, writes,
    ApplyView, BlobColumn, EmptyRowView, EntryView, Phase, ProgressView,
};
use crate::entities::{TableOutput, TableTransaction};
use crate::storage::batch_laws::{
    asks_for, every_name_is_collected, every_name_is_looked_up, every_row_found_is_looked_at,
    with_ids,
};
use crate::storage::lookup::KeyedId;
use crate::storage::read_laws::{carried, filling_order};

use crate::text::{sorted_set, sorted_set_is_one};
use crate::types::SyncChunk;
use vstd::prelude::*;

verus! {

// ---------------------------------------------------------------------------
// Phases
// ---------------------------------------------------------------------------

/// The phases in their order.
pub open spec fn phase_order() -> Seq<Phase> {
    seq![
        Phase::Baskets,
        Phase::ProvenTxReqs,
        Phase::ProvenTxs,
        Phase::TxLabels,
        Phase::OutputTags,
        Phase::Certificates,
        Phase::Transactions,
        Phase::Outputs,
        Phase::CertificateFields,
        Phase::TxLabelMaps,
        Phase::OutputTagMaps,
        Phase::Commissions,
        Phase::Finished,
    ]
}

/// Each phase is followed by the next one of the order.
pub proof fn phases_come_in_order(k: int)
    requires
        0 <= k < 12,
    ensures
        phase_order()[k].following() == phase_order()[k + 1],
{
    if k < 6 {
        assert(k == 0 || k == 1 || k == 2 || k == 3 || k == 4 || k == 5);
    } else {
        assert(k == 6 || k == 7 || k == 8 || k == 9 || k == 10 || k == 11);
    }
}

/// A chunk has no rows exactly where each of its entities is missing or empty.
pub proof fn no_rows_means_each_entity_is_empty(chunk: SyncChunk)
    ensures
        no_rows(chunk) <==> forall|k: int|
            0 <= k < 12 ==> (carried(chunk, (#[trigger] filling_order()[k]).0) matches Some(page)
                ==> page.count() == 0),
{
    let order = filling_order();
    if no_rows(chunk) {
        assert forall|k: int| 0 <= k < 12 implies (carried(
            chunk,
            (#[trigger] filling_order()[k]).0,
        ) matches Some(page) ==> page.count() == 0) by {}
    }
    if forall|k: int|
        0 <= k < 12 ==> (carried(chunk, (#[trigger] filling_order()[k]).0) matches Some(page)
            ==> page.count() == 0) {
        assert(order[0].0 == order[0].0 && order[1].0 == order[1].0 && order[2].0 == order[2].0
            && order[3].0 == order[3].0 && order[4].0 == order[4].0 && order[5].0 == order[5].0);
        assert(order[6].0 == order[6].0 && order[7].0 == order[7].0 && order[8].0 == order[8].0
            && order[9].0 == order[9].0 && order[10].0 == order[10].0 && order[11].0
            == order[11].0);
        assert(no_rows(chunk));
    }
}

// ---------------------------------------------------------------------------
// The start
// ---------------------------------------------------------------------------

/// A merge starts with nothing: no count, no instant, no error, no local id, no answer of a
/// lookup, for the user and with the chunk that it was asked for.
pub proof fn a_merge_starts_with_nothing(user_id: i64, chunk: SyncChunk, id: i64)
    ensures
        ({
            let s = fresh(user_id, chunk);
            &&& s.user_id == user_id
            &&& s.chunk == chunk
            &&& s.result.inserts == 0
            &&& s.result.updates == 0
            &&& s.result.max_updated_at is None
            &&& s.result.error is None
            &&& !s.result.done
            &&& !s.ids.baskets.contains_key(id)
            &&& !s.ids.labels.contains_key(id)
            &&& !s.ids.tags.contains_key(id)
            &&& !s.ids.transactions.contains_key(id)
            &&& !s.ids.outputs.contains_key(id)
            &&& !s.ids.certificates.contains_key(id)
            &&& s.proofs.len() == 0
            &&& s.txids.len() == 0
            &&& s.basket_names.len() == 0
            &&& s.spends.len() == 0
            &&& s.held.len() == 0
        }),
{
}

/// A user record is merged first where the chunk has one, whatever rows come with it. After
/// it, or at once where there is none, a chunk without rows is done and any other goes on
/// with its baskets. The user record counts as an update exactly where it was written, and
/// its instant counts either way.
pub proof fn the_user_comes_first(user_id: i64, chunk: SyncChunk, updated: bool)
    ensures
        chunk.user is Some ==> first_step(user_id, chunk) == (ProgressView::MergeUser {
            apply: fresh(user_id, chunk),
        }),
        chunk.user is None && no_rows(chunk) ==> (first_step(user_id, chunk) matches
            ProgressView::Done { result } && result.done && result.inserts == 0 && result.updates
            == 0 && result.max_updated_at is None && result.error is None),
        chunk.user is None && !no_rows(chunk) ==> first_step(user_id, chunk) == fresh(
            user_id,
            chunk,
        ).enter(Phase::Baskets),
        chunk.user is Some ==> exists|s: ApplyView|
            #![trigger s.enter(Phase::Baskets)]
            {
                &&& s.result.updates == if updated {
                    1int
                } else {
                    0int
                }
                &&& s.result.max_updated_at == Some(chunk.user->0.updated_at)
                &&& s.result.inserts == 0
                &&& s.result.error is None
                &&& !s.result.done
                &&& s.ids == fresh(user_id, chunk).ids
                &&& s.user_id == user_id
                &&& s.chunk == chunk
                &&& !no_rows(chunk) ==> fresh(user_id, chunk).after_user(updated) == s.enter(
                    Phase::Baskets,
                )
                &&& no_rows(chunk) ==> (fresh(user_id, chunk).after_user(updated) matches
                    ProgressView::Done { result } && result.done && result.updates
                    == s.result.updates && result.inserts == 0 && result.error is None
                    && result.max_updated_at == s.result.max_updated_at)
            },
{
    if chunk.user is Some {
        let f = fresh(user_id, chunk);
        let s = ApplyView {
            result: crate::types::ProcessSyncChunkResult {
                updates: if updated {
                    1
                } else {
                    0
                },
                max_updated_at: Some(chunk.user->0.updated_at),
                ..f.result
            },
            ..f
        };
        assert(f.after_user(updated) == s.rest());
        assert(s.enter(Phase::Baskets) == s.enter(Phase::Baskets));
    }
}

// ---------------------------------------------------------------------------
// Batches
// ---------------------------------------------------------------------------

/// A phase with rows to merge runs them all in one batch. A phase without any goes over to
/// the next with nothing counted and nothing recorded.
pub proof fn a_phase_runs_its_rows(s: ApplyView, phase: Phase)
    requires
        phase != Phase::Finished,
    ensures
        s.planned(phase).len() > 0 ==> s.run(phase) == (ProgressView::RunUpserts {
            apply: s,
            phase,
            entries: s.planned(phase),
        }),
        s.planned(phase).len() == 0 ==> s.run(phase) == s.settled(
            phase,
            Seq::empty(),
            Seq::empty(),
        ).enter(phase.following()),
{
    if s.planned(phase).len() == 0 {
        assert(s.planned(phase) =~= Seq::empty());
    }
}

/// The phases that look nothing up start with their batch.
pub proof fn plain_phases_start_with_their_batch(s: ApplyView, phase: Phase)
    requires
        phase == Phase::Baskets || phase == Phase::ProvenTxs || phase == Phase::TxLabels || phase
            == Phase::OutputTags || phase == Phase::Certificates || phase
            == Phase::CertificateFields || phase == Phase::TxLabelMaps || phase
            == Phase::OutputTagMaps || phase == Phase::Commissions,
    ensures
        s.enter(phase) == s.run(phase),
        s.enter(Phase::Finished) == (ProgressView::Done { result: s.result }),
{
}

/// Before transactions the proofs that any of them names are looked up.
pub proof fn proofs_are_looked_up_first(s: ApplyView, i: int)
    requires
        0 <= i < rows_of(s.chunk.transactions).len(),
        rows_of(s.chunk.transactions)[i].proof_txid is Some,
    ensures
        s.enter(Phase::Transactions) matches ProgressView::LoadProofs { apply, queries } && apply
            == s && asks_for(
            queries,
            None,
            rows_of(s.chunk.transactions)[i].proof_txid->0@,
        ),
{
    every_name_is_looked_up(s, i);
}

/// Before outputs their txids are looked up among the transactions of the user, whether or
/// not the chunk carries transactions; then the names of the user's baskets; then the
/// references of the spenders.
pub proof fn names_are_looked_up_before_outputs(
    s: ApplyView,
    i: int,
    txids: Seq<KeyedId>,
    names: Seq<KeyedId>,
)
    requires
        0 <= i < rows_of(s.chunk.outputs).len(),
    ensures
        s.enter(Phase::Outputs) matches ProgressView::LoadTxids { apply, queries } && apply == s
            && asks_for(queries, Some(s.user_id), rows_of(s.chunk.outputs)[i].txid@),
        s.after_txids(txids) matches ProgressView::LoadBasketNames { apply, query } && apply
            == (ApplyView { txids, ..s }) && query.params == seq![SqlValue::Int(s.user_id as int)],
        rows_of(s.chunk.outputs)[i].spent_by_reference is Some ==> (s.after_basket_names(
            names,
        ) matches ProgressView::LoadSpends { apply, queries } && apply == (ApplyView {
            basket_names: names,
            ..s
        }) && asks_for(
            queries,
            Some(s.user_id),
            rows_of(s.chunk.outputs)[i].spent_by_reference->0@,
        )),
{
    every_name_is_looked_up(s, i);
    every_name_is_looked_up(ApplyView { basket_names: names, ..s }, i);
}

/// Where no transaction names a proof, none is looked up; where no output names its spender by
/// reference, none is; and where a chunk has a list of outputs without any, only the names of
/// the baskets are. The columns are asked about all the same.
pub proof fn nothing_is_looked_up_in_vain(s: ApplyView, names: Seq<KeyedId>)
    ensures
        (forall|i: int|
            0 <= i < rows_of(s.chunk.transactions).len() ==> (#[trigger] rows_of(
                s.chunk.transactions,
            )[i]).proof_txid is None) ==> s.enter(Phase::Transactions) == s.probe(
            BlobColumn::RawTx,
        ),
        (forall|i: int|
            0 <= i < rows_of(s.chunk.outputs).len() ==> (#[trigger] rows_of(
                s.chunk.outputs,
            )[i]).spent_by_reference is None) ==> s.after_basket_names(names) == (ApplyView {
            basket_names: names,
            ..s
        }).probe(BlobColumn::LockingScript),
        s.chunk.outputs is Some && rows_of(s.chunk.outputs).len() == 0 ==> (s.enter(
            Phase::Outputs,
        ) matches ProgressView::LoadBasketNames { apply, query } && apply == s && query.params
            == seq![SqlValue::Int(s.user_id as int)]),
{
    let txs = rows_of(s.chunk.transactions);
    let outputs = rows_of(s.chunk.outputs);
    every_name_is_collected(txs, outputs);
    if forall|i: int| 0 <= i < txs.len() ==> (#[trigger] txs[i]).proof_txid is None {
        no_name_no_key(txs, |tx: TableTransaction| tx.proof_txid is Some);
        no_key_no_statement(proof_txids(txs));
    }
    if forall|i: int| 0 <= i < outputs.len() ==> (#[trigger] outputs[i]).spent_by_reference
        is None {
        no_name_no_key(outputs, |o: TableOutput| o.spent_by_reference is Some);
        no_key_no_statement(spend_references(outputs));
    }
    if outputs.len() == 0 {
        no_key_no_statement(Seq::new(outputs.len(), |i: int| outputs[i].txid@));
    }
}

proof fn no_name_no_key<T>(rows: Seq<T>, named: spec_fn(T) -> bool)
    requires
        forall|i: int| 0 <= i < rows.len() ==> !named(#[trigger] rows[i]),
    ensures
        rows.filter(named).len() == 0,
{
    if rows.filter(named).len() > 0 {
        rows.lemma_filter_pred(named, 0);
        let r = rows.filter(named)[0];
        assert(rows.filter(named).contains(r));
        rows.lemma_filter_contains_rev(named, r);
        let i = choose|i: int| 0 <= i < rows.len() && rows[i] == r;
        assert(!named(rows[i]));
    }
}

proof fn no_key_no_statement(all: Seq<Seq<char>>)
    requires
        all.len() == 0,
    ensures
        sorted_set(all).len() == 0,
{
    sorted_set_is_one(all);
    let keys = sorted_set(all);
    if keys.len() > 0 {
        assert(keys.contains(keys[0]));
        assert(all.contains(keys[0]));
    }
}

/// After a batch the long blobs are written where there are any; then, or at once where there
/// are none, the next phase starts with what the batch left behind.
pub proof fn a_batch_is_followed(
    s: ApplyView,
    phase: Phase,
    list: Seq<EntryView>,
    ids: Seq<i64>,
)
    ensures
        ({
            let blobs = writes(list, ids, with_ids(list, ids));
            &&& blobs.len() > 0 ==> s.after_batch(phase, list, ids) == (ProgressView::PutBlobs {
                apply: s.settled(phase, list, ids),
                phase,
                writes: blobs,
            })
            &&& blobs.len() == 0 ==> s.after_batch(phase, list, ids) == s.settled(
                phase,
                list,
                ids,
            ).enter(phase.following())
        }),
{
}

// ---------------------------------------------------------------------------
// Columns
// ---------------------------------------------------------------------------

/// A column is asked about where a blob of the chunk would stand in it; both columns of
/// transactions are, one after the other, and the batch comes after the last.
pub proof fn a_column_is_asked_about(s: ApplyView, column: BlobColumn, k: int)
    requires
        0 <= k < s.wanted(column).len(),
    ensures
        s.probe(column) matches ProgressView::FindEmpty { apply, column: c, queries } && apply == s
            && c == column && asks_for(
            queries,
            if column == BlobColumn::RequestBeef {
                None
            } else {
                Some(s.user_id)
            },
            s.wanted(column)[k],
        ),
{
    crate::storage::batch_laws::asked(
        column.select(),
        if column.of_user() {
            Some(s.user_id)
        } else {
            None
        },
        s.wanted(column),
        s.wanted(column)[k],
    );
}

/// What comes after the columns of each entity.
pub proof fn columns_come_before_their_batch(s: ApplyView)
    ensures
        s.past(BlobColumn::RequestBeef) == s.run(Phase::ProvenTxReqs),
        s.past(BlobColumn::RawTx) == s.probe(BlobColumn::InputBeef),
        s.past(BlobColumn::InputBeef) == s.run(Phase::Transactions),
        s.past(BlobColumn::LockingScript) == s.run(Phase::Outputs),
        s.enter(Phase::ProvenTxReqs) == s.probe(BlobColumn::RequestBeef),
        s.chunk.outputs is None ==> s.enter(Phase::Outputs) == s.run(Phase::Outputs),
        s.wanted(BlobColumn::RequestBeef).len() == 0 ==> s.probe(BlobColumn::RequestBeef) == s.run(
            Phase::ProvenTxReqs,
        ),
        s.wanted(BlobColumn::RawTx).len() == 0 ==> s.probe(BlobColumn::RawTx) == s.probe(
            BlobColumn::InputBeef,
        ),
        s.wanted(BlobColumn::InputBeef).len() == 0 ==> s.probe(BlobColumn::InputBeef) == s.run(
            Phase::Transactions,
        ),
        s.wanted(BlobColumn::LockingScript).len() == 0 ==> s.probe(BlobColumn::LockingScript)
            == s.run(Phase::Outputs),
{
    nothing_wanted(s, BlobColumn::RequestBeef);
    nothing_wanted(s, BlobColumn::RawTx);
    nothing_wanted(s, BlobColumn::InputBeef);
    nothing_wanted(s, BlobColumn::LockingScript);
}

/// The store is asked about the rows that were found with an empty column, all of them, and
/// not asked where none was.
pub proof fn the_store_is_asked_about_empty_rows(
    s: ApplyView,
    column: BlobColumn,
    rows: Seq<KeyedId>,
)
    ensures
        ({
            let empty = rows.filter(|r: KeyedId| r.key is Some && r.id is Some).map_values(
                |r: KeyedId| EmptyRowView { key: r.key->0@, id: r.id->0 },
            );
            &&& empty.len() > 0 ==> s.after_empty(column, rows) == (ProgressView::AskStore {
                apply: s,
                column,
                found: empty,
            })
            &&& empty.len() == 0 ==> s.after_empty(column, rows) == s.past(column)
        }),
{
    every_row_found_is_looked_at(rows);
}

/// Each column stands in its table, and all but that of a request are of one user.
pub proof fn columns_stand_in_their_tables()
    ensures
        BlobColumn::RequestBeef.table() == "proven_tx_reqs"@,
        BlobColumn::RequestBeef.column() == "input_beef"@,
        BlobColumn::RawTx.table() == "transactions"@,
        BlobColumn::RawTx.column() == "raw_tx"@,
        BlobColumn::InputBeef.table() == "transactions"@,
        BlobColumn::InputBeef.column() == "input_beef"@,
        BlobColumn::LockingScript.table() == "outputs"@,
        BlobColumn::LockingScript.column() == "locking_script"@,
        !BlobColumn::RequestBeef.of_user(),
        BlobColumn::RawTx.of_user(),
        BlobColumn::InputBeef.of_user(),
        BlobColumn::LockingScript.of_user(),
{
}

/// A chunk of another user is refused with both keys.
pub proof fn a_refusal_names_both_keys(chunk_key: Seq<char>, args_key: Seq<char>)
    ensures
        mismatch_text(chunk_key, args_key) == "processSyncChunk: chunk user identity key "@
            + chunk_key + " does not match args identity key "@ + args_key,
{
}

proof fn nothing_wanted(s: ApplyView, column: BlobColumn)
    ensures
        s.wanted(column).len() == 0 ==> s.empty_queries(column).len() == 0,
{
    if s.wanted(column).len() == 0 {
        no_key_no_statement(s.wanted(column));
    }
}

} // verus!
