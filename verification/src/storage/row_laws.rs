//! What becomes of each row of a chunk that is merged row by row, said of the row, of what
//! the store has, and of the ids that are known.

use crate::sql::query::SqlValue;
use crate::storage::apply::{found, no_rows, rows_of, LocalIdsView};
use crate::storage::apply_rows::{fresh_rows, RowPhase, RowsStepView, RowsView};
use crate::storage::blob_column::BlobWriteView;
use crate::storage::plan_laws::{id_under, the_last_answer_counts};
use crate::storage::sequential::{
    basket_insert_query, basket_lookup, basket_update_query, certificate_field_insert_query,
    certificate_field_lookup, certificate_field_update_query, certificate_insert_query,
    certificate_lookup, certificate_update_query, commission_insert_query, commission_lookup,
    commission_update_query, output_insert_query, output_lookup, output_tag_insert_query,
    output_tag_lookup, output_tag_map_insert_query, output_tag_map_lookup,
    output_tag_map_update_query, output_tag_update_query, output_update_query,
    proven_tx_insert_query, proven_tx_lookup, proven_tx_req_insert_query, proven_tx_req_lookup,
    proven_tx_req_update_query, proven_tx_update_query, transaction_insert_query,
    transaction_lookup, transaction_update_query, tx_label_insert_query, tx_label_lookup,
    tx_label_map_insert_query, tx_label_map_lookup, tx_label_map_update_query,
    tx_label_update_query,
};
use crate::storage::sync_row::{linking, Found, RowStepView, SyncRowView, UpsertResult};
use crate::time::{instants_are_ordered_by_their_place, latest, Timestamp};
use crate::types::SyncChunk;
use vstd::prelude::*;

verus! {

// ---------------------------------------------------------------------------
// One row
// ---------------------------------------------------------------------------

/// A row that the store does not have is inserted; one that it has is updated where the
/// incoming one is later and left alone else, under the id that it has.
pub proof fn a_row_is_inserted_or_updated_where_it_is_later(
    row: SyncRowView,
    stored: Found,
    proof_fk: Option<i64>,
)
    ensures
        row.decided(None, proof_fk) == (RowStepView::Insert { query: row.insert(proof_fk) }),
        row.updated_at().place() > stored.updated_at.place() && stored.id is Some ==> row.decided(
            Some(stored),
            proof_fk,
        ) == (RowStepView::Update { query: row.update(stored.id->0), local_id: stored.id->0 }),
        row.updated_at().place() > stored.updated_at.place() && stored.id is None ==> row.decided(
            Some(stored),
            proof_fk,
        ) == (RowStepView::Update { query: row.update(0), local_id: 0 }),
        row.updated_at().place() <= stored.updated_at.place() ==> row.decided(
            Some(stored),
            proof_fk,
        ) == (RowStepView::Done {
            result: UpsertResult {
                local_id: match stored.id {
                    Some(id) => id,
                    None => 0,
                },
                is_new: false,
            },
        }),
{
    instants_are_ordered_by_their_place(row.updated_at(), stored.updated_at);
}

/// A transaction that names a proof has it looked up by its txid, whether or not the store
/// has the transaction; any other row is decided at once.
pub proof fn a_named_proof_is_looked_up(row: SyncRowView, existing: Option<Found>)
    ensures
        match named_proof(row) {
            Some(txid) => row.after_lookup(existing) matches RowStepView::FindProof { query }
                && query.params == seq![SqlValue::Text(txid)],
            None => row.after_lookup(existing) == row.decided(existing, None),
        },
{
}

/// The txid of the proof that a row names: a transaction may name one.
pub open spec fn named_proof(row: SyncRowView) -> Option<Seq<char>> {
    match row {
        SyncRowView::Transaction { row: tx, .. } => match tx.proof_txid {
            Some(txid) => Some(txid@),
            None => None,
        },
        _ => None,
    }
}

/// One blob of a row.
pub open spec fn one_blob(
    table: Seq<char>,
    column: Seq<char>,
    id: i64,
    data: Option<Vec<u8>>,
    updated_at: Timestamp,
    also_updated: bool,
) -> Option<BlobWriteView> {
    match data {
        Some(bytes) => Some(
            BlobWriteView { table, id, column, bytes: bytes@, updated_at, also_updated },
        ),
        None => None,
    }
}

/// The blobs that are there, in their order.
pub open spec fn both_blobs(a: Option<BlobWriteView>, b: Option<BlobWriteView>) -> Seq<
    BlobWriteView,
> {
    match (a, b) {
        (Some(x), Some(y)) => seq![x, y],
        (Some(x), None) => seq![x],
        (None, Some(y)) => seq![y],
        (None, None) => Seq::empty(),
    }
}

/// Every blob that a row carries is filled in after it was written, under its local id: that
/// of a request, both of a transaction, that of an output; other rows carry none. Blobs that
/// come with an update stamp the row, and so does that of a request in any case.
pub proof fn every_blob_of_a_row_is_filled(row: SyncRowView, local_id: i64, is_new: bool)
    ensures
        row.blobs(local_id, is_new) == match row {
            SyncRowView::ProvenTxReq { row } => both_blobs(
                one_blob(
                    "proven_tx_reqs"@,
                    "input_beef"@,
                    local_id,
                    row.input_beef,
                    row.updated_at,
                    true,
                ),
                None,
            ),
            SyncRowView::Transaction { row, .. } => both_blobs(
                one_blob(
                    "transactions"@,
                    "raw_tx"@,
                    local_id,
                    row.raw_tx,
                    row.updated_at,
                    !is_new,
                ),
                one_blob(
                    "transactions"@,
                    "input_beef"@,
                    local_id,
                    row.input_beef,
                    row.updated_at,
                    !is_new,
                ),
            ),
            SyncRowView::Output { row, .. } => both_blobs(
                one_blob(
                    "outputs"@,
                    "locking_script"@,
                    local_id,
                    row.locking_script,
                    row.updated_at,
                    !is_new,
                ),
                None,
            ),
            _ => Seq::empty(),
        },
{
    if let SyncRowView::Transaction { row: tx, .. } = row {
        let a = one_blob(
            "transactions"@,
            "raw_tx"@,
            local_id,
            tx.raw_tx,
            tx.updated_at,
            !is_new,
        );
        let b = one_blob(
            "transactions"@,
            "input_beef"@,
            local_id,
            tx.input_beef,
            tx.updated_at,
            !is_new,
        );
        assert(row.blobs(local_id, is_new) =~= both_blobs(a, b));
    }
}

/// After a row was written its blobs are filled where it has any, then a transaction that was
/// updated is linked to its proof where that is known; the outcome is new exactly for an
/// insert, and has the local id.
pub proof fn a_written_row_is_finished(row: SyncRowView, local_id: i64, fk: i64)
    ensures
        ({
            let inserted = UpsertResult { local_id, is_new: true };
            let updated = UpsertResult { local_id, is_new: false };
            let new_blobs = row.blobs(local_id, true);
            let old_blobs = row.blobs(local_id, false);
            &&& new_blobs.len() > 0 ==> row.after_insert(local_id) == (RowStepView::PutBlobs {
                writes: new_blobs,
                link: None,
                result: inserted,
            })
            &&& new_blobs.len() == 0 ==> row.after_insert(local_id) == (RowStepView::Done {
                result: inserted,
            })
            &&& old_blobs.len() > 0 ==> row.after_update(local_id, None) == (
            RowStepView::PutBlobs { writes: old_blobs, link: None, result: updated })
            &&& old_blobs.len() == 0 ==> row.after_update(local_id, None) == (RowStepView::Done {
                result: updated,
            })
            &&& old_blobs.len() > 0 ==> (row.after_update(local_id, Some(fk)) matches
                RowStepView::PutBlobs { writes, link: Some(query), result } && writes == old_blobs
                && result == updated && query.params == seq![
                SqlValue::Int(fk as int),
                SqlValue::Int(local_id as int),
            ] && linking(Some(query), result) == (RowStepView::Link { query, result }))
            &&& old_blobs.len() == 0 ==> (row.after_update(local_id, Some(fk)) matches
                RowStepView::Link { query, result } && result == updated && query.params == seq![
                SqlValue::Int(fk as int),
                SqlValue::Int(local_id as int),
            ])
            &&& linking(None, inserted) == (RowStepView::Done { result: inserted })
        }),
{
}

/// A row tells the id that the chunk gives it and the instant of its last change.
pub proof fn a_row_tells_its_id_and_its_instant(row: SyncRowView)
    ensures
        match row {
            SyncRowView::Basket { row: r, .. } => row.foreign() == r.basket_id && row.updated_at()
                == r.updated_at,
            SyncRowView::ProvenTxReq { row: r } => row.foreign() == r.proven_tx_req_id
                && row.updated_at() == r.updated_at,
            SyncRowView::ProvenTx { row: r } => row.foreign() == r.proven_tx_id
                && row.updated_at() == r.updated_at,
            SyncRowView::TxLabel { row: r, .. } => row.foreign() == r.label_id
                && row.updated_at() == r.updated_at,
            SyncRowView::OutputTag { row: r, .. } => row.foreign() == r.tag_id
                && row.updated_at() == r.updated_at,
            SyncRowView::Transaction { row: r, .. } => row.foreign() == r.transaction_id
                && row.updated_at() == r.updated_at,
            SyncRowView::Output { row: r, .. } => row.foreign() == r.output_id
                && row.updated_at() == r.updated_at,
            SyncRowView::TxLabelMap { row: r, .. } => row.foreign() == r.tx_label_map_id
                && row.updated_at() == r.updated_at,
            SyncRowView::OutputTagMap { row: r, .. } => row.foreign() == r.output_tag_map_id
                && row.updated_at() == r.updated_at,
            SyncRowView::Certificate { row: r, .. } => row.foreign() == r.certificate_id
                && row.updated_at() == r.updated_at,
            SyncRowView::CertificateField { row: r, .. } => row.foreign()
                == r.certificate_field_id && row.updated_at() == r.updated_at,
            SyncRowView::Commission { row: r, .. } => row.foreign() == r.commission_id
                && row.updated_at() == r.updated_at,
        },
{
}

/// A row is looked up, inserted and updated by the statements of its own entity, with the
/// local ids of its parents.
pub proof fn a_row_uses_its_own_statements(
    row: SyncRowView,
    proof_fk: Option<i64>,
    local_id: i64,
)
    ensures
        row matches SyncRowView::Basket { user_id, row: r } ==> {
            &&& row.lookup() == basket_lookup(user_id, r)
            &&& row.insert(proof_fk) == basket_insert_query(user_id, r)
            &&& row.update(local_id) == basket_update_query(r, local_id)
        },
        row matches SyncRowView::ProvenTxReq { row: r } ==> {
            &&& row.lookup() == proven_tx_req_lookup(r)
            &&& row.insert(proof_fk) == proven_tx_req_insert_query(r)
            &&& row.update(local_id) == proven_tx_req_update_query(r, local_id)
        },
        row matches SyncRowView::ProvenTx { row: r } ==> {
            &&& row.lookup() == proven_tx_lookup(r)
            &&& row.insert(proof_fk) == proven_tx_insert_query(r)
            &&& row.update(local_id) == proven_tx_update_query(r, local_id)
        },
        row matches SyncRowView::TxLabel { user_id, row: r } ==> {
            &&& row.lookup() == tx_label_lookup(user_id, r)
            &&& row.insert(proof_fk) == tx_label_insert_query(user_id, r)
            &&& row.update(local_id) == tx_label_update_query(r, local_id)
        },
        row matches SyncRowView::OutputTag { user_id, row: r } ==> {
            &&& row.lookup() == output_tag_lookup(user_id, r)
            &&& row.insert(proof_fk) == output_tag_insert_query(user_id, r)
            &&& row.update(local_id) == output_tag_update_query(r, local_id)
        },
        row matches SyncRowView::Transaction { user_id, row: r } ==> {
            &&& row.lookup() == transaction_lookup(user_id, r)
            &&& row.insert(proof_fk) == transaction_insert_query(user_id, r, proof_fk)
            &&& row.update(local_id) == transaction_update_query(r, local_id)
        },
        row matches SyncRowView::Output { user_id, row: r, tx_id, basket_id } ==> {
            &&& row.lookup() == output_lookup(user_id, r)
            &&& row.insert(proof_fk) == output_insert_query(user_id, r, tx_id, basket_id)
            &&& row.update(local_id) == output_update_query(
                user_id,
                r,
                tx_id,
                basket_id,
                local_id,
            )
        },
        row matches SyncRowView::TxLabelMap { row: r, tx_id, label_id } ==> {
            &&& row.lookup() == tx_label_map_lookup(tx_id, label_id)
            &&& row.insert(proof_fk) == tx_label_map_insert_query(
                tx_id,
                label_id,
                r.updated_at,
                r.created_at,
            )
            &&& row.update(local_id) == tx_label_map_update_query(r.updated_at, local_id)
        },
        row matches SyncRowView::OutputTagMap { row: r, output_id, tag_id } ==> {
            &&& row.lookup() == output_tag_map_lookup(output_id, tag_id)
            &&& row.insert(proof_fk) == output_tag_map_insert_query(
                output_id,
                tag_id,
                r.updated_at,
                r.created_at,
            )
            &&& row.update(local_id) == output_tag_map_update_query(r.updated_at, local_id)
        },
        row matches SyncRowView::Certificate { user_id, row: r } ==> {
            &&& row.lookup() == certificate_lookup(user_id, r)
            &&& row.insert(proof_fk) == certificate_insert_query(user_id, r)
            &&& row.update(local_id) == certificate_update_query(r, local_id)
        },
        row matches SyncRowView::CertificateField { user_id, row: r, cert_id } ==> {
            &&& row.lookup() == certificate_field_lookup(r, cert_id)
            &&& row.insert(proof_fk) == certificate_field_insert_query(user_id, r, cert_id)
            &&& row.update(local_id) == certificate_field_update_query(r, local_id)
        },
        row matches SyncRowView::Commission { user_id, row: r, tx_id } ==> {
            &&& row.lookup() == commission_lookup(tx_id)
            &&& row.insert(proof_fk) == commission_insert_query(user_id, r, tx_id)
            &&& row.update(local_id) == commission_update_query(r, local_id)
        },
{
}

// ---------------------------------------------------------------------------
// All rows
// ---------------------------------------------------------------------------

/// The place of a phase in the order.
pub open spec fn rank(phase: RowPhase) -> int {
    match phase {
        RowPhase::Baskets => 0,
        RowPhase::ProvenTxReqs => 1,
        RowPhase::ProvenTxs => 2,
        RowPhase::TxLabels => 3,
        RowPhase::OutputTags => 4,
        RowPhase::Transactions => 5,
        RowPhase::Outputs => 6,
        RowPhase::TxLabelMaps => 7,
        RowPhase::OutputTagMaps => 8,
        RowPhase::Certificates => 9,
        RowPhase::CertificateFields => 10,
        RowPhase::Commissions => 11,
        RowPhase::Finished => 12,
    }
}

/// The merge at another place.
pub open spec fn at_place(s: RowsView, phase: RowPhase, at: int) -> RowsView {
    RowsView {
        user_id: s.user_id,
        chunk: s.chunk,
        result: s.result,
        ids: s.ids,
        basket_names: s.basket_names,
        phase,
        at,
    }
}

/// Whether a place comes before another.
pub open spec fn before(p: RowPhase, i: int, q: RowPhase, j: int) -> bool {
    rank(p) < rank(q) || (p == q && i < j)
}

/// Whether no row can be merged from one place on up to another.
pub open spec fn nothing_between(s: RowsView, q: RowPhase, j: int) -> bool {
    forall|p: RowPhase, i: int|
        i >= 0 && !before(p, i, s.phase, s.at) && before(p, i, q, j) ==> (#[trigger] at_place(
            s,
            p,
            i,
        ).current()) is None
}

/// No row is passed over. Going on leads to the first row from here on that can be merged;
/// before the outputs the names of the baskets are looked up; and it ends only where no row
/// is left. Nothing else changes on the way.
pub proof fn no_row_is_passed_over(s: RowsView)
    requires
        s.at >= 0,
    ensures
        match s.advance() {
            RowsStepView::Upsert { rows } => {
                &&& rows == at_place(s, rows.phase, rows.at)
                &&& rows.current() is Some
                &&& !before(rows.phase, rows.at, s.phase, s.at)
                &&& nothing_between(s, rows.phase, rows.at)
                &&& s.chunk.outputs is Some && rank(s.phase) < 6 ==> rank(rows.phase) < 6
            },
            RowsStepView::LoadBasketNames { rows, query } => {
                &&& rows == at_place(s, RowPhase::Outputs, 0)
                &&& rank(s.phase) < 6
                &&& s.chunk.outputs is Some
                &&& nothing_between(s, RowPhase::Outputs, 0)
                &&& query.params == seq![SqlValue::Int(s.user_id as int)]
            },
            RowsStepView::Done { result } => {
                &&& result == s.result
                &&& nothing_between(s, RowPhase::Finished, 0)
                &&& s.chunk.outputs is Some ==> rank(s.phase) >= 6
            },
            RowsStepView::MergeUser { .. } => false,
        },
    decreases s.phase.left(), s.len() - s.at,
{
    if s.phase == RowPhase::Finished {
    } else if s.current() is Some {
        assert(s == at_place(s, s.phase, s.at));
    } else if s.at < s.len() {
        let next = RowsView { at: s.at + 1, ..s };
        no_row_is_passed_over(next);
        one_place_less(s, next);
    } else {
        let next = RowsView { phase: s.phase.following(), at: 0, ..s };
        assert(rank(next.phase) == rank(s.phase) + 1);
        phase_is_over(s);
        if next.phase == RowPhase::Outputs && s.chunk.outputs is Some {
            assert(next == at_place(s, RowPhase::Outputs, 0));
            assert forall|p: RowPhase, i: int|
                i >= 0 && !before(p, i, s.phase, s.at) && before(
                    p,
                    i,
                    RowPhase::Outputs,
                    0,
                ) implies (#[trigger] at_place(s, p, i).current()) is None by {
                assert(rank(p) == rank(s.phase));
                assert(p == s.phase);
            }
        } else {
            no_row_is_passed_over(next);
            one_phase_less(s, next);
        }
    }
}

proof fn same_rows(s: RowsView, next: RowsView, p: RowPhase, i: int)
    requires
        next == at_place(s, next.phase, next.at),
    ensures
        at_place(next, p, i) == at_place(s, p, i),
{
}

proof fn phase_is_over(s: RowsView)
    requires
        s.at >= s.len(),
    ensures
        forall|i: int| i >= s.at ==> (#[trigger] at_place(s, s.phase, i).current()) is None,
{
    assert forall|i: int| i >= s.at implies (#[trigger] at_place(
        s,
        s.phase,
        i,
    ).current()) is None by {
        assert(at_place(s, s.phase, i).len() == s.len());
    }
}

proof fn one_place_less(s: RowsView, next: RowsView)
    requires
        next == at_place(s, s.phase, s.at + 1),
        s.current() is None,
    ensures
        forall|q: RowPhase, j: int|
            nothing_between(next, q, j) ==> #[trigger] nothing_between(s, q, j),
{
    assert forall|q: RowPhase, j: int| nothing_between(next, q, j) implies #[trigger]
        nothing_between(s, q, j) by {
        assert forall|p: RowPhase, i: int|
            i >= 0 && !before(p, i, s.phase, s.at) && before(p, i, q, j) implies (
        #[trigger] at_place(s, p, i).current()) is None by {
            same_rows(s, next, p, i);
            if p == s.phase && i == s.at {
                assert(s == at_place(s, p, i));
            } else {
                assert(!before(p, i, next.phase, next.at)) by {
                    ranks_tell_phases(p, s.phase);
                }
                assert(at_place(next, p, i).current() is None);
            }
        }
    }
}

proof fn ranks_tell_phases(p: RowPhase, q: RowPhase)
    ensures
        rank(p) == rank(q) <==> p == q,
{
}

proof fn one_phase_less(s: RowsView, next: RowsView)
    requires
        next == at_place(s, next.phase, 0),
        rank(next.phase) == rank(s.phase) + 1,
        forall|i: int| i >= s.at ==> (#[trigger] at_place(s, s.phase, i).current()) is None,
    ensures
        forall|q: RowPhase, j: int|
            nothing_between(next, q, j) ==> #[trigger] nothing_between(s, q, j),
{
    assert forall|q: RowPhase, j: int| nothing_between(next, q, j) implies #[trigger]
        nothing_between(s, q, j) by {
        assert forall|p: RowPhase, i: int|
            i >= 0 && !before(p, i, s.phase, s.at) && before(p, i, q, j) implies (
        #[trigger] at_place(s, p, i).current()) is None by {
            same_rows(s, next, p, i);
            ranks_tell_phases(p, s.phase);
            if p != s.phase {
                ranks_tell_phases(p, next.phase);
                assert(!before(p, i, next.phase, 0));
                assert(at_place(next, p, i).current() is None);
            }
        }
    }
}

// ---------------------------------------------------------------------------
// Parents
// ---------------------------------------------------------------------------

/// The row at a place of a chunk is merged for the user of the merge, and a row with parents
/// under the local ids that were recorded for them: an output under the id of the chunk where
/// none was recorded, and in the basket of its id or else of its name; a label, a tag, a field
/// or a commission not at all where a parent was not recorded.
pub proof fn a_row_is_merged_under_its_parents(s: RowsView, i: int)
    requires
        i >= 0,
    ensures
        ({
            let rows = rows_of(s.chunk.output_baskets);
            i < rows.len() ==> at_place(s, RowPhase::Baskets, i).current() == Some(
                SyncRowView::Basket { user_id: s.user_id, row: rows[i] },
            )
        }),
        ({
            let rows = rows_of(s.chunk.proven_tx_reqs);
            i < rows.len() ==> at_place(s, RowPhase::ProvenTxReqs, i).current() == Some(
                SyncRowView::ProvenTxReq { row: rows[i] },
            )
        }),
        ({
            let rows = rows_of(s.chunk.proven_txs);
            i < rows.len() ==> at_place(s, RowPhase::ProvenTxs, i).current() == Some(
                SyncRowView::ProvenTx { row: rows[i] },
            )
        }),
        ({
            let rows = rows_of(s.chunk.tx_labels);
            i < rows.len() ==> at_place(s, RowPhase::TxLabels, i).current() == Some(
                SyncRowView::TxLabel { user_id: s.user_id, row: rows[i] },
            )
        }),
        ({
            let rows = rows_of(s.chunk.output_tags);
            i < rows.len() ==> at_place(s, RowPhase::OutputTags, i).current() == Some(
                SyncRowView::OutputTag { user_id: s.user_id, row: rows[i] },
            )
        }),
        ({
            let rows = rows_of(s.chunk.transactions);
            i < rows.len() ==> at_place(s, RowPhase::Transactions, i).current() == Some(
                SyncRowView::Transaction { user_id: s.user_id, row: rows[i] },
            )
        }),
        ({
            let rows = rows_of(s.chunk.certificates);
            i < rows.len() ==> at_place(s, RowPhase::Certificates, i).current() == Some(
                SyncRowView::Certificate { user_id: s.user_id, row: rows[i] },
            )
        }),
        ({
            let rows = rows_of(s.chunk.outputs);
            i < rows.len() ==> at_place(s, RowPhase::Outputs, i).current() == Some(
                SyncRowView::Output {
                    user_id: s.user_id,
                    row: rows[i],
                    tx_id: if s.ids.transactions.contains_key(rows[i].transaction_id) {
                        s.ids.transactions[rows[i].transaction_id]
                    } else {
                        rows[i].transaction_id
                    },
                    basket_id: if rows[i].basket_id is Some && s.ids.baskets.contains_key(
                        rows[i].basket_id->0,
                    ) {
                        Some(s.ids.baskets[rows[i].basket_id->0])
                    } else if rows[i].basket_name is Some {
                        id_under(s.basket_names, rows[i].basket_name->0@)
                    } else {
                        None
                    },
                },
            )
        }),
        ({
            let rows = rows_of(s.chunk.tx_label_maps);
            let known = s.ids.transactions.contains_key(rows[i].transaction_id)
                && s.ids.labels.contains_key(rows[i].label_id);
            i < rows.len() ==> at_place(s, RowPhase::TxLabelMaps, i).current() == if known {
                Some(
                    SyncRowView::TxLabelMap {
                        row: rows[i],
                        tx_id: s.ids.transactions[rows[i].transaction_id],
                        label_id: s.ids.labels[rows[i].label_id],
                    },
                )
            } else {
                None
            }
        }),
        ({
            let rows = rows_of(s.chunk.output_tag_maps);
            let known = s.ids.outputs.contains_key(rows[i].output_id) && s.ids.tags.contains_key(
                rows[i].tag_id,
            );
            i < rows.len() ==> at_place(s, RowPhase::OutputTagMaps, i).current() == if known {
                Some(
                    SyncRowView::OutputTagMap {
                        row: rows[i],
                        output_id: s.ids.outputs[rows[i].output_id],
                        tag_id: s.ids.tags[rows[i].tag_id],
                    },
                )
            } else {
                None
            }
        }),
        ({
            let rows = rows_of(s.chunk.certificate_fields);
            let known = s.ids.certificates.contains_key(rows[i].certificate_id);
            i < rows.len() ==> at_place(s, RowPhase::CertificateFields, i).current() == if known {
                Some(
                    SyncRowView::CertificateField {
                        user_id: s.user_id,
                        row: rows[i],
                        cert_id: s.ids.certificates[rows[i].certificate_id],
                    },
                )
            } else {
                None
            }
        }),
        ({
            let rows = rows_of(s.chunk.commissions);
            let known = s.ids.transactions.contains_key(rows[i].transaction_id);
            i < rows.len() ==> at_place(s, RowPhase::Commissions, i).current() == if known {
                Some(
                    SyncRowView::Commission {
                        user_id: s.user_id,
                        row: rows[i],
                        tx_id: s.ids.transactions[rows[i].transaction_id],
                    },
                )
            } else {
                None
            }
        }),
{
    let rows = rows_of(s.chunk.outputs);
    if i < rows.len() && rows[i].basket_name is Some {
        the_last_answer_counts(s.basket_names, rows[i].basket_name->0@);
    }
}

// ---------------------------------------------------------------------------
// Bookkeeping
// ---------------------------------------------------------------------------

/// The local ids that a phase records.
pub open spec fn ids_of_rows(ids: LocalIdsView, phase: RowPhase) -> Map<i64, i64> {
    match phase {
        RowPhase::Baskets => ids.baskets,
        RowPhase::TxLabels => ids.labels,
        RowPhase::OutputTags => ids.tags,
        RowPhase::Transactions => ids.transactions,
        RowPhase::Outputs => ids.outputs,
        RowPhase::Certificates => ids.certificates,
        _ => Map::empty(),
    }
}

/// Whether the rows of a phase are parents of others.
pub open spec fn are_parents(phase: RowPhase) -> bool {
    phase == RowPhase::Baskets || phase == RowPhase::TxLabels || phase == RowPhase::OutputTags
        || phase == RowPhase::Transactions || phase == RowPhase::Outputs || phase
        == RowPhase::Certificates
}

/// A merged row of a phase of parents is found under its id in the chunk with the id that it
/// got; every other id stays. It is counted once, as new or as an update, and the latest
/// instant is kept. The next row comes next.
pub proof fn a_merged_row_is_recorded(
    s: RowsView,
    row: SyncRowView,
    outcome: UpsertResult,
    other: i64,
    phase: RowPhase,
)
    ensures
        ({
            let after = s.merged(row, outcome);
            &&& are_parents(s.phase) ==> found(ids_of_rows(after.ids, s.phase), row.foreign())
                == Some(outcome.local_id)
            &&& other != row.foreign() || phase != s.phase ==> found(
                ids_of_rows(after.ids, phase),
                other,
            ) == found(ids_of_rows(s.ids, phase), other)
            &&& outcome.is_new ==> after.result.inserts == (s.result.inserts + 1) % 0x1_0000_0000
                && after.result.updates == s.result.updates
            &&& !outcome.is_new ==> after.result.updates == (s.result.updates + 1)
                % 0x1_0000_0000 && after.result.inserts == s.result.inserts
            &&& after.result.done == s.result.done
            &&& after.result.error == s.result.error
            &&& after.result.max_updated_at matches Some(t) && {
                &&& t == row.updated_at() || s.result.max_updated_at == Some(t)
                &&& row.updated_at().place() <= t.place()
                &&& s.result.max_updated_at matches Some(b) ==> b.place() <= t.place()
            }
            &&& after.user_id == s.user_id
            &&& after.chunk == s.chunk
            &&& after.basket_names == s.basket_names
            &&& after.phase == s.phase
            &&& after.at == s.at + 1
        }),
        s.current() matches Some(here) ==> s.after_row(outcome) == s.merged(
            here,
            outcome,
        ).advance(),
{
    if let Some(t) = s.result.max_updated_at {
        instants_are_ordered_by_their_place(row.updated_at(), t);
    }
}

/// A merge row by row starts at the first basket with nothing known. After the user record,
/// which counts as an update exactly where it was written, a chunk without rows is done and
/// any other goes on.
pub proof fn rows_start_at_the_first(user_id: i64, chunk: SyncChunk, updated: bool, id: i64)
    ensures
        ({
            let s = fresh_rows(user_id, chunk);
            &&& s.user_id == user_id
            &&& s.chunk == chunk
            &&& s.phase == RowPhase::Baskets
            &&& s.at == 0
            &&& s.result.inserts == 0
            &&& s.result.updates == 0
            &&& s.result.max_updated_at is None
            &&& !s.result.done
            &&& s.result.error is None
            &&& s.basket_names.len() == 0
            &&& !s.ids.baskets.contains_key(id)
            &&& !s.ids.transactions.contains_key(id)
            &&& !s.ids.outputs.contains_key(id)
            &&& !s.ids.labels.contains_key(id)
            &&& !s.ids.tags.contains_key(id)
            &&& !s.ids.certificates.contains_key(id)
            &&& !no_rows(chunk) ==> s.rest() == s.advance()
            &&& no_rows(chunk) ==> (s.rest() matches RowsStepView::Done { result } && result.done
                && result.inserts == 0 && result.updates == 0 && result.max_updated_at is None
                && result.error is None)
        }),
        chunk.user is Some ==> exists|t: RowsView|
            #![trigger t.advance()]
            {
                &&& t == (RowsView { result: t.result, ..fresh_rows(user_id, chunk) })
                &&& t.result.updates == if updated {
                    1int
                } else {
                    0int
                }
                &&& t.result.inserts == 0
                &&& t.result.max_updated_at == Some(chunk.user->0.updated_at)
                &&& !t.result.done
                &&& t.result.error is None
                &&& !no_rows(chunk) ==> fresh_rows(user_id, chunk).after_user(updated)
                    == t.advance()
                &&& no_rows(chunk) ==> (fresh_rows(user_id, chunk).after_user(updated) matches
                    RowsStepView::Done { result } && result.done && result.updates
                    == t.result.updates && result.inserts == 0 && result.max_updated_at
                    == t.result.max_updated_at && result.error is None)
            },
{
    if chunk.user is Some {
        let s = fresh_rows(user_id, chunk);
        let t = RowsView {
            result: crate::types::ProcessSyncChunkResult {
                updates: if updated {
                    1
                } else {
                    0
                },
                max_updated_at: Some(chunk.user->0.updated_at),
                ..s.result
            },
            ..s
        };
        assert(s.after_user(updated) == t.rest());
        assert(t.advance() == t.advance());
    }
}

} // verus!
