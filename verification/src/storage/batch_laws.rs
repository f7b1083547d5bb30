//! What a batch leaves behind and what is looked up before it, said of the rows and of the
//! ids that came back.

use crate::entities::{TableOutput, TableProvenTxReq, TableTransaction};
use crate::r2::THRESHOLD;
use crate::sql::query::{QueryView, SqlValue};
use crate::storage::apply::{
    fill_writes, found, given, held_rows, output_key, paired, proof_txids, recorded, rows_found,
    rows_of, spend_references, times, writes, ApplyView, BlobColumn, EmptyRowView, EntryView,
    FillView, HeldView, LocalIdsView, Phase,
};
use crate::storage::blob_column::BlobWriteView;
use crate::storage::lookup::{every_key_is_asked_for, group_queries, KeyedId};
use crate::storage::plan_laws::{a_parent_is_found_by_id_or_by_name, parent_transaction};
use crate::text::{sorted_set, sorted_set_is_one};
use crate::time::{
    instants_are_ordered_by_their_place, latest_of, latest_of_is_the_maximum, Timestamp,
};
use vstd::prelude::*;

verus! {

// ---------------------------------------------------------------------------
// Ids
// ---------------------------------------------------------------------------

/// The local ids that a phase records.
pub open spec fn ids_of(ids: LocalIdsView, phase: Phase) -> Map<i64, i64> {
    match phase {
        Phase::Baskets => ids.baskets,
        Phase::TxLabels => ids.labels,
        Phase::OutputTags => ids.tags,
        Phase::Certificates => ids.certificates,
        Phase::Transactions => ids.transactions,
        Phase::Outputs => ids.outputs,
        _ => Map::empty(),
    }
}

/// Whether rows of a phase are parents of others, so that their ids are recorded.
pub open spec fn records_ids(phase: Phase) -> bool {
    phase == Phase::Baskets || phase == Phase::TxLabels || phase == Phase::OutputTags || phase
        == Phase::Certificates || phase == Phase::Transactions || phase == Phase::Outputs
}

/// Whether a row is the last of the first `n` with an id of the chunk.
pub open spec fn last_with_id(list: Seq<EntryView>, n: int, foreign: i64, i: int) -> bool {
    &&& 0 <= i < n <= list.len()
    &&& list[i].foreign == foreign
    &&& forall|j: int| i < j < n ==> (#[trigger] list[j]).foreign != foreign
}

proof fn recorded_last(
    map: Map<i64, i64>,
    list: Seq<EntryView>,
    ids: Seq<i64>,
    n: int,
    foreign: i64,
    i: int,
)
    requires
        last_with_id(list, n, foreign, i),
    ensures
        found(recorded(map, list, ids, n), foreign) == Some(ids[i]),
    decreases n,
{
    if i < n - 1 {
        assert(list[n - 1].foreign != foreign);
        recorded_last(map, list, ids, n - 1, foreign, i);
    }
}

proof fn recorded_others(
    map: Map<i64, i64>,
    list: Seq<EntryView>,
    ids: Seq<i64>,
    n: int,
    foreign: i64,
)
    requires
        n <= list.len(),
        forall|j: int| 0 <= j < n ==> (#[trigger] list[j]).foreign != foreign,
    ensures
        found(recorded(map, list, ids, n), foreign) == found(map, foreign),
    decreases n,
{
    if n > 0 {
        assert(list[n - 1].foreign != foreign);
        recorded_others(map, list, ids, n - 1, foreign);
    }
}

/// How many rows of a batch got an id: as many as there are both rows and ids.
pub open spec fn with_ids(list: Seq<EntryView>, ids: Seq<i64>) -> int {
    if ids.len() < list.len() {
        ids.len() as int
    } else {
        list.len() as int
    }
}

/// Each row of a batch of parents is recorded under its id in the chunk with the id that came
/// back for it, the last one where several rows have one id; every other id stays as it was,
/// and so do the ids of the other phases.
pub proof fn a_batch_is_recorded(
    s: ApplyView,
    phase: Phase,
    list: Seq<EntryView>,
    ids: Seq<i64>,
    foreign: i64,
    i: int,
    other: Phase,
)
    ensures
        ({
            let after = s.settled(phase, list, ids);
            let n = with_ids(list, ids);
            &&& records_ids(phase) && last_with_id(list, n, foreign, i) ==> found(
                ids_of(after.ids, phase),
                foreign,
            ) == Some(ids[i])
            &&& (forall|j: int| 0 <= j < n ==> (#[trigger] list[j]).foreign != foreign) ==> found(
                ids_of(after.ids, phase),
                foreign,
            ) == found(ids_of(s.ids, phase), foreign)
            &&& other != phase ==> ids_of(after.ids, other) == ids_of(s.ids, other)
            &&& !records_ids(phase) ==> after.ids == s.ids
            &&& after.user_id == s.user_id
            &&& after.chunk == s.chunk
            &&& after.txids == s.txids
            &&& after.proofs == s.proofs
            &&& after.spends == s.spends
            &&& after.basket_names == s.basket_names
            &&& after.held == s.held
        }),
{
    let n = with_ids(list, ids);
    assert(n == paired(list, ids));
    let map = ids_of(s.ids, phase);
    if last_with_id(list, n, foreign, i) {
        recorded_last(map, list, ids, n, foreign, i);
    }
    if forall|j: int| 0 <= j < n ==> (#[trigger] list[j]).foreign != foreign {
        recorded_others(map, list, ids, n, foreign);
    }
}

// ---------------------------------------------------------------------------
// Counts and instants
// ---------------------------------------------------------------------------

/// How many rows a batch counts as merged: those with an id in a phase of parents and among
/// the requests, the ids among the proofs, and all rows of the other phases.
pub open spec fn rows_counted(phase: Phase, list: Seq<EntryView>, ids: Seq<i64>) -> int {
    if phase == Phase::ProvenTxs {
        ids.len() as int
    } else if phase == Phase::CertificateFields || phase == Phase::TxLabelMaps || phase
        == Phase::OutputTagMaps || phase == Phase::Commissions {
        list.len() as int
    } else {
        with_ids(list, ids)
    }
}

/// A batch counts its rows and leaves the rest of the answer alone.
pub proof fn a_batch_counts_its_rows(
    s: ApplyView,
    phase: Phase,
    list: Seq<EntryView>,
    ids: Seq<i64>,
)
    ensures
        s.settled(phase, list, ids).result.inserts == (s.result.inserts + rows_counted(
            phase,
            list,
            ids,
        )) % 0x1_0000_0000,
        s.settled(phase, list, ids).result.updates == s.result.updates,
        s.settled(phase, list, ids).result.done == s.result.done,
        s.settled(phase, list, ids).result.error == s.result.error,
{
}

/// Whether an instant is the latest of some and of one that was known before.
pub open spec fn is_latest(
    latest: Option<Timestamp>,
    before: Option<Timestamp>,
    instants: Seq<Timestamp>,
) -> bool {
    match latest {
        Some(t) => {
            &&& before == Some(t) || instants.contains(t)
            &&& before matches Some(b) ==> b.place() <= t.place()
            &&& forall|i: int|
                0 <= i < instants.len() ==> (#[trigger] instants[i]).place() <= t.place()
        },
        None => before is None && instants.len() == 0,
    }
}

/// Folding instants gives the latest.
pub proof fn the_latest_is_kept(before: Option<Timestamp>, instants: Seq<Timestamp>)
    ensures
        is_latest(latest_of(before, instants), before, instants),
{
    latest_of_is_the_maximum(before, instants);
    if let Some(t) = latest_of(before, instants) {
        if let Some(b) = before {
            instants_are_ordered_by_their_place(b, t);
        }
        assert forall|i: int| 0 <= i < instants.len() implies (#[trigger] instants[i]).place()
            <= t.place() by {
            instants_are_ordered_by_their_place(instants[i], t);
        }
    }
}

/// The instants that a batch is looked at for: those of all proofs and of all fields of
/// certificates in the chunk, merged or not; none of labels and tags that are put on rows and
/// none of commissions; else those of the rows that got an id.
pub open spec fn instants_seen(
    s: ApplyView,
    phase: Phase,
    list: Seq<EntryView>,
    ids: Seq<i64>,
) -> Seq<Timestamp> {
    if phase == Phase::ProvenTxs {
        rows_of(s.chunk.proven_txs).map_values(
            |p: crate::entities::TableProvenTx| p.updated_at,
        )
    } else if phase == Phase::CertificateFields {
        rows_of(s.chunk.certificate_fields).map_values(
            |f: crate::entities::TableCertificateField| f.updated_at,
        )
    } else if phase == Phase::TxLabelMaps || phase == Phase::OutputTagMaps || phase
        == Phase::Commissions {
        Seq::empty()
    } else {
        list.take(with_ids(list, ids)).map_values(|e: EntryView| e.updated_at)
    }
}

/// After a batch the answer has the latest of the instants that it had and of those of the
/// batch.
pub proof fn a_batch_keeps_the_latest_change(
    s: ApplyView,
    phase: Phase,
    list: Seq<EntryView>,
    ids: Seq<i64>,
)
    ensures
        is_latest(
            s.settled(phase, list, ids).result.max_updated_at,
            s.result.max_updated_at,
            instants_seen(s, phase, list, ids),
        ),
{
    let seen = instants_seen(s, phase, list, ids);
    the_latest_is_kept(s.result.max_updated_at, seen);
    match phase {
        Phase::ProvenTxs => {
            let rows = rows_of(s.chunk.proven_txs);
            assert(Seq::new(rows.len(), |i: int| rows[i].updated_at) =~= seen);
        },
        Phase::CertificateFields => {
            let rows = rows_of(s.chunk.certificate_fields);
            assert(Seq::new(rows.len(), |i: int| rows[i].updated_at) =~= seen);
        },
        Phase::TxLabelMaps | Phase::OutputTagMaps | Phase::Commissions => {},
        _ => {
            assert(times(list, paired(list, ids)) =~= seen);
        },
    }
}

// ---------------------------------------------------------------------------
// Blobs
// ---------------------------------------------------------------------------

/// The writes of the blobs of a row.
pub open spec fn blobs_of_row(entry: EntryView, id: i64) -> Seq<BlobWriteView> {
    entry.fills.map_values(
        |f: FillView|
            BlobWriteView {
                table: f.table,
                id,
                column: f.column,
                bytes: f.bytes,
                updated_at: entry.updated_at,
                also_updated: false,
            },
    )
}

/// After a batch the blobs of the rows that got an id are written, each under that id and
/// each once, in the order of the rows.
pub proof fn every_long_blob_is_written(list: Seq<EntryView>, ids: Seq<i64>, n: int)
    requires
        0 <= n <= with_ids(list, ids),
    ensures
        writes(list, ids, n) == Seq::new(
            n as nat,
            |k: int| blobs_of_row(list[k], ids[k]),
        ).flatten_alt(),
    decreases n,
{
    let rows = Seq::new(n as nat, |k: int| blobs_of_row(list[k], ids[k]));
    if n > 0 {
        every_long_blob_is_written(list, ids, n - 1);
        assert(rows.drop_last() =~= Seq::new(
            (n - 1) as nat,
            |k: int| blobs_of_row(list[k], ids[k]),
        ));
        assert(fill_writes(list[n - 1], ids[n - 1]) =~= blobs_of_row(list[n - 1], ids[n - 1]));
    } else {
        assert(writes(list, ids, n) =~= rows.flatten_alt());
    }
}

/// The rows of an answer with both a key and an id are looked at, in their order.
pub proof fn every_row_found_is_looked_at(rows: Seq<KeyedId>)
    ensures
        rows_found(rows) == rows.filter(
            |r: KeyedId| r.key is Some && r.id is Some,
        ).map_values(|r: KeyedId| EmptyRowView { key: r.key->0@, id: r.id->0 }),
    decreases rows.len(),
{
    reveal(Seq::filter);
    let keep = |r: KeyedId| r.key is Some && r.id is Some;
    let row = |r: KeyedId| EmptyRowView { key: r.key->0@, id: r.id->0 };
    if rows.len() > 0 {
        every_row_found_is_looked_at(rows.drop_last());
        let kept = rows.drop_last().filter(keep);
        if keep(rows.last()) {
            assert(kept.push(rows.last()).map_values(row) =~= kept.map_values(row).push(
                row(rows.last()),
            ));
        }
    }
    assert(rows_found(rows) =~= rows.filter(keep).map_values(row));
}

/// A row counts as held exactly where the object store did not say that it lacks the blob.
pub proof fn a_row_is_held_unless_the_store_lacks_it(
    column: BlobColumn,
    found: Seq<EmptyRowView>,
    exists: Seq<bool>,
    n: int,
    h: HeldView,
)
    requires
        0 <= n <= found.len(),
    ensures
        held_rows(column, found, exists, n).contains(h) <==> h.column == column && exists|i: int|
            0 <= i < n && (#[trigger] found[i]).key == h.key && (i >= exists.len() || exists[i]),
    decreases n,
{
    let list = held_rows(column, found, exists, n);
    if n > 0 {
        a_row_is_held_unless_the_store_lacks_it(column, found, exists, n - 1, h);
        let rest = held_rows(column, found, exists, n - 1);
        if rest.contains(h) {
            let k = choose|k: int| 0 <= k < rest.len() && rest[k] == h;
            assert(list[k] == h);
        }
        if n > exists.len() || exists[n - 1] {
            let last = HeldView { column, key: found[n - 1].key };
            assert(list[list.len() - 1] == last);
            assert(found[n - 1].key == last.key);
            if h.column == column && h.key == last.key {
                assert(h =~= last);
            }
            if list.contains(h) && h != last {
                let k = choose|k: int| 0 <= k < list.len() && list[k] == h;
                assert(rest[k] == h);
            }
        }
    }
}

/// After the object store answered, the rows that it holds are held as well as those that
/// were held before; nothing else changes.
pub proof fn the_store_adds_what_it_holds(
    s: ApplyView,
    column: BlobColumn,
    found: Seq<EmptyRowView>,
    exists: Seq<bool>,
    h: HeldView,
)
    ensures
        ({
            let after = s.holding(column, found, exists);
            &&& after.held.contains(h) <==> s.held.contains(h) || (h.column == column
                && exists|i: int|
                0 <= i < found.len() && (#[trigger] found[i]).key == h.key && (i >= exists.len()
                    || exists[i]))
            &&& after == (ApplyView { held: after.held, ..s })
        }),
{
    let more = held_rows(column, found, exists, found.len() as int);
    let all = s.held + more;
    a_row_is_held_unless_the_store_lacks_it(column, found, exists, found.len() as int, h);
    if s.held.contains(h) {
        let k = choose|k: int| 0 <= k < s.held.len() && s.held[k] == h;
        assert(all[k] == h);
    }
    if more.contains(h) {
        let k = choose|k: int| 0 <= k < more.len() && more[k] == h;
        assert(all[s.held.len() + k] == h);
    }
    if all.contains(h) {
        let k = choose|k: int| 0 <= k < all.len() && all[k] == h;
        if k < s.held.len() {
            assert(s.held[k] == h);
        } else {
            assert(more[k - s.held.len()] == h);
        }
    }
}

// ---------------------------------------------------------------------------
// Lookups
// ---------------------------------------------------------------------------

proof fn given_in_order<T>(
    rows: Seq<T>,
    list: Seq<Option<Seq<char>>>,
    known: spec_fn(T) -> bool,
    key: spec_fn(T) -> Seq<char>,
)
    requires
        list.len() == rows.len(),
        forall|i: int|
            0 <= i < rows.len() ==> #[trigger] list[i] == if known(rows[i]) {
                Some(key(rows[i]))
            } else {
                None
            },
    ensures
        given(list) == rows.filter(known).map_values(key),
    decreases rows.len(),
{
    reveal(Seq::filter);
    if rows.len() > 0 {
        let n = rows.len() - 1;
        assert forall|i: int| 0 <= i < n implies #[trigger] list.drop_last()[i] == if known(
            rows.drop_last()[i],
        ) {
            Some(key(rows.drop_last()[i]))
        } else {
            None
        } by {
            assert(list.drop_last()[i] == list[i]);
        }
        given_in_order(rows.drop_last(), list.drop_last(), known, key);
        assert(list[n] == if known(rows[n]) {
            Some(key(rows[n]))
        } else {
            None
        });
        let before = rows.drop_last().filter(known);
        if known(rows[n]) {
            assert(before.push(rows[n]).map_values(key) =~= before.map_values(key).push(
                key(rows[n]),
            ));
        }
    }
    assert(given(list) =~= rows.filter(known).map_values(key));
}

/// Whether a blob has bytes and stands in its column.
pub open spec fn stands_inline(data: Option<Vec<u8>>) -> bool {
    data matches Some(bytes) && bytes@.len() > 0 && bytes@.len() <= THRESHOLD
}

/// A column is looked at for exactly the rows of the chunk with a blob that would stand in
/// it: requests by their txid, transactions by their reference, and outputs whose transaction
/// is known by that and by their place.
pub proof fn every_inline_blob_is_looked_at(s: ApplyView)
    ensures
        s.wanted(BlobColumn::RequestBeef) == rows_of(s.chunk.proven_tx_reqs).filter(
            |r: TableProvenTxReq| stands_inline(r.input_beef),
        ).map_values(|r: TableProvenTxReq| r.txid@),
        s.wanted(BlobColumn::RawTx) == rows_of(s.chunk.transactions).filter(
            |tx: TableTransaction| stands_inline(tx.raw_tx),
        ).map_values(|tx: TableTransaction| tx.reference@),
        s.wanted(BlobColumn::InputBeef) == rows_of(s.chunk.transactions).filter(
            |tx: TableTransaction| stands_inline(tx.input_beef),
        ).map_values(|tx: TableTransaction| tx.reference@),
        s.wanted(BlobColumn::LockingScript) == rows_of(s.chunk.outputs).filter(
            |o: TableOutput| parent_transaction(s, o) is Some && stands_inline(o.locking_script),
        ).map_values(|o: TableOutput| output_key(parent_transaction(s, o)->0, o.vout)),
{
    let reqs = rows_of(s.chunk.proven_tx_reqs);
    given_in_order(
        reqs,
        Seq::new(
            reqs.len(),
            |i: int|
                if crate::storage::apply::short(reqs[i].input_beef) {
                    Some(reqs[i].txid@)
                } else {
                    None
                },
        ),
        |r: TableProvenTxReq| stands_inline(r.input_beef),
        |r: TableProvenTxReq| r.txid@,
    );
    let txs = rows_of(s.chunk.transactions);
    given_in_order(
        txs,
        Seq::new(
            txs.len(),
            |i: int|
                if crate::storage::apply::short(txs[i].raw_tx) {
                    Some(txs[i].reference@)
                } else {
                    None
                },
        ),
        |tx: TableTransaction| stands_inline(tx.raw_tx),
        |tx: TableTransaction| tx.reference@,
    );
    given_in_order(
        txs,
        Seq::new(
            txs.len(),
            |i: int|
                if crate::storage::apply::short(txs[i].input_beef) {
                    Some(txs[i].reference@)
                } else {
                    None
                },
        ),
        |tx: TableTransaction| stands_inline(tx.input_beef),
        |tx: TableTransaction| tx.reference@,
    );
    let outputs = rows_of(s.chunk.outputs);
    let list = Seq::new(outputs.len(), |i: int| s.wanted_output(outputs[i]));
    let known = |o: TableOutput|
        parent_transaction(s, o) is Some && stands_inline(o.locking_script);
    let key = |o: TableOutput| output_key(parent_transaction(s, o)->0, o.vout);
    assert forall|i: int| 0 <= i < outputs.len() implies #[trigger] list[i] == if known(
        outputs[i],
    ) {
        Some(key(outputs[i]))
    } else {
        None
    } by {
        a_parent_is_found_by_id_or_by_name(s, outputs[i], arbitrary());
    }
    given_in_order(outputs, list, known, key);
}

/// Each proof that a transaction of the chunk names is among the txids that are looked up,
/// and each transaction that is named as a spender of an output among the references.
pub proof fn every_name_is_collected(txs: Seq<TableTransaction>, outputs: Seq<TableOutput>)
    ensures
        proof_txids(txs) == txs.filter(
            |tx: TableTransaction| tx.proof_txid is Some,
        ).map_values(|tx: TableTransaction| tx.proof_txid->0@),
        spend_references(outputs) == outputs.filter(
            |o: TableOutput| o.spent_by_reference is Some,
        ).map_values(|o: TableOutput| o.spent_by_reference->0@),
    decreases txs.len() + outputs.len(),
{
    reveal(Seq::filter);
    let named = |tx: TableTransaction| tx.proof_txid is Some;
    let txid = |tx: TableTransaction| tx.proof_txid->0@;
    if txs.len() > 0 {
        every_name_is_collected(txs.drop_last(), Seq::empty());
        let kept = txs.drop_last().filter(named);
        if named(txs.last()) {
            assert(kept.push(txs.last()).map_values(txid) =~= kept.map_values(txid).push(
                txid(txs.last()),
            ));
        }
    }
    assert(proof_txids(txs) =~= txs.filter(named).map_values(txid));
    let spent = |o: TableOutput| o.spent_by_reference is Some;
    let reference = |o: TableOutput| o.spent_by_reference->0@;
    if outputs.len() > 0 {
        every_name_is_collected(Seq::empty(), outputs.drop_last());
        let kept = outputs.drop_last().filter(spent);
        if spent(outputs.last()) {
            assert(kept.push(outputs.last()).map_values(reference) =~= kept.map_values(
                reference,
            ).push(reference(outputs.last())));
        }
    }
    assert(spend_references(outputs) =~= outputs.filter(spent).map_values(reference));
}

/// Whether statements ask for a key, for a user where one is bound.
pub open spec fn asks_for(list: Seq<QueryView>, user_id: Option<i64>, key: Seq<char>) -> bool {
    exists|g: int, k: int|
        0 <= g < list.len() && 0 <= k < list[g].params.len() && #[trigger] list[g].params[k]
            == SqlValue::Text(key) && (user_id matches Some(id) ==> k > 0 && list[g].params[0]
            == SqlValue::Int(id as int))
}

pub(crate) proof fn asked(select: Seq<char>, user_id: Option<i64>, all: Seq<Seq<char>>, key: Seq<char>)
    requires
        all.contains(key),
    ensures
        asks_for(group_queries(select, user_id, sorted_set(all)), user_id, key),
{
    let keys = sorted_set(all);
    sorted_set_is_one(all);
    assert(keys.contains(key));
    let i = choose|i: int| 0 <= i < keys.len() && keys[i] == key;
    every_key_is_asked_for(select, user_id, keys, i);
    let list = group_queries(select, user_id, keys);
    let g = i / (crate::storage::lookup::KEYS_PER_QUERY as int);
    let k = i % (crate::storage::lookup::KEYS_PER_QUERY as int);
    let first: int = if user_id is Some {
        1
    } else {
        0
    };
    assert(list[g].params[first + k] == SqlValue::Text(key));
}

/// Every name by which a parent may be known outside the chunk is looked up, whatever else
/// the chunk carries: the txid of each output and the reference of each spender among the
/// transactions of the user, and the txid of each proof that a transaction names.
pub proof fn every_name_is_looked_up(s: ApplyView, i: int)
    ensures
        ({
            let outputs = rows_of(s.chunk.outputs);
            let txs = rows_of(s.chunk.transactions);
            &&& 0 <= i < outputs.len() ==> asks_for(
                s.txid_queries(),
                Some(s.user_id),
                outputs[i].txid@,
            )
            &&& 0 <= i < outputs.len() && outputs[i].spent_by_reference is Some ==> asks_for(
                s.spend_queries(),
                Some(s.user_id),
                outputs[i].spent_by_reference->0@,
            )
            &&& 0 <= i < txs.len() && txs[i].proof_txid is Some ==> asks_for(
                s.proof_queries(),
                None,
                txs[i].proof_txid->0@,
            )
        }),
{
    let outputs = rows_of(s.chunk.outputs);
    let txs = rows_of(s.chunk.transactions);
    every_name_is_collected(txs, outputs);
    if 0 <= i < outputs.len() {
        let txids = Seq::new(outputs.len(), |k: int| outputs[k].txid@);
        assert(txids[i] == outputs[i].txid@);
        asked(
            crate::storage::lookup::txid_select("transactions"@, "transaction_id"@, true),
            Some(s.user_id),
            txids,
            outputs[i].txid@,
        );
        if outputs[i].spent_by_reference is Some {
            let spent = |o: TableOutput| o.spent_by_reference is Some;
            outputs.lemma_filter_contains(spent, i);
            let kept = outputs.filter(spent);
            let k = choose|k: int| 0 <= k < kept.len() && kept[k] == outputs[i];
            assert(spend_references(outputs)[k] == outputs[i].spent_by_reference->0@);
            asked(
                crate::storage::lookup::reference_select(),
                Some(s.user_id),
                spend_references(outputs),
                outputs[i].spent_by_reference->0@,
            );
        }
    }
    if 0 <= i < txs.len() && txs[i].proof_txid is Some {
        let named = |tx: TableTransaction| tx.proof_txid is Some;
        txs.lemma_filter_contains(named, i);
        let kept = txs.filter(named);
        let k = choose|k: int| 0 <= k < kept.len() && kept[k] == txs[i];
        assert(proof_txids(txs)[k] == txs[i].proof_txid->0@);
        asked(
            crate::storage::lookup::txid_select("proven_txs"@, "proven_tx_id"@, false),
            None,
            proof_txids(txs),
            txs[i].proof_txid->0@,
        );
    }
}

} // verus!
