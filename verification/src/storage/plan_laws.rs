//! Which rows of a chunk a phase merges and under which parents, said of the ids that are
//! known and of the rows that the lookups answered.

use crate::entities::{
    TableCertificate, TableCertificateField, TableCommission, TableOutput, TableOutputBasket,
    TableOutputTag, TableOutputTagMap, TableProvenTx, TableProvenTxReq, TableTransaction,
    TableTxLabel, TableTxLabelMap,
};
use crate::sql::query::{QueryView, SqlValue};
use crate::storage::apply::{
    found, kept, output_key, rows_of, ApplyView, BlobColumn, EntryView, FillView, HeldView, Phase,
};
use crate::storage::lookup::{absorbed, KeyedId};
use crate::storage::upsert::{
    basket_query, certificate_field_query, certificate_query, commission_query, output_query,
    output_tag_map_query, output_tag_query, proven_tx_query, proven_tx_req_query, transaction_query,
    tx_label_map_query, tx_label_query,
};
use vstd::prelude::*;

verus! {

// ---------------------------------------------------------------------------
// Answers of a lookup
// ---------------------------------------------------------------------------

/// Whether a row of an answer tells the id of a key.
pub open spec fn tells(row: KeyedId, key: Seq<char>) -> bool {
    row.id is Some && (row.key matches Some(k) && k@ == key)
}

/// Whether a row is the last one of an answer that tells the id of a key.
pub open spec fn tells_last(rows: Seq<KeyedId>, key: Seq<char>, i: int) -> bool {
    &&& 0 <= i < rows.len()
    &&& tells(rows[i], key)
    &&& forall|j: int| i < j < rows.len() ==> !tells(#[trigger] rows[j], key)
}

/// The id that an answer tells of a key: that of the last row with the key and an id.
pub open spec fn id_under(rows: Seq<KeyedId>, key: Seq<char>) -> Option<i64> {
    if exists|i: int| tells_last(rows, key, i) {
        rows[choose|i: int| tells_last(rows, key, i)].id
    } else {
        None
    }
}

/// A lookup by an answer finds the id of the last row that tells one.
pub proof fn the_last_answer_counts(rows: Seq<KeyedId>, key: Seq<char>)
    ensures
        found(absorbed(Map::empty(), rows), key) == id_under(rows, key),
    decreases rows.len(),
{
    if rows.len() > 0 {
        let rest = rows.drop_last();
        let n = rows.len() - 1;
        the_last_answer_counts(rest, key);
        if tells(rows[n], key) {
            assert(tells_last(rows, key, n));
            let i = choose|i: int| tells_last(rows, key, i);
            assert(i == n) by {
                if i < n {
                    assert(!tells(rows[n], key));
                }
            }
        } else {
            assert forall|i: int| tells_last(rows, key, i) <==> tells_last(rest, key, i) by {
                if tells_last(rows, key, i) {
                    assert forall|j: int| i < j < rest.len() implies !tells(
                        #[trigger] rest[j],
                        key,
                    ) by {
                        assert(rest[j] == rows[j]);
                    }
                }
                if tells_last(rest, key, i) {
                    assert forall|j: int| i < j < rows.len() implies !tells(
                        #[trigger] rows[j],
                        key,
                    ) by {
                        if j < n {
                            assert(rest[j] == rows[j]);
                        }
                    }
                }
            }
            if exists|i: int| tells_last(rows, key, i) {
                let a = choose|i: int| tells_last(rows, key, i);
                let b = choose|i: int| tells_last(rest, key, i);
                assert(tells_last(rest, key, a) && tells_last(rows, key, b));
                assert(a == b) by {
                    if a < b {
                        assert(!tells(rows[b], key));
                    }
                    if b < a {
                        assert(!tells(rows[a], key));
                    }
                }
            }
        }
    } else {
        assert(!exists|i: int| tells_last(rows, key, i));
    }
}

/// The rows of an entity are those that the chunk carries, and none where it carries none.
pub proof fn rows_are_those_of_the_chunk<T>(rows: Vec<T>)
    ensures
        rows_of(Some(rows)) == rows@,
        rows_of::<T>(None) == Seq::<T>::empty(),
{
}

// ---------------------------------------------------------------------------
// Parents
// ---------------------------------------------------------------------------

/// The local transaction of an output: the one that its id in the chunk was recorded under;
/// else, whatever else the chunk carries, the one that was answered for its txid.
pub open spec fn parent_transaction(s: ApplyView, o: TableOutput) -> Option<i64> {
    if s.ids.transactions.contains_key(o.transaction_id) {
        Some(s.ids.transactions[o.transaction_id])
    } else {
        id_under(s.txids, o.txid@)
    }
}

/// The local basket of an output: the one that its id in the chunk was recorded under; else
/// the one that was answered for its name.
pub open spec fn parent_basket(s: ApplyView, o: TableOutput) -> Option<i64> {
    if o.basket_id is Some && s.ids.baskets.contains_key(o.basket_id->0) {
        Some(s.ids.baskets[o.basket_id->0])
    } else if o.basket_name is Some {
        id_under(s.basket_names, o.basket_name->0@)
    } else {
        None
    }
}

/// The local spender of an output: the one that its id in the chunk was recorded under; else
/// the one that was answered for its reference.
pub open spec fn parent_spender(s: ApplyView, o: TableOutput) -> Option<i64> {
    if o.spent_by is Some && s.ids.transactions.contains_key(o.spent_by->0) {
        Some(s.ids.transactions[o.spent_by->0])
    } else if o.spent_by_reference is Some {
        id_under(s.spends, o.spent_by_reference->0@)
    } else {
        None
    }
}

/// The local proof of a transaction: the one that was answered for the txid that it names.
pub open spec fn parent_proof(s: ApplyView, tx: TableTransaction) -> Option<i64> {
    if tx.proof_txid is Some {
        id_under(s.proofs, tx.proof_txid->0@)
    } else {
        None
    }
}

/// An output is merged under the local transaction that its id in the chunk was recorded
/// under, else under the one that was answered for its txid; it is left out exactly where
/// there is neither.
pub proof fn a_parent_is_found_by_id_or_by_name(
    s: ApplyView,
    o: TableOutput,
    tx: TableTransaction,
)
    ensures
        s.transaction_of(o) == parent_transaction(s, o),
        s.basket_of(o) == parent_basket(s, o),
        s.spender_of(o) == parent_spender(s, o),
        s.proof_of(tx) == parent_proof(s, tx),
{
    the_last_answer_counts(s.txids, o.txid@);
    if o.basket_name is Some {
        the_last_answer_counts(s.basket_names, o.basket_name->0@);
    }
    if o.spent_by_reference is Some {
        the_last_answer_counts(s.spends, o.spent_by_reference->0@);
    }
    if tx.proof_txid is Some {
        the_last_answer_counts(s.proofs, tx.proof_txid->0@);
    }
}

// ---------------------------------------------------------------------------
// Entries
// ---------------------------------------------------------------------------

proof fn kept_in_order<T>(
    rows: Seq<T>,
    list: Seq<Option<EntryView>>,
    known: spec_fn(T) -> bool,
    entry: spec_fn(T) -> EntryView,
)
    requires
        list.len() == rows.len(),
        forall|i: int|
            0 <= i < rows.len() ==> #[trigger] list[i] == if known(rows[i]) {
                Some(entry(rows[i]))
            } else {
                None
            },
    ensures
        kept(list) == rows.filter(known).map_values(entry),
    decreases rows.len(),
{
    reveal(Seq::filter);
    if rows.len() > 0 {
        let n = rows.len() - 1;
        assert forall|i: int| 0 <= i < n implies #[trigger] list.drop_last()[i] == if known(
            rows.drop_last()[i],
        ) {
            Some(entry(rows.drop_last()[i]))
        } else {
            None
        } by {
            assert(list.drop_last()[i] == list[i]);
        }
        kept_in_order(rows.drop_last(), list.drop_last(), known, entry);
        assert(list[n] == if known(rows[n]) {
            Some(entry(rows[n]))
        } else {
            None
        });
        let before = rows.drop_last().filter(known);
        if known(rows[n]) {
            assert(before.push(rows[n]).map_values(entry) =~= before.map_values(entry).push(
                entry(rows[n]),
            ));
        }
    }
    assert(kept(list) =~= rows.filter(known).map_values(entry));
}

/// A statement with `NULL` bound in one place.
pub open spec fn without(q: QueryView, i: int) -> QueryView {
    QueryView { sql: q.sql, params: q.params.update(i, SqlValue::Null) }
}

/// Whether the object store was found to hold a blob of a column.
pub open spec fn store_has(s: ApplyView, column: BlobColumn, key: Seq<char>) -> bool {
    exists|i: int|
        0 <= i < s.held.len() && (#[trigger] s.held[i]).column == column && s.held[i].key == key
}

proof fn held_is_held(s: ApplyView, column: BlobColumn, key: Seq<char>)
    ensures
        s.is_held(column, key) == store_has(s, column, key),
{
    if s.is_held(column, key) {
        let i = choose|i: int| 0 <= i < s.held.len() && s.held[i] == (HeldView { column, key });
        assert(s.held[i].column == column && s.held[i].key == key);
    }
    if store_has(s, column, key) {
        let i = choose|i: int|
            0 <= i < s.held.len() && (#[trigger] s.held[i]).column == column && s.held[i].key
                == key;
        assert(s.held[i] =~= (HeldView { column, key }));
    }
}

/// The blob of a column that goes to the object store: one that is too long to stand in it.
pub open spec fn long_blob(table: Seq<char>, column: Seq<char>, data: Option<Vec<u8>>) -> Seq<
    FillView,
> {
    match data {
        Some(bytes) => if bytes@.len() > crate::r2::THRESHOLD {
            seq![FillView { table, column, bytes: bytes@ }]
        } else {
            Seq::empty()
        },
        None => Seq::empty(),
    }
}

proof fn long_blobs_overflow(table: Seq<char>, column: Seq<char>, data: Option<Vec<u8>>)
    ensures
        crate::storage::apply::overflow_fill(table, column, data) == long_blob(
            table,
            column,
            data,
        ),
{
}

/// What an output is merged with.
pub open spec fn output_due(s: ApplyView, o: TableOutput) -> EntryView {
    let tx_id = parent_transaction(s, o)->0;
    let whole = output_query(s.user_id, o, tx_id, parent_basket(s, o), parent_spender(s, o));
    EntryView {
        query: if store_has(s, BlobColumn::LockingScript, output_key(tx_id, o.vout)) {
            without(whole, 6)
        } else {
            whole
        },
        foreign: o.output_id,
        updated_at: o.updated_at,
        fills: long_blob("outputs"@, "locking_script"@, o.locking_script),
    }
}

/// The outputs of a chunk are merged in their order, each under its local transaction, basket
/// and spender; those whose transaction is known neither by id nor by txid are left out, and
/// no others.
pub proof fn outputs_are_merged_under_their_parents(s: ApplyView)
    ensures
        s.planned(Phase::Outputs) == rows_of(s.chunk.outputs).filter(
            |o: TableOutput| parent_transaction(s, o) is Some,
        ).map_values(|o: TableOutput| output_due(s, o)),
{
    let rows = rows_of(s.chunk.outputs);
    let list = Seq::new(rows.len(), |i: int| s.output_entry(rows[i]));
    let known = |o: TableOutput| parent_transaction(s, o) is Some;
    let entry = |o: TableOutput| output_due(s, o);
    assert forall|i: int| 0 <= i < rows.len() implies #[trigger] list[i] == if known(rows[i]) {
        Some(entry(rows[i]))
    } else {
        None
    } by {
        one_output(s, rows[i]);
    }
    kept_in_order(rows, list, known, entry);
}

proof fn one_output(s: ApplyView, o: TableOutput)
    ensures
        s.output_entry(o) == if parent_transaction(s, o) is Some {
            Some(output_due(s, o))
        } else {
            None
        },
{
    let tx = arbitrary::<TableTransaction>();
    a_parent_is_found_by_id_or_by_name(s, o, tx);
    if let Some(tx_id) = parent_transaction(s, o) {
        held_is_held(s, BlobColumn::LockingScript, output_key(tx_id, o.vout));
        long_blobs_overflow("outputs"@, "locking_script"@, o.locking_script);
        assert(s.output_entry(o)->0 =~= output_due(s, o));
    }
}

/// What a transaction is merged with.
pub open spec fn transaction_due(s: ApplyView, tx: TableTransaction) -> EntryView {
    let whole = transaction_query(s.user_id, tx, parent_proof(s, tx));
    let without_raw = if store_has(s, BlobColumn::RawTx, tx.reference@) {
        without(whole, 10)
    } else {
        whole
    };
    EntryView {
        query: if store_has(s, BlobColumn::InputBeef, tx.reference@) {
            without(without_raw, 11)
        } else {
            without_raw
        },
        foreign: tx.transaction_id,
        updated_at: tx.updated_at,
        fills: long_blob("transactions"@, "raw_tx"@, tx.raw_tx) + long_blob(
            "transactions"@,
            "input_beef"@,
            tx.input_beef,
        ),
    }
}

/// The transactions of a chunk are merged in their order and none is left out, each with the
/// local proof that was answered for it.
pub proof fn transactions_are_merged_with_their_proofs(s: ApplyView)
    ensures
        s.planned(Phase::Transactions) == rows_of(s.chunk.transactions).map_values(
            |tx: TableTransaction| transaction_due(s, tx),
        ),
{
    let rows = rows_of(s.chunk.transactions);
    assert forall|i: int| 0 <= i < rows.len() implies s.transaction_entry(#[trigger] rows[i])
        == transaction_due(s, rows[i]) by {
        one_transaction(s, rows[i]);
    }
    assert(s.planned(Phase::Transactions) =~= rows.map_values(
        |tx: TableTransaction| transaction_due(s, tx),
    ));
}

proof fn one_transaction(s: ApplyView, tx: TableTransaction)
    ensures
        s.transaction_entry(tx) == transaction_due(s, tx),
{
    let o = arbitrary::<TableOutput>();
    a_parent_is_found_by_id_or_by_name(s, o, tx);
    held_is_held(s, BlobColumn::RawTx, tx.reference@);
    held_is_held(s, BlobColumn::InputBeef, tx.reference@);
    long_blobs_overflow("transactions"@, "raw_tx"@, tx.raw_tx);
    long_blobs_overflow("transactions"@, "input_beef"@, tx.input_beef);
}

/// What a request for a proof is merged with.
pub open spec fn request_due(s: ApplyView, req: TableProvenTxReq) -> EntryView {
    EntryView {
        query: if store_has(s, BlobColumn::RequestBeef, req.txid@) {
            without(proven_tx_req_query(req), 7)
        } else {
            proven_tx_req_query(req)
        },
        foreign: req.proven_tx_req_id,
        updated_at: req.updated_at,
        fills: long_blob("proven_tx_reqs"@, "input_beef"@, req.input_beef),
    }
}

/// The requests for proofs of a chunk are merged in their order and none is left out.
pub proof fn requests_are_all_merged(s: ApplyView)
    ensures
        s.planned(Phase::ProvenTxReqs) == rows_of(s.chunk.proven_tx_reqs).map_values(
            |req: TableProvenTxReq| request_due(s, req),
        ),
{
    let rows = rows_of(s.chunk.proven_tx_reqs);
    assert forall|i: int| 0 <= i < rows.len() implies s.proven_tx_req_entry(#[trigger] rows[i])
        == request_due(s, rows[i]) by {
        held_is_held(s, BlobColumn::RequestBeef, rows[i].txid@);
        long_blobs_overflow("proven_tx_reqs"@, "input_beef"@, rows[i].input_beef);
    }
    assert(s.planned(Phase::ProvenTxReqs) =~= rows.map_values(
        |req: TableProvenTxReq| request_due(s, req),
    ));
}

/// An entry without blobs for the object store.
pub open spec fn plain(
    query: QueryView,
    foreign: i64,
    updated_at: crate::time::Timestamp,
) -> EntryView {
    EntryView { query, foreign, updated_at, fills: Seq::empty() }
}

/// The rows without a parent in the chunk are all merged, in their order, for the user of the
/// merge.
pub proof fn rows_without_a_parent_are_all_merged(s: ApplyView)
    ensures
        s.planned(Phase::Baskets) == rows_of(s.chunk.output_baskets).map_values(
            |b: TableOutputBasket| plain(basket_query(s.user_id, b), b.basket_id, b.updated_at),
        ),
        s.planned(Phase::ProvenTxs) == rows_of(s.chunk.proven_txs).map_values(
            |p: TableProvenTx| plain(proven_tx_query(p), p.proven_tx_id, p.updated_at),
        ),
        s.planned(Phase::TxLabels) == rows_of(s.chunk.tx_labels).map_values(
            |l: TableTxLabel| plain(tx_label_query(s.user_id, l), l.label_id, l.updated_at),
        ),
        s.planned(Phase::OutputTags) == rows_of(s.chunk.output_tags).map_values(
            |t: TableOutputTag| plain(output_tag_query(s.user_id, t), t.tag_id, t.updated_at),
        ),
        s.planned(Phase::Certificates) == rows_of(s.chunk.certificates).map_values(
            |c: TableCertificate|
                plain(certificate_query(s.user_id, c), c.certificate_id, c.updated_at),
        ),
        s.planned(Phase::Finished).len() == 0,
{
    assert(s.planned(Phase::Baskets) =~= rows_of(s.chunk.output_baskets).map_values(
        |b: TableOutputBasket| plain(basket_query(s.user_id, b), b.basket_id, b.updated_at),
    ));
    assert(s.planned(Phase::ProvenTxs) =~= rows_of(s.chunk.proven_txs).map_values(
        |p: TableProvenTx| plain(proven_tx_query(p), p.proven_tx_id, p.updated_at),
    ));
    assert(s.planned(Phase::TxLabels) =~= rows_of(s.chunk.tx_labels).map_values(
        |l: TableTxLabel| plain(tx_label_query(s.user_id, l), l.label_id, l.updated_at),
    ));
    assert(s.planned(Phase::OutputTags) =~= rows_of(s.chunk.output_tags).map_values(
        |t: TableOutputTag| plain(output_tag_query(s.user_id, t), t.tag_id, t.updated_at),
    ));
    assert(s.planned(Phase::Certificates) =~= rows_of(s.chunk.certificates).map_values(
        |c: TableCertificate| plain(certificate_query(s.user_id, c), c.certificate_id, c.updated_at),
    ));
}

/// A field of a certificate is merged under the local certificate, and left out exactly where
/// the certificate was not recorded.
pub proof fn fields_are_merged_under_their_certificates(s: ApplyView)
    ensures
        s.planned(Phase::CertificateFields) == rows_of(s.chunk.certificate_fields).filter(
            |f: TableCertificateField| s.ids.certificates.contains_key(f.certificate_id),
        ).map_values(
            |f: TableCertificateField|
                plain(
                    certificate_field_query(s.user_id, f, s.ids.certificates[f.certificate_id]),
                    f.certificate_field_id,
                    f.updated_at,
                ),
        ),
{
    let rows = rows_of(s.chunk.certificate_fields);
    let list = Seq::new(rows.len(), |i: int| s.certificate_field_entry(rows[i]));
    kept_in_order(
        rows,
        list,
        |f: TableCertificateField| s.ids.certificates.contains_key(f.certificate_id),
        |f: TableCertificateField|
            plain(
                certificate_field_query(s.user_id, f, s.ids.certificates[f.certificate_id]),
                f.certificate_field_id,
                f.updated_at,
            ),
    );
}

/// A label is put on its local transaction, and left out exactly where the transaction or the
/// label was not recorded.
pub proof fn labels_are_put_on_their_transactions(s: ApplyView)
    ensures
        s.planned(Phase::TxLabelMaps) == rows_of(s.chunk.tx_label_maps).filter(
            |m: TableTxLabelMap|
                s.ids.transactions.contains_key(m.transaction_id) && s.ids.labels.contains_key(
                    m.label_id,
                ),
        ).map_values(
            |m: TableTxLabelMap|
                plain(
                    tx_label_map_query(
                        s.ids.transactions[m.transaction_id],
                        s.ids.labels[m.label_id],
                        m.updated_at,
                        m.created_at,
                    ),
                    m.tx_label_map_id,
                    m.updated_at,
                ),
        ),
{
    let rows = rows_of(s.chunk.tx_label_maps);
    let list = Seq::new(rows.len(), |i: int| s.tx_label_map_entry(rows[i]));
    kept_in_order(
        rows,
        list,
        |m: TableTxLabelMap|
            s.ids.transactions.contains_key(m.transaction_id) && s.ids.labels.contains_key(
                m.label_id,
            ),
        |m: TableTxLabelMap|
            plain(
                tx_label_map_query(
                    s.ids.transactions[m.transaction_id],
                    s.ids.labels[m.label_id],
                    m.updated_at,
                    m.created_at,
                ),
                m.tx_label_map_id,
                m.updated_at,
            ),
    );
}

/// A tag is put on its local output, and left out exactly where the output or the tag was not
/// recorded.
pub proof fn tags_are_put_on_their_outputs(s: ApplyView)
    ensures
        s.planned(Phase::OutputTagMaps) == rows_of(s.chunk.output_tag_maps).filter(
            |m: TableOutputTagMap|
                s.ids.outputs.contains_key(m.output_id) && s.ids.tags.contains_key(m.tag_id),
        ).map_values(
            |m: TableOutputTagMap|
                plain(
                    output_tag_map_query(
                        s.ids.outputs[m.output_id],
                        s.ids.tags[m.tag_id],
                        m.updated_at,
                        m.created_at,
                    ),
                    m.output_tag_map_id,
                    m.updated_at,
                ),
        ),
{
    let rows = rows_of(s.chunk.output_tag_maps);
    let list = Seq::new(rows.len(), |i: int| s.output_tag_map_entry(rows[i]));
    kept_in_order(
        rows,
        list,
        |m: TableOutputTagMap|
            s.ids.outputs.contains_key(m.output_id) && s.ids.tags.contains_key(m.tag_id),
        |m: TableOutputTagMap|
            plain(
                output_tag_map_query(
                    s.ids.outputs[m.output_id],
                    s.ids.tags[m.tag_id],
                    m.updated_at,
                    m.created_at,
                ),
                m.output_tag_map_id,
                m.updated_at,
            ),
    );
}

/// A commission is merged under its local transaction, and left out exactly where that was
/// not recorded.
pub proof fn commissions_are_merged_under_their_transactions(s: ApplyView)
    ensures
        s.planned(Phase::Commissions) == rows_of(s.chunk.commissions).filter(
            |c: TableCommission| s.ids.transactions.contains_key(c.transaction_id),
        ).map_values(
            |c: TableCommission|
                plain(
                    commission_query(s.user_id, c, s.ids.transactions[c.transaction_id]),
                    c.commission_id,
                    c.updated_at,
                ),
        ),
{
    let rows = rows_of(s.chunk.commissions);
    let list = Seq::new(rows.len(), |i: int| s.commission_entry(rows[i]));
    kept_in_order(
        rows,
        list,
        |c: TableCommission| s.ids.transactions.contains_key(c.transaction_id),
        |c: TableCommission|
            plain(
                commission_query(s.user_id, c, s.ids.transactions[c.transaction_id]),
                c.commission_id,
                c.updated_at,
            ),
    );
}

} // verus!
