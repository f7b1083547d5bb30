//! How the statements that merge a row one by one agree with the one that merges it in a
//! batch: they bind the same values to the same columns.

use crate::entities::{
    TableCertificate, TableCertificateField, TableCommission, TableOutput, TableOutputBasket,
    TableOutputTag, TableProvenTx, TableProvenTxReq, TableTransaction, TableTxLabel,
};

use crate::sql::names::Column;
use crate::sql::plan::{lookup_text, InsertView, Slot, UpdateView, UpsertView};
use crate::sql::query::{QueryView, SqlValue};
use crate::storage::sequential::{
    basket_insert, basket_insert_query, basket_lookup, basket_update, basket_update_query,
    certificate_field_insert, certificate_field_insert_query, certificate_field_lookup,
    certificate_field_update, certificate_field_update_query, certificate_insert,
    certificate_insert_query, certificate_lookup, certificate_update, certificate_update_query,
    commission_insert, commission_insert_query, commission_lookup, commission_update,
    commission_update_query, output_insert, output_insert_query, output_lookup, output_tag_insert,
    output_tag_insert_query, output_tag_lookup, output_tag_map_insert, output_tag_map_insert_query,
    output_tag_map_lookup, output_tag_map_update, output_tag_map_update_query, output_tag_update,
    output_tag_update_query, output_update, output_update_query, proven_tx_insert,
    proven_tx_insert_query, proven_tx_lookup, proven_tx_req_insert, proven_tx_req_insert_query,
    proven_tx_req_lookup, proven_tx_req_update, proven_tx_req_update_query, proven_tx_update,
    proven_tx_update_query, transaction_insert, transaction_insert_query, transaction_lookup,
    transaction_update, transaction_update_query, tx_label_insert, tx_label_insert_query,
    tx_label_lookup, tx_label_map_insert, tx_label_map_insert_query, tx_label_map_lookup,
    tx_label_map_update, tx_label_map_update_query, tx_label_update, tx_label_update_query,
};
use crate::storage::upsert::{
    basket_merge, basket_query, certificate_field_merge, certificate_field_query, certificate_merge,
    certificate_query, commission_merge, commission_query, output_merge, output_query,
    output_tag_map_merge, output_tag_map_query, output_tag_merge, output_tag_query, proven_tx_merge,
    proven_tx_query, proven_tx_req_merge, proven_tx_req_query, transaction_merge, transaction_query,
    tx_label_map_merge, tx_label_map_query, tx_label_merge, tx_label_query,
};
use crate::time::Timestamp;
use vstd::prelude::*;

verus! {

/// The values at some places.
pub open spec fn values_at(params: Seq<SqlValue>, places: Seq<int>) -> Seq<SqlValue> {
    Seq::new(places.len(), |k: int| params[places[k]])
}

/// The columns at some places.
pub open spec fn columns_at(merge: UpsertView, places: Seq<int>) -> Seq<Column> {
    Seq::new(places.len(), |k: int| merge.insert.columns[places[k]].0)
}

/// Whether a lookup asks, in the table of the merge, for the values that the merge binds at
/// some places.
pub open spec fn looks_up(
    lookup: QueryView,
    merge: UpsertView,
    batch: QueryView,
    places: Seq<int>,
) -> bool {
    &&& lookup.sql == lookup_text(merge.insert.table, merge.returning, columns_at(merge, places))
    &&& lookup.params == values_at(batch.params, places)
}

/// Whether an insert is in the table of the merge and binds to some of its columns what the
/// merge binds to them.
pub open spec fn inserts(
    insert: InsertView,
    q: QueryView,
    merge: UpsertView,
    batch: QueryView,
    places: Seq<int>,
) -> bool {
    &&& q.sql == insert.text()
    &&& insert.table == merge.insert.table
    &&& q.params == values_at(batch.params, places)
}

/// Whether an update is in the table of the merge, is of the row with the id, and binds to some
/// of its columns what the merge binds to them.
pub open spec fn updates(
    update: UpdateView,
    q: QueryView,
    merge: UpsertView,
    batch: QueryView,
    places: Seq<int>,
    local_id: i64,
) -> bool {
    &&& q.sql == update.text()
    &&& update.table == merge.insert.table
    &&& update.id == merge.returning
    &&& update.sets.len() == places.len()
    &&& forall|k: int|
        0 <= k < places.len() ==> (#[trigger] update.sets[k]).column
            == merge.insert.columns[places[k]].0
    &&& q.params == values_at(batch.params, places).push(SqlValue::Int(local_id as int))
}

/// A basket.
pub proof fn basket_statements_agree(user_id: i64, b: TableOutputBasket, local_id: i64)
    ensures
        ({
            let merge = basket_merge();
            let batch = basket_query(user_id, b);
            let insert = basket_insert();
            &&& looks_up(basket_lookup(user_id, b), merge, batch, seq![0, 1])
            &&& insert.columns == merge.insert.columns
            &&& inserts(
                insert,
                basket_insert_query(user_id, b),
                merge,
                batch,
                seq![0, 1, 2, 3, 4, 5],
            )
            &&& updates(
                basket_update(),
                basket_update_query(b, local_id),
                merge,
                batch,
                seq![2, 3, 5],
                local_id,
            )
        }),
{
    let merge = basket_merge();
    let batch = basket_query(user_id, b);
    assert(columns_at(merge, seq![0, 1]) =~= seq![Column::UserId, Column::Name]);
    assert(basket_lookup(user_id, b).params =~= values_at(batch.params, seq![0, 1]));
    assert(basket_insert_query(user_id, b).params =~= values_at(
        batch.params,
        seq![0, 1, 2, 3, 4, 5],
    ));
    assert(basket_update_query(b, local_id).params =~= values_at(
        batch.params,
        seq![2, 3, 5],
    ).push(SqlValue::Int(local_id as int)));
}

/// A proven transaction.
pub proof fn proven_tx_statements_agree(p: TableProvenTx, local_id: i64)
    ensures
        ({
            let merge = proven_tx_merge();
            let batch = proven_tx_query(p);
            let insert = proven_tx_insert();
            &&& looks_up(proven_tx_lookup(p), merge, batch, seq![0])
            &&& insert.columns == merge.insert.columns
            &&& inserts(
                insert,
                proven_tx_insert_query(p),
                merge,
                batch,
                seq![0, 1, 2, 3, 4, 5, 6, 7, 8],
            )
            &&& updates(
                proven_tx_update(),
                proven_tx_update_query(p, local_id),
                merge,
                batch,
                seq![1, 2, 3, 4, 5, 6, 8],
                local_id,
            )
        }),
{
    let merge = proven_tx_merge();
    let batch = proven_tx_query(p);
    assert(columns_at(merge, seq![0]) =~= seq![Column::Txid]);
    assert(proven_tx_lookup(p).params =~= values_at(batch.params, seq![0]));
    assert(proven_tx_insert_query(p).params =~= values_at(
        batch.params,
        seq![0, 1, 2, 3, 4, 5, 6, 7, 8],
    ));
    assert(proven_tx_update_query(p, local_id).params =~= values_at(
        batch.params,
        seq![1, 2, 3, 4, 5, 6, 8],
    ).push(SqlValue::Int(local_id as int)));
}

/// A request for a proof. The blob is filled in afterwards.
pub proof fn proven_tx_req_statements_agree(req: TableProvenTxReq, local_id: i64)
    ensures
        ({
            let merge = proven_tx_req_merge();
            let batch = proven_tx_req_query(req);
            let insert = proven_tx_req_insert();
            &&& looks_up(proven_tx_req_lookup(req), merge, batch, seq![0])
            &&& insert.columns == merge.insert.columns.update(7, (Column::InputBeef, Slot::Null))
            &&& inserts(
                insert,
                proven_tx_req_insert_query(req),
                merge,
                batch,
                seq![0, 1, 2, 3, 4, 5, 6, 8, 9, 10, 11],
            )
            &&& updates(
                proven_tx_req_update(),
                proven_tx_req_update_query(req, local_id),
                merge,
                batch,
                seq![1, 2, 3, 5, 4, 6, 8, 9, 11],
                local_id,
            )
        }),
{
    let merge = proven_tx_req_merge();
    let batch = proven_tx_req_query(req);
    assert(columns_at(merge, seq![0]) =~= seq![Column::Txid]);
    assert(proven_tx_req_lookup(req).params =~= values_at(batch.params, seq![0]));
    assert(proven_tx_req_insert().columns =~= merge.insert.columns.update(
        7,
        (Column::InputBeef, Slot::Null),
    ));
    assert(proven_tx_req_insert_query(req).params =~= values_at(
        batch.params,
        seq![0, 1, 2, 3, 4, 5, 6, 8, 9, 10, 11],
    ));
    assert(proven_tx_req_update_query(req, local_id).params =~= values_at(
        batch.params,
        seq![1, 2, 3, 5, 4, 6, 8, 9, 11],
    ).push(SqlValue::Int(local_id as int)));
}

/// A label of a transaction.
pub proof fn tx_label_statements_agree(user_id: i64, l: TableTxLabel, local_id: i64)
    ensures
        ({
            let merge = tx_label_merge();
            let batch = tx_label_query(user_id, l);
            let insert = tx_label_insert();
            &&& looks_up(tx_label_lookup(user_id, l), merge, batch, seq![0, 1])
            &&& insert.columns == merge.insert.columns
            &&& inserts(
                insert,
                tx_label_insert_query(user_id, l),
                merge,
                batch,
                seq![0, 1, 2, 3],
            )
            &&& updates(
                tx_label_update(),
                tx_label_update_query(l, local_id),
                merge,
                batch,
                seq![3],
                local_id,
            )
        }),
{
    let merge = tx_label_merge();
    let batch = tx_label_query(user_id, l);
    assert(columns_at(merge, seq![0, 1]) =~= seq![Column::UserId, Column::Label]);
    assert(tx_label_lookup(user_id, l).params =~= values_at(batch.params, seq![0, 1]));
    assert(tx_label_insert_query(user_id, l).params =~= values_at(
        batch.params,
        seq![0, 1, 2, 3],
    ));
    assert(tx_label_update_query(l, local_id).params =~= values_at(batch.params, seq![3]).push(
        SqlValue::Int(local_id as int),
    ));
}

/// A tag of an output.
pub proof fn output_tag_statements_agree(user_id: i64, t: TableOutputTag, local_id: i64)
    ensures
        ({
            let merge = output_tag_merge();
            let batch = output_tag_query(user_id, t);
            let insert = output_tag_insert();
            &&& looks_up(output_tag_lookup(user_id, t), merge, batch, seq![0, 1])
            &&& insert.columns == merge.insert.columns
            &&& inserts(
                insert,
                output_tag_insert_query(user_id, t),
                merge,
                batch,
                seq![0, 1, 2, 3],
            )
            &&& updates(
                output_tag_update(),
                output_tag_update_query(t, local_id),
                merge,
                batch,
                seq![3],
                local_id,
            )
        }),
{
    let merge = output_tag_merge();
    let batch = output_tag_query(user_id, t);
    assert(columns_at(merge, seq![0, 1]) =~= seq![Column::UserId, Column::Tag]);
    assert(output_tag_lookup(user_id, t).params =~= values_at(batch.params, seq![0, 1]));
    assert(output_tag_insert_query(user_id, t).params =~= values_at(
        batch.params,
        seq![0, 1, 2, 3],
    ));
    assert(output_tag_update_query(t, local_id).params =~= values_at(batch.params, seq![3]).push(
        SqlValue::Int(local_id as int),
    ));
}

/// A transaction. Its blobs are filled in afterwards, and its proof is linked apart.
pub proof fn transaction_statements_agree(
    user_id: i64,
    tx: TableTransaction,
    proof_fk: Option<i64>,
    local_id: i64,
)
    ensures
        ({
            let merge = transaction_merge();
            let batch = transaction_query(user_id, tx, proof_fk);
            let insert = transaction_insert();
            &&& looks_up(transaction_lookup(user_id, tx), merge, batch, seq![0, 3])
            &&& insert.columns == merge.insert.columns.update(
                10,
                (Column::RawTx, Slot::Null),
            ).update(11, (Column::InputBeef, Slot::Null))
            &&& inserts(
                insert,
                transaction_insert_query(user_id, tx, proof_fk),
                merge,
                batch,
                seq![0, 1, 2, 3, 4, 5, 6, 7, 8, 9, 12, 13],
            )
            &&& updates(
                transaction_update(),
                transaction_update_query(tx, local_id),
                merge,
                batch,
                seq![1, 2, 4, 5, 6, 7, 8, 13],
                local_id,
            )
        }),
{
    let merge = transaction_merge();
    let batch = transaction_query(user_id, tx, proof_fk);
    assert(columns_at(merge, seq![0, 3]) =~= seq![Column::UserId, Column::Reference]);
    assert(transaction_lookup(user_id, tx).params =~= values_at(batch.params, seq![0, 3]));
    assert(transaction_insert().columns =~= merge.insert.columns.update(
        10,
        (Column::RawTx, Slot::Null),
    ).update(11, (Column::InputBeef, Slot::Null)));
    assert(transaction_insert_query(user_id, tx, proof_fk).params =~= values_at(
        batch.params,
        seq![0, 1, 2, 3, 4, 5, 6, 7, 8, 9, 12, 13],
    ));
    assert(transaction_update_query(tx, local_id).params =~= values_at(
        batch.params,
        seq![1, 2, 4, 5, 6, 7, 8, 13],
    ).push(SqlValue::Int(local_id as int)));
}

/// A transaction is linked to the local proof that was found for it, whatever else it carries,
/// and to none where none was found.
pub proof fn a_transaction_is_linked_to_its_proof(
    user_id: i64,
    tx: TableTransaction,
    fk: i64,
)
    ensures
        transaction_merge().insert.columns[9].0 == Column::ProvenTxId,
        transaction_query(user_id, tx, Some(fk)).params[9] == SqlValue::Int(fk as int),
        transaction_query(user_id, tx, None).params[9] == SqlValue::Null,
{
}

/// An output. Its blob is filled in afterwards, and its spender is not told. The condition on
/// its basket asks for the user.
pub proof fn output_statements_agree(
    user_id: i64,
    o: TableOutput,
    tx_id: i64,
    basket_id: Option<i64>,
    spent_by: Option<i64>,
    local_id: i64,
)
    ensures
        ({
            let merge = output_merge();
            let batch = output_query(user_id, o, tx_id, basket_id, spent_by);
            let insert = output_insert();
            let update = output_update();
            let places = seq![1int, 2, 5, 7, 8, 9, 12, 13, 14, 15, 16, 17, 20];
            let q = output_update_query(user_id, o, tx_id, basket_id, local_id);
            &&& looks_up(output_lookup(user_id, o), merge, batch, seq![0, 3, 4])
            &&& insert.columns == merge.insert.columns.update(
                6,
                (Column::LockingScript, Slot::Null),
            ).remove(18)
            &&& inserts(
                insert,
                output_insert_query(user_id, o, tx_id, basket_id),
                merge,
                batch,
                seq![0, 1, 2, 3, 4, 5, 7, 8, 9, 10, 11, 12, 13, 14, 15, 16, 17, 19, 20],
            )
            &&& q.sql == update.text()
            &&& update.table == merge.insert.table
            &&& update.id == merge.returning
            &&& update.sets.len() == 13
            &&& forall|k: int|
                0 <= k < 13 ==> (#[trigger] update.sets[k]).column
                    == merge.insert.columns[places[k]].0
            &&& q.params == values_at(
                batch.params,
                seq![1, 0, 2, 5, 7, 8, 9, 12, 13, 14, 15, 16, 17, 20],
            ).push(SqlValue::Int(local_id as int))
        }),
{
    let merge = output_merge();
    let batch = output_query(user_id, o, tx_id, basket_id, spent_by);
    assert(columns_at(merge, seq![0, 3, 4]) =~= seq![Column::UserId, Column::Txid, Column::Vout]);
    assert(output_lookup(user_id, o).params =~= values_at(batch.params, seq![0, 3, 4]));
    assert(output_insert().columns =~= merge.insert.columns.update(
        6,
        (Column::LockingScript, Slot::Null),
    ).remove(18));
    assert(output_insert_query(user_id, o, tx_id, basket_id).params =~= values_at(
        batch.params,
        seq![0, 1, 2, 3, 4, 5, 7, 8, 9, 10, 11, 12, 13, 14, 15, 16, 17, 19, 20],
    ));
    assert(output_update_query(user_id, o, tx_id, basket_id, local_id).params =~= values_at(
        batch.params,
        seq![1, 0, 2, 5, 7, 8, 9, 12, 13, 14, 15, 16, 17, 20],
    ).push(SqlValue::Int(local_id as int)));
}

/// A label on a transaction.
pub proof fn tx_label_map_statements_agree(
    tx_id: i64,
    label_id: i64,
    updated_at: Timestamp,
    created_at: Timestamp,
    local_id: i64,
)
    ensures
        ({
            let merge = tx_label_map_merge();
            let batch = tx_label_map_query(tx_id, label_id, updated_at, created_at);
            let insert = tx_label_map_insert();
            let q = tx_label_map_update_query(updated_at, local_id);
            let update = tx_label_map_update();
            &&& tx_label_map_lookup(tx_id, label_id).sql == lookup_text(
                merge.insert.table,
                merge.returning,
                seq![Column::TransactionId, Column::TxLabelId],
            )
            &&& tx_label_map_lookup(tx_id, label_id).params == seq![
                batch.params[1],
                batch.params[0],
            ]
            &&& insert.columns == merge.insert.columns.remove(2)
            &&& inserts(
                insert,
                tx_label_map_insert_query(tx_id, label_id, updated_at, created_at),
                merge,
                batch,
                seq![0, 1, 2, 3],
            )
            &&& q.sql == update.text()
            &&& update.table == merge.insert.table
            &&& update.id == merge.returning
            &&& update.sets.len() == 2
            &&& update.sets[1].column == Column::UpdatedAt
            &&& q.params == seq![batch.params[3], SqlValue::Int(local_id as int)]
        }),
{
    let merge = tx_label_map_merge();
    let batch = tx_label_map_query(tx_id, label_id, updated_at, created_at);
    assert(tx_label_map_insert().columns =~= merge.insert.columns.remove(2));
    assert(tx_label_map_insert_query(tx_id, label_id, updated_at, created_at).params
        =~= values_at(batch.params, seq![0, 1, 2, 3]));
}

/// A tag on an output.
pub proof fn output_tag_map_statements_agree(
    output_id: i64,
    tag_id: i64,
    updated_at: Timestamp,
    created_at: Timestamp,
    local_id: i64,
)
    ensures
        ({
            let merge = output_tag_map_merge();
            let batch = output_tag_map_query(output_id, tag_id, updated_at, created_at);
            let insert = output_tag_map_insert();
            let q = output_tag_map_update_query(updated_at, local_id);
            let update = output_tag_map_update();
            &&& output_tag_map_lookup(output_id, tag_id).sql == lookup_text(
                merge.insert.table,
                merge.returning,
                seq![Column::OutputTagId, Column::OutputId],
            )
            &&& output_tag_map_lookup(output_id, tag_id).params == seq![
                batch.params[0],
                batch.params[1],
            ]
            &&& insert.columns == merge.insert.columns.remove(2)
            &&& inserts(
                insert,
                output_tag_map_insert_query(output_id, tag_id, updated_at, created_at),
                merge,
                batch,
                seq![0, 1, 2, 3],
            )
            &&& q.sql == update.text()
            &&& update.table == merge.insert.table
            &&& update.id == merge.returning
            &&& update.sets.len() == 2
            &&& update.sets[1].column == Column::UpdatedAt
            &&& q.params == seq![batch.params[3], SqlValue::Int(local_id as int)]
        }),
{
    let merge = output_tag_map_merge();
    let batch = output_tag_map_query(output_id, tag_id, updated_at, created_at);
    assert(output_tag_map_insert().columns =~= merge.insert.columns.remove(2));
    assert(output_tag_map_insert_query(output_id, tag_id, updated_at, created_at).params
        =~= values_at(batch.params, seq![0, 1, 2, 3]));
}

/// A certificate.
pub proof fn certificate_statements_agree(user_id: i64, c: TableCertificate, local_id: i64)
    ensures
        ({
            let merge = certificate_merge();
            let batch = certificate_query(user_id, c);
            let insert = certificate_insert();
            &&& looks_up(certificate_lookup(user_id, c), merge, batch, seq![0, 2, 3, 1])
            &&& insert.columns == merge.insert.columns
            &&& inserts(
                insert,
                certificate_insert_query(user_id, c),
                merge,
                batch,
                seq![0, 1, 2, 3, 4, 5, 6, 7, 8, 9],
            )
            &&& updates(
                certificate_update(),
                certificate_update_query(c, local_id),
                merge,
                batch,
                seq![4, 5, 6, 7, 9],
                local_id,
            )
        }),
{
    let merge = certificate_merge();
    let batch = certificate_query(user_id, c);
    assert(columns_at(merge, seq![0, 2, 3, 1]) =~= seq![
        Column::UserId,
        Column::Type,
        Column::Certifier,
        Column::SerialNumber,
    ]);
    assert(certificate_lookup(user_id, c).params =~= values_at(batch.params, seq![0, 2, 3, 1]));
    assert(certificate_insert_query(user_id, c).params =~= values_at(
        batch.params,
        seq![0, 1, 2, 3, 4, 5, 6, 7, 8, 9],
    ));
    assert(certificate_update_query(c, local_id).params =~= values_at(
        batch.params,
        seq![4, 5, 6, 7, 9],
    ).push(SqlValue::Int(local_id as int)));
}

/// A field of a certificate.
pub proof fn certificate_field_statements_agree(
    user_id: i64,
    f: TableCertificateField,
    cert_id: i64,
    local_id: i64,
)
    ensures
        ({
            let merge = certificate_field_merge();
            let batch = certificate_field_query(user_id, f, cert_id);
            let insert = certificate_field_insert();
            &&& looks_up(certificate_field_lookup(f, cert_id), merge, batch, seq![1, 2])
            &&& insert.columns == merge.insert.columns
            &&& inserts(
                insert,
                certificate_field_insert_query(user_id, f, cert_id),
                merge,
                batch,
                seq![0, 1, 2, 3, 4, 5, 6],
            )
            &&& updates(
                certificate_field_update(),
                certificate_field_update_query(f, local_id),
                merge,
                batch,
                seq![3, 4, 6],
                local_id,
            )
        }),
{
    let merge = certificate_field_merge();
    let batch = certificate_field_query(user_id, f, cert_id);
    assert(columns_at(merge, seq![1, 2]) =~= seq![Column::CertificateId, Column::FieldName]);
    assert(certificate_field_lookup(f, cert_id).params =~= values_at(batch.params, seq![1, 2]));
    assert(certificate_field_insert_query(user_id, f, cert_id).params =~= values_at(
        batch.params,
        seq![0, 1, 2, 3, 4, 5, 6],
    ));
    assert(certificate_field_update_query(f, local_id).params =~= values_at(
        batch.params,
        seq![3, 4, 6],
    ).push(SqlValue::Int(local_id as int)));
}

/// A commission.
pub proof fn commission_statements_agree(
    user_id: i64,
    c: TableCommission,
    tx_id: i64,
    local_id: i64,
)
    ensures
        ({
            let merge = commission_merge();
            let batch = commission_query(user_id, c, tx_id);
            let insert = commission_insert();
            &&& looks_up(commission_lookup(tx_id), merge, batch, seq![1])
            &&& insert.columns == merge.insert.columns
            &&& inserts(
                insert,
                commission_insert_query(user_id, c, tx_id),
                merge,
                batch,
                seq![0, 1, 2, 3, 4, 5, 6, 7],
            )
            &&& updates(
                commission_update(),
                commission_update_query(c, local_id),
                merge,
                batch,
                seq![2, 3, 4, 5, 7],
                local_id,
            )
        }),
{
    let merge = commission_merge();
    let batch = commission_query(user_id, c, tx_id);
    assert(columns_at(merge, seq![1]) =~= seq![Column::TransactionId]);
    assert(commission_lookup(tx_id).params =~= values_at(batch.params, seq![1]));
    assert(commission_insert_query(user_id, c, tx_id).params =~= values_at(
        batch.params,
        seq![0, 1, 2, 3, 4, 5, 6, 7],
    ));
    assert(commission_update_query(c, local_id).params =~= values_at(
        batch.params,
        seq![2, 3, 4, 5, 7],
    ).push(SqlValue::Int(local_id as int)));
}

} // verus!
