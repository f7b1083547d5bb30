//! The statements of a merge row by row: for each entity a lookup by its key, an insert
//! for a row that is not there, and an update for one that is older.

use crate::entities::{
    TableCertificate, TableCertificateField, TableCommission, TableOutput, TableOutputBasket,
    TableOutputTag, TableProvenTx, TableProvenTxReq, TableTransaction, TableTxLabel,
};
use crate::sql::expr::{assigns, Arm, Assign, AssignView, Cond, Pick, Subject};
use crate::sql::names::{Column, Table};
use crate::sql::plan::{
    all_bound, bind_all, binding, bound, lookup_sql, lookup_text, only, only_if, set_all_bound,
    set_bound, Insert, InsertView, Slot, Update, UpdateView,
};
use crate::sql::query::{
    bytes_param, flag_param, flag_value, int_param, int_value, optional_text_param, text_param,
    text_value, Param, Query, QueryView, SqlValue,
};
use crate::storage::upsert::{
    bytes_or_empty, bytes_or_none, provided_by, provided_by_text, purpose, purpose_text,
};
use crate::time::Timestamp;
use vstd::prelude::*;

verus! {

/// Yields `kept` where the condition holds, and takes the incoming value else.
pub open spec fn kept_when(column: Column, cond: Cond, kept: Pick) -> AssignView {
    AssignView {
        column,
        arms: seq![Arm { when: only(cond), yields: kept }],
        otherwise: Pick::Incoming,
    }
}

fn set_kept(column: Column, cond: Cond, kept: Pick) -> (set: Assign)
    ensures
        set@ == kept_when(column, cond, kept),
{
    let set = Assign {
        column,
        arms: vec![Arm { when: only_if(cond), yields: kept }],
        otherwise: Pick::Incoming,
    };
    assert(set@ =~= kept_when(column, cond, kept));
    set
}

/// Takes the incoming value where the condition holds, and keeps the stored one else.
pub open spec fn filled_when(column: Column, cond: Cond) -> AssignView {
    AssignView {
        column,
        arms: seq![Arm { when: only(cond), yields: Pick::Incoming }],
        otherwise: Pick::Stored,
    }
}

fn set_filled(column: Column, cond: Cond) -> (set: Assign)
    ensures
        set@ == filled_when(column, cond),
{
    let set = Assign {
        column,
        arms: vec![Arm { when: only_if(cond), yields: Pick::Incoming }],
        otherwise: Pick::Stored,
    };
    assert(set@ =~= filled_when(column, cond));
    set
}

/// Takes the mark of deletion away.
pub open spec fn restored() -> AssignView {
    AssignView { column: Column::IsDeleted, arms: Seq::empty(), otherwise: Pick::Zero }
}

fn set_restored() -> (set: Assign)
    ensures
        set@ == restored(),
{
    let set = Assign { column: Column::IsDeleted, arms: Vec::new(), otherwise: Pick::Zero };
    assert(set@ =~= restored());
    set
}

// basket

pub open spec fn basket_lookup(user_id: i64, b: TableOutputBasket) -> QueryView {
    QueryView {
        sql: lookup_text(
            Table::OutputBaskets,
            Column::BasketId,
            seq![Column::UserId, Column::Name],
        ),
        params: seq![
            SqlValue::Int(user_id as int),
            SqlValue::Text(b.name@),
        ],
    }
}

/// Looks up a basket by its key.
pub fn lookup_basket(user_id: i64, b: &TableOutputBasket) -> (q: Query)
    ensures
        q@ == basket_lookup(user_id, *b),
{
    let key = vec![Column::UserId, Column::Name];
    assert(key@ =~= seq![Column::UserId, Column::Name]);
    let params = vec![
        Param::Int(user_id),
        text_param(b.name.as_str()),
    ];
    let q = Query { sql: lookup_sql(Table::OutputBaskets, Column::BasketId, &key), params };
    assert(q@ =~= basket_lookup(user_id, *b));
    q
}

pub open spec fn basket_insert() -> InsertView {
    InsertView {
        table: Table::OutputBaskets,
        columns: binding(
            seq![
                Column::UserId, Column::Name, Column::NumberOfDesiredUtxos,
                Column::MinimumDesiredUtxoValue, Column::CreatedAt, Column::UpdatedAt,
            ],
        ),
    }
}

fn basket_insertion() -> (plan: Insert)
    ensures
        plan@ == basket_insert(),
{
    let plan = Insert {
        table: Table::OutputBaskets,
        columns: bind_all(
            &vec![
                Column::UserId, Column::Name, Column::NumberOfDesiredUtxos,
                Column::MinimumDesiredUtxoValue, Column::CreatedAt, Column::UpdatedAt,
            ],
        ),
    };
    assert(plan@ =~= basket_insert());
    plan
}

pub open spec fn basket_insert_query(user_id: i64, b: TableOutputBasket) -> QueryView {
    QueryView {
        sql: basket_insert().text(),
        params: seq![
            SqlValue::Int(user_id as int),
            SqlValue::Text(b.name@),
            SqlValue::Int(b.number_of_desired_utxos as int),
            SqlValue::Int(b.minimum_desired_utxo_value as int),
            SqlValue::Time(b.created_at),
            SqlValue::Time(b.updated_at),
        ],
    }
}

/// Inserts a basket.
pub fn insert_basket(user_id: i64, b: &TableOutputBasket) -> (q: Query)
    ensures
        q@ == basket_insert_query(user_id, *b),
{
    let params = vec![
        Param::Int(user_id),
        text_param(b.name.as_str()),
        Param::Int(b.number_of_desired_utxos as i64),
        Param::Int(b.minimum_desired_utxo_value),
        Param::Time(b.created_at),
        Param::Time(b.updated_at),
    ];
    let q = Query { sql: basket_insertion().sql(), params };
    assert(q@ =~= basket_insert_query(user_id, *b));
    q
}

pub open spec fn basket_update() -> UpdateView {
    UpdateView {
        table: Table::OutputBaskets,
        sets: all_bound(
            seq![
                Column::NumberOfDesiredUtxos, Column::MinimumDesiredUtxoValue,
                Column::UpdatedAt,
            ],
        ),
        id: Column::BasketId,
    }
}

/// The update as a plan.
pub fn basket_updating() -> (plan: Update)
    ensures
        plan@ == basket_update(),
{
    let plan = Update {
        table: Table::OutputBaskets,
        sets: set_all_bound(
            &vec![
                Column::NumberOfDesiredUtxos, Column::MinimumDesiredUtxoValue,
                Column::UpdatedAt,
            ],
        ),
        id: Column::BasketId,
    };
    assert(plan@ =~= basket_update());
    plan
}

pub open spec fn basket_update_query(b: TableOutputBasket, local_id: i64) -> QueryView {
    QueryView {
        sql: basket_update().text(),
        params: seq![
            SqlValue::Int(b.number_of_desired_utxos as int),
            SqlValue::Int(b.minimum_desired_utxo_value as int),
            SqlValue::Time(b.updated_at),
            SqlValue::Int(local_id as int),
        ],
    }
}

/// Updates a basket that is older than the incoming one.
pub fn update_basket(b: &TableOutputBasket, local_id: i64) -> (q: Query)
    ensures
        q@ == basket_update_query(*b, local_id),
{
    let params = vec![
        Param::Int(b.number_of_desired_utxos as i64),
        Param::Int(b.minimum_desired_utxo_value),
        Param::Time(b.updated_at),
        Param::Int(local_id),
    ];
    let q = Query { sql: basket_updating().sql(), params };
    assert(q@ =~= basket_update_query(*b, local_id));
    q
}

// proven tx

pub open spec fn proven_tx_lookup(p: TableProvenTx) -> QueryView {
    QueryView {
        sql: lookup_text(
            Table::ProvenTxs,
            Column::ProvenTxId,
            seq![Column::Txid],
        ),
        params: seq![
            SqlValue::Text(p.txid@),
        ],
    }
}

/// Looks up a proven transaction by its key.
pub fn lookup_proven_tx(p: &TableProvenTx) -> (q: Query)
    ensures
        q@ == proven_tx_lookup(*p),
{
    let key = vec![Column::Txid];
    assert(key@ =~= seq![Column::Txid]);
    let params = vec![
        text_param(p.txid.as_str()),
    ];
    let q = Query { sql: lookup_sql(Table::ProvenTxs, Column::ProvenTxId, &key), params };
    assert(q@ =~= proven_tx_lookup(*p));
    q
}

pub open spec fn proven_tx_insert() -> InsertView {
    InsertView {
        table: Table::ProvenTxs,
        columns: binding(
            seq![
                Column::Txid, Column::Height, Column::Idx, Column::BlockHash,
                Column::MerkleRoot, Column::MerklePath, Column::RawTx, Column::CreatedAt,
                Column::UpdatedAt,
            ],
        ),
    }
}

fn proven_tx_insertion() -> (plan: Insert)
    ensures
        plan@ == proven_tx_insert(),
{
    let plan = Insert {
        table: Table::ProvenTxs,
        columns: bind_all(
            &vec![
                Column::Txid, Column::Height, Column::Idx, Column::BlockHash,
                Column::MerkleRoot, Column::MerklePath, Column::RawTx, Column::CreatedAt,
                Column::UpdatedAt,
            ],
        ),
    };
    assert(plan@ =~= proven_tx_insert());
    plan
}

pub open spec fn proven_tx_insert_query(p: TableProvenTx) -> QueryView {
    QueryView {
        sql: proven_tx_insert().text(),
        params: seq![
            SqlValue::Text(p.txid@),
            SqlValue::Int(p.height as int),
            SqlValue::Int(p.index as int),
            SqlValue::Text(p.block_hash@),
            SqlValue::Text(p.merkle_root@),
            SqlValue::Blob(p.merkle_path@),
            SqlValue::Blob(p.raw_tx@),
            SqlValue::Time(p.created_at),
            SqlValue::Time(p.updated_at),
        ],
    }
}

/// Inserts a proven transaction.
pub fn insert_proven_tx(p: &TableProvenTx) -> (q: Query)
    ensures
        q@ == proven_tx_insert_query(*p),
{
    let params = vec![
        text_param(p.txid.as_str()),
        Param::Int(p.height),
        Param::Int(p.index),
        text_param(p.block_hash.as_str()),
        text_param(p.merkle_root.as_str()),
        bytes_param(p.merkle_path.as_slice()),
        bytes_param(p.raw_tx.as_slice()),
        Param::Time(p.created_at),
        Param::Time(p.updated_at),
    ];
    let q = Query { sql: proven_tx_insertion().sql(), params };
    assert(q@ =~= proven_tx_insert_query(*p));
    q
}

pub open spec fn proven_tx_update() -> UpdateView {
    UpdateView {
        table: Table::ProvenTxs,
        sets: all_bound(
            seq![
                Column::Height, Column::Idx, Column::BlockHash, Column::MerkleRoot,
                Column::MerklePath, Column::RawTx, Column::UpdatedAt,
            ],
        ),
        id: Column::ProvenTxId,
    }
}

/// The update as a plan.
pub fn proven_tx_updating() -> (plan: Update)
    ensures
        plan@ == proven_tx_update(),
{
    let plan = Update {
        table: Table::ProvenTxs,
        sets: set_all_bound(
            &vec![
                Column::Height, Column::Idx, Column::BlockHash, Column::MerkleRoot,
                Column::MerklePath, Column::RawTx, Column::UpdatedAt,
            ],
        ),
        id: Column::ProvenTxId,
    };
    assert(plan@ =~= proven_tx_update());
    plan
}

pub open spec fn proven_tx_update_query(p: TableProvenTx, local_id: i64) -> QueryView {
    QueryView {
        sql: proven_tx_update().text(),
        params: seq![
            SqlValue::Int(p.height as int),
            SqlValue::Int(p.index as int),
            SqlValue::Text(p.block_hash@),
            SqlValue::Text(p.merkle_root@),
            SqlValue::Blob(p.merkle_path@),
            SqlValue::Blob(p.raw_tx@),
            SqlValue::Time(p.updated_at),
            SqlValue::Int(local_id as int),
        ],
    }
}

/// Updates a proven transaction that is older than the incoming one.
pub fn update_proven_tx(p: &TableProvenTx, local_id: i64) -> (q: Query)
    ensures
        q@ == proven_tx_update_query(*p, local_id),
{
    let params = vec![
        Param::Int(p.height),
        Param::Int(p.index),
        text_param(p.block_hash.as_str()),
        text_param(p.merkle_root.as_str()),
        bytes_param(p.merkle_path.as_slice()),
        bytes_param(p.raw_tx.as_slice()),
        Param::Time(p.updated_at),
        Param::Int(local_id),
    ];
    let q = Query { sql: proven_tx_updating().sql(), params };
    assert(q@ =~= proven_tx_update_query(*p, local_id));
    q
}

// proven tx req

pub open spec fn proven_tx_req_lookup(req: TableProvenTxReq) -> QueryView {
    QueryView {
        sql: lookup_text(
            Table::ProvenTxReqs,
            Column::ProvenTxReqId,
            seq![Column::Txid],
        ),
        params: seq![
            SqlValue::Text(req.txid@),
        ],
    }
}

/// Looks up a proof request by its key.
pub fn lookup_proven_tx_req(req: &TableProvenTxReq) -> (q: Query)
    ensures
        q@ == proven_tx_req_lookup(*req),
{
    let key = vec![Column::Txid];
    assert(key@ =~= seq![Column::Txid]);
    let params = vec![
        text_param(req.txid.as_str()),
    ];
    let q = Query { sql: lookup_sql(Table::ProvenTxReqs, Column::ProvenTxReqId, &key), params };
    assert(q@ =~= proven_tx_req_lookup(*req));
    q
}

pub open spec fn proven_tx_req_insert() -> InsertView {
    InsertView {
        table: Table::ProvenTxReqs,
        columns: seq![
            (Column::Txid, Slot::Bind), (Column::Status, Slot::Bind),
            (Column::Attempts, Slot::Bind), (Column::History, Slot::Bind),
            (Column::Notify, Slot::Bind), (Column::Notified, Slot::Bind),
            (Column::RawTx, Slot::Bind), (Column::InputBeef, Slot::Null),
            (Column::ProvenTxId, Slot::Bind), (Column::Batch, Slot::Bind),
            (Column::CreatedAt, Slot::Bind), (Column::UpdatedAt, Slot::Bind),
        ],
    }
}

fn proven_tx_req_insertion() -> (plan: Insert)
    ensures
        plan@ == proven_tx_req_insert(),
{
    let plan = Insert {
        table: Table::ProvenTxReqs,
        columns: vec![
            (Column::Txid, Slot::Bind), (Column::Status, Slot::Bind),
            (Column::Attempts, Slot::Bind), (Column::History, Slot::Bind),
            (Column::Notify, Slot::Bind), (Column::Notified, Slot::Bind),
            (Column::RawTx, Slot::Bind), (Column::InputBeef, Slot::Null),
            (Column::ProvenTxId, Slot::Bind), (Column::Batch, Slot::Bind),
            (Column::CreatedAt, Slot::Bind), (Column::UpdatedAt, Slot::Bind),
        ],
    };
    assert(plan@ =~= proven_tx_req_insert());
    plan
}

pub open spec fn proven_tx_req_insert_query(req: TableProvenTxReq) -> QueryView {
    QueryView {
        sql: proven_tx_req_insert().text(),
        params: seq![
            SqlValue::Text(req.txid@),
            SqlValue::Text(req.status@),
            SqlValue::Int(req.attempts as int),
            SqlValue::Text(req.history@),
            SqlValue::Text(req.notify@),
            flag_value(req.notified),
            SqlValue::Blob(bytes_or_none(req.raw_tx)),
            int_value(req.proven_tx_id),
            text_value(req.batch),
            SqlValue::Time(req.created_at),
            SqlValue::Time(req.updated_at),
        ],
    }
}

/// Inserts a proof request.
pub fn insert_proven_tx_req(req: &TableProvenTxReq) -> (q: Query)
    ensures
        q@ == proven_tx_req_insert_query(*req),
{
    let params = vec![
        text_param(req.txid.as_str()),
        text_param(req.status.as_str()),
        Param::Int(req.attempts as i64),
        text_param(req.history.as_str()),
        text_param(req.notify.as_str()),
        flag_param(req.notified),
        bytes_or_empty(&req.raw_tx),
        int_param(req.proven_tx_id),
        optional_text_param(&req.batch),
        Param::Time(req.created_at),
        Param::Time(req.updated_at),
    ];
    let q = Query { sql: proven_tx_req_insertion().sql(), params };
    assert(q@ =~= proven_tx_req_insert_query(*req));
    q
}

pub open spec fn proven_tx_req_update() -> UpdateView {
    UpdateView {
        table: Table::ProvenTxReqs,
        sets: all_bound(
            seq![
                Column::Status, Column::Attempts, Column::History, Column::Notified,
                Column::Notify, Column::RawTx, Column::ProvenTxId, Column::Batch,
                Column::UpdatedAt,
            ],
        ),
        id: Column::ProvenTxReqId,
    }
}

/// The update as a plan.
pub fn proven_tx_req_updating() -> (plan: Update)
    ensures
        plan@ == proven_tx_req_update(),
{
    let plan = Update {
        table: Table::ProvenTxReqs,
        sets: set_all_bound(
            &vec![
                Column::Status, Column::Attempts, Column::History, Column::Notified,
                Column::Notify, Column::RawTx, Column::ProvenTxId, Column::Batch,
                Column::UpdatedAt,
            ],
        ),
        id: Column::ProvenTxReqId,
    };
    assert(plan@ =~= proven_tx_req_update());
    plan
}

pub open spec fn proven_tx_req_update_query(req: TableProvenTxReq, local_id: i64) -> QueryView {
    QueryView {
        sql: proven_tx_req_update().text(),
        params: seq![
            SqlValue::Text(req.status@),
            SqlValue::Int(req.attempts as int),
            SqlValue::Text(req.history@),
            flag_value(req.notified),
            SqlValue::Text(req.notify@),
            SqlValue::Blob(bytes_or_none(req.raw_tx)),
            int_value(req.proven_tx_id),
            text_value(req.batch),
            SqlValue::Time(req.updated_at),
            SqlValue::Int(local_id as int),
        ],
    }
}

/// Updates a proof request that is older than the incoming one.
pub fn update_proven_tx_req(req: &TableProvenTxReq, local_id: i64) -> (q: Query)
    ensures
        q@ == proven_tx_req_update_query(*req, local_id),
{
    let params = vec![
        text_param(req.status.as_str()),
        Param::Int(req.attempts as i64),
        text_param(req.history.as_str()),
        flag_param(req.notified),
        text_param(req.notify.as_str()),
        bytes_or_empty(&req.raw_tx),
        int_param(req.proven_tx_id),
        optional_text_param(&req.batch),
        Param::Time(req.updated_at),
        Param::Int(local_id),
    ];
    let q = Query { sql: proven_tx_req_updating().sql(), params };
    assert(q@ =~= proven_tx_req_update_query(*req, local_id));
    q
}

// tx label

pub open spec fn tx_label_lookup(user_id: i64, l: TableTxLabel) -> QueryView {
    QueryView {
        sql: lookup_text(
            Table::TxLabels,
            Column::TxLabelId,
            seq![Column::UserId, Column::Label],
        ),
        params: seq![
            SqlValue::Int(user_id as int),
            SqlValue::Text(l.label@),
        ],
    }
}

/// Looks up a label by its key.
pub fn lookup_tx_label(user_id: i64, l: &TableTxLabel) -> (q: Query)
    ensures
        q@ == tx_label_lookup(user_id, *l),
{
    let key = vec![Column::UserId, Column::Label];
    assert(key@ =~= seq![Column::UserId, Column::Label]);
    let params = vec![
        Param::Int(user_id),
        text_param(l.label.as_str()),
    ];
    let q = Query { sql: lookup_sql(Table::TxLabels, Column::TxLabelId, &key), params };
    assert(q@ =~= tx_label_lookup(user_id, *l));
    q
}

pub open spec fn tx_label_insert() -> InsertView {
    InsertView {
        table: Table::TxLabels,
        columns: binding(
            seq![
                Column::UserId, Column::Label, Column::CreatedAt, Column::UpdatedAt,
            ],
        ),
    }
}

fn tx_label_insertion() -> (plan: Insert)
    ensures
        plan@ == tx_label_insert(),
{
    let plan = Insert {
        table: Table::TxLabels,
        columns: bind_all(
            &vec![
                Column::UserId, Column::Label, Column::CreatedAt, Column::UpdatedAt,
            ],
        ),
    };
    assert(plan@ =~= tx_label_insert());
    plan
}

pub open spec fn tx_label_insert_query(user_id: i64, l: TableTxLabel) -> QueryView {
    QueryView {
        sql: tx_label_insert().text(),
        params: seq![
            SqlValue::Int(user_id as int),
            SqlValue::Text(l.label@),
            SqlValue::Time(l.created_at),
            SqlValue::Time(l.updated_at),
        ],
    }
}

/// Inserts a label.
pub fn insert_tx_label(user_id: i64, l: &TableTxLabel) -> (q: Query)
    ensures
        q@ == tx_label_insert_query(user_id, *l),
{
    let params = vec![
        Param::Int(user_id),
        text_param(l.label.as_str()),
        Param::Time(l.created_at),
        Param::Time(l.updated_at),
    ];
    let q = Query { sql: tx_label_insertion().sql(), params };
    assert(q@ =~= tx_label_insert_query(user_id, *l));
    q
}

pub open spec fn tx_label_update() -> UpdateView {
    UpdateView {
        table: Table::TxLabels,
        sets: all_bound(seq![Column::UpdatedAt]),
        id: Column::TxLabelId,
    }
}

/// The update as a plan.
pub fn tx_label_updating() -> (plan: Update)
    ensures
        plan@ == tx_label_update(),
{
    let plan = Update {
        table: Table::TxLabels,
        sets: set_all_bound(&vec![Column::UpdatedAt]),
        id: Column::TxLabelId,
    };
    assert(plan@ =~= tx_label_update());
    plan
}

pub open spec fn tx_label_update_query(l: TableTxLabel, local_id: i64) -> QueryView {
    QueryView {
        sql: tx_label_update().text(),
        params: seq![
            SqlValue::Time(l.updated_at),
            SqlValue::Int(local_id as int),
        ],
    }
}

/// Updates a label that is older than the incoming one.
pub fn update_tx_label(l: &TableTxLabel, local_id: i64) -> (q: Query)
    ensures
        q@ == tx_label_update_query(*l, local_id),
{
    let params = vec![
        Param::Time(l.updated_at),
        Param::Int(local_id),
    ];
    let q = Query { sql: tx_label_updating().sql(), params };
    assert(q@ =~= tx_label_update_query(*l, local_id));
    q
}

// output tag

pub open spec fn output_tag_lookup(user_id: i64, t: TableOutputTag) -> QueryView {
    QueryView {
        sql: lookup_text(
            Table::OutputTags,
            Column::OutputTagId,
            seq![Column::UserId, Column::Tag],
        ),
        params: seq![
            SqlValue::Int(user_id as int),
            SqlValue::Text(t.tag@),
        ],
    }
}

/// Looks up a tag by its key.
pub fn lookup_output_tag(user_id: i64, t: &TableOutputTag) -> (q: Query)
    ensures
        q@ == output_tag_lookup(user_id, *t),
{
    let key = vec![Column::UserId, Column::Tag];
    assert(key@ =~= seq![Column::UserId, Column::Tag]);
    let params = vec![
        Param::Int(user_id),
        text_param(t.tag.as_str()),
    ];
    let q = Query { sql: lookup_sql(Table::OutputTags, Column::OutputTagId, &key), params };
    assert(q@ =~= output_tag_lookup(user_id, *t));
    q
}

pub open spec fn output_tag_insert() -> InsertView {
    InsertView {
        table: Table::OutputTags,
        columns: binding(
            seq![
                Column::UserId, Column::Tag, Column::CreatedAt, Column::UpdatedAt,
            ],
        ),
    }
}

fn output_tag_insertion() -> (plan: Insert)
    ensures
        plan@ == output_tag_insert(),
{
    let plan = Insert {
        table: Table::OutputTags,
        columns: bind_all(
            &vec![
                Column::UserId, Column::Tag, Column::CreatedAt, Column::UpdatedAt,
            ],
        ),
    };
    assert(plan@ =~= output_tag_insert());
    plan
}

pub open spec fn output_tag_insert_query(user_id: i64, t: TableOutputTag) -> QueryView {
    QueryView {
        sql: output_tag_insert().text(),
        params: seq![
            SqlValue::Int(user_id as int),
            SqlValue::Text(t.tag@),
            SqlValue::Time(t.created_at),
            SqlValue::Time(t.updated_at),
        ],
    }
}

/// Inserts a tag.
pub fn insert_output_tag(user_id: i64, t: &TableOutputTag) -> (q: Query)
    ensures
        q@ == output_tag_insert_query(user_id, *t),
{
    let params = vec![
        Param::Int(user_id),
        text_param(t.tag.as_str()),
        Param::Time(t.created_at),
        Param::Time(t.updated_at),
    ];
    let q = Query { sql: output_tag_insertion().sql(), params };
    assert(q@ =~= output_tag_insert_query(user_id, *t));
    q
}

pub open spec fn output_tag_update() -> UpdateView {
    UpdateView {
        table: Table::OutputTags,
        sets: all_bound(seq![Column::UpdatedAt]),
        id: Column::OutputTagId,
    }
}

/// The update as a plan.
pub fn output_tag_updating() -> (plan: Update)
    ensures
        plan@ == output_tag_update(),
{
    let plan = Update {
        table: Table::OutputTags,
        sets: set_all_bound(&vec![Column::UpdatedAt]),
        id: Column::OutputTagId,
    };
    assert(plan@ =~= output_tag_update());
    plan
}

pub open spec fn output_tag_update_query(t: TableOutputTag, local_id: i64) -> QueryView {
    QueryView {
        sql: output_tag_update().text(),
        params: seq![
            SqlValue::Time(t.updated_at),
            SqlValue::Int(local_id as int),
        ],
    }
}

/// Updates a tag that is older than the incoming one.
pub fn update_output_tag(t: &TableOutputTag, local_id: i64) -> (q: Query)
    ensures
        q@ == output_tag_update_query(*t, local_id),
{
    let params = vec![
        Param::Time(t.updated_at),
        Param::Int(local_id),
    ];
    let q = Query { sql: output_tag_updating().sql(), params };
    assert(q@ =~= output_tag_update_query(*t, local_id));
    q
}

// transaction

pub open spec fn transaction_lookup(user_id: i64, tx: TableTransaction) -> QueryView {
    QueryView {
        sql: lookup_text(
            Table::Transactions,
            Column::TransactionId,
            seq![Column::UserId, Column::Reference],
        ),
        params: seq![
            SqlValue::Int(user_id as int),
            SqlValue::Text(tx.reference@),
        ],
    }
}

/// Looks up a transaction by its key.
pub fn lookup_transaction(user_id: i64, tx: &TableTransaction) -> (q: Query)
    ensures
        q@ == transaction_lookup(user_id, *tx),
{
    let key = vec![Column::UserId, Column::Reference];
    assert(key@ =~= seq![Column::UserId, Column::Reference]);
    let params = vec![
        Param::Int(user_id),
        text_param(tx.reference.as_str()),
    ];
    let q = Query { sql: lookup_sql(Table::Transactions, Column::TransactionId, &key), params };
    assert(q@ =~= transaction_lookup(user_id, *tx));
    q
}

pub open spec fn transaction_insert() -> InsertView {
    InsertView {
        table: Table::Transactions,
        columns: seq![
            (Column::UserId, Slot::Bind), (Column::Txid, Slot::Bind),
            (Column::Status, Slot::Bind), (Column::Reference, Slot::Bind),
            (Column::Description, Slot::Bind), (Column::Satoshis, Slot::Bind),
            (Column::Version, Slot::Bind), (Column::LockTime, Slot::Bind),
            (Column::IsOutgoing, Slot::Bind), (Column::ProvenTxId, Slot::Bind),
            (Column::RawTx, Slot::Null), (Column::InputBeef, Slot::Null),
            (Column::CreatedAt, Slot::Bind), (Column::UpdatedAt, Slot::Bind),
        ],
    }
}

fn transaction_insertion() -> (plan: Insert)
    ensures
        plan@ == transaction_insert(),
{
    let plan = Insert {
        table: Table::Transactions,
        columns: vec![
            (Column::UserId, Slot::Bind), (Column::Txid, Slot::Bind),
            (Column::Status, Slot::Bind), (Column::Reference, Slot::Bind),
            (Column::Description, Slot::Bind), (Column::Satoshis, Slot::Bind),
            (Column::Version, Slot::Bind), (Column::LockTime, Slot::Bind),
            (Column::IsOutgoing, Slot::Bind), (Column::ProvenTxId, Slot::Bind),
            (Column::RawTx, Slot::Null), (Column::InputBeef, Slot::Null),
            (Column::CreatedAt, Slot::Bind), (Column::UpdatedAt, Slot::Bind),
        ],
    };
    assert(plan@ =~= transaction_insert());
    plan
}

pub open spec fn transaction_insert_query(
    user_id: i64,
    tx: TableTransaction,
    proof_fk: Option<i64>,
) -> QueryView {
    QueryView {
        sql: transaction_insert().text(),
        params: seq![
            SqlValue::Int(user_id as int),
            text_value(tx.txid),
            SqlValue::Text(tx.status@),
            SqlValue::Text(tx.reference@),
            SqlValue::Text(tx.description@),
            SqlValue::Int(tx.satoshis as int),
            SqlValue::Int(tx.version as int),
            SqlValue::Int(tx.lock_time as int),
            flag_value(tx.is_outgoing),
            int_value(proof_fk),
            SqlValue::Time(tx.created_at),
            SqlValue::Time(tx.updated_at),
        ],
    }
}

/// Inserts a transaction.
pub fn insert_transaction(user_id: i64, tx: &TableTransaction, proof_fk: Option<i64>) -> (q: Query)
    ensures
        q@ == transaction_insert_query(user_id, *tx, proof_fk),
{
    let params = vec![
        Param::Int(user_id),
        optional_text_param(&tx.txid),
        text_param(tx.status.as_str()),
        text_param(tx.reference.as_str()),
        text_param(tx.description.as_str()),
        Param::Int(tx.satoshis),
        Param::Int(tx.version as i64),
        Param::Int(tx.lock_time),
        flag_param(tx.is_outgoing),
        int_param(proof_fk),
        Param::Time(tx.created_at),
        Param::Time(tx.updated_at),
    ];
    let q = Query { sql: transaction_insertion().sql(), params };
    assert(q@ =~= transaction_insert_query(user_id, *tx, proof_fk));
    q
}

pub open spec fn transaction_update() -> UpdateView {
    UpdateView {
        table: Table::Transactions,
        sets: all_bound(
            seq![
                Column::Txid, Column::Status, Column::Description, Column::Satoshis,
                Column::Version, Column::LockTime, Column::IsOutgoing, Column::UpdatedAt,
            ],
        ),
        id: Column::TransactionId,
    }
}

/// The update as a plan.
pub fn transaction_updating() -> (plan: Update)
    ensures
        plan@ == transaction_update(),
{
    let plan = Update {
        table: Table::Transactions,
        sets: set_all_bound(
            &vec![
                Column::Txid, Column::Status, Column::Description, Column::Satoshis,
                Column::Version, Column::LockTime, Column::IsOutgoing, Column::UpdatedAt,
            ],
        ),
        id: Column::TransactionId,
    };
    assert(plan@ =~= transaction_update());
    plan
}

pub open spec fn transaction_update_query(tx: TableTransaction, local_id: i64) -> QueryView {
    QueryView {
        sql: transaction_update().text(),
        params: seq![
            text_value(tx.txid),
            SqlValue::Text(tx.status@),
            SqlValue::Text(tx.description@),
            SqlValue::Int(tx.satoshis as int),
            SqlValue::Int(tx.version as int),
            SqlValue::Int(tx.lock_time as int),
            flag_value(tx.is_outgoing),
            SqlValue::Time(tx.updated_at),
            SqlValue::Int(local_id as int),
        ],
    }
}

/// Updates a transaction that is older than the incoming one.
pub fn update_transaction(tx: &TableTransaction, local_id: i64) -> (q: Query)
    ensures
        q@ == transaction_update_query(*tx, local_id),
{
    let params = vec![
        optional_text_param(&tx.txid),
        text_param(tx.status.as_str()),
        text_param(tx.description.as_str()),
        Param::Int(tx.satoshis),
        Param::Int(tx.version as i64),
        Param::Int(tx.lock_time),
        flag_param(tx.is_outgoing),
        Param::Time(tx.updated_at),
        Param::Int(local_id),
    ];
    let q = Query { sql: transaction_updating().sql(), params };
    assert(q@ =~= transaction_update_query(*tx, local_id));
    q
}

// output

pub open spec fn output_lookup(user_id: i64, o: TableOutput) -> QueryView {
    QueryView {
        sql: lookup_text(
            Table::Outputs,
            Column::OutputId,
            seq![Column::UserId, Column::Txid, Column::Vout],
        ),
        params: seq![
            SqlValue::Int(user_id as int),
            SqlValue::Text(o.txid@),
            SqlValue::Int(o.vout as int),
        ],
    }
}

/// Looks up an output by its key.
pub fn lookup_output(user_id: i64, o: &TableOutput) -> (q: Query)
    ensures
        q@ == output_lookup(user_id, *o),
{
    let key = vec![Column::UserId, Column::Txid, Column::Vout];
    assert(key@ =~= seq![Column::UserId, Column::Txid, Column::Vout]);
    let params = vec![
        Param::Int(user_id),
        text_param(o.txid.as_str()),
        Param::Int(o.vout as i64),
    ];
    let q = Query { sql: lookup_sql(Table::Outputs, Column::OutputId, &key), params };
    assert(q@ =~= output_lookup(user_id, *o));
    q
}

pub open spec fn output_insert() -> InsertView {
    InsertView {
        table: Table::Outputs,
        columns: seq![
            (Column::UserId, Slot::Bind), (Column::TransactionId, Slot::Bind),
            (Column::BasketId, Slot::Bind), (Column::Txid, Slot::Bind),
            (Column::Vout, Slot::Bind), (Column::Satoshis, Slot::Bind),
            (Column::LockingScript, Slot::Null), (Column::ScriptLength, Slot::Bind),
            (Column::ScriptOffset, Slot::Bind), (Column::Type, Slot::Bind),
            (Column::ProvidedBy, Slot::Bind), (Column::Purpose, Slot::Bind),
            (Column::Spendable, Slot::Bind), (Column::Change, Slot::Bind),
            (Column::DerivationPrefix, Slot::Bind), (Column::DerivationSuffix, Slot::Bind),
            (Column::SenderIdentityKey, Slot::Bind), (Column::CustomInstructions, Slot::Bind),
            (Column::CreatedAt, Slot::Bind), (Column::UpdatedAt, Slot::Bind),
        ],
    }
}

fn output_insertion() -> (plan: Insert)
    ensures
        plan@ == output_insert(),
{
    let plan = Insert {
        table: Table::Outputs,
        columns: vec![
            (Column::UserId, Slot::Bind), (Column::TransactionId, Slot::Bind),
            (Column::BasketId, Slot::Bind), (Column::Txid, Slot::Bind),
            (Column::Vout, Slot::Bind), (Column::Satoshis, Slot::Bind),
            (Column::LockingScript, Slot::Null), (Column::ScriptLength, Slot::Bind),
            (Column::ScriptOffset, Slot::Bind), (Column::Type, Slot::Bind),
            (Column::ProvidedBy, Slot::Bind), (Column::Purpose, Slot::Bind),
            (Column::Spendable, Slot::Bind), (Column::Change, Slot::Bind),
            (Column::DerivationPrefix, Slot::Bind), (Column::DerivationSuffix, Slot::Bind),
            (Column::SenderIdentityKey, Slot::Bind), (Column::CustomInstructions, Slot::Bind),
            (Column::CreatedAt, Slot::Bind), (Column::UpdatedAt, Slot::Bind),
        ],
    };
    assert(plan@ =~= output_insert());
    plan
}

pub open spec fn output_insert_query(
    user_id: i64,
    o: TableOutput,
    tx_id: i64,
    local_basket_id: Option<i64>,
) -> QueryView {
    QueryView {
        sql: output_insert().text(),
        params: seq![
            SqlValue::Int(user_id as int),
            SqlValue::Int(tx_id as int),
            int_value(local_basket_id),
            SqlValue::Text(o.txid@),
            SqlValue::Int(o.vout as int),
            SqlValue::Int(o.satoshis as int),
            SqlValue::Int(o.script_length as int),
            SqlValue::Int(o.script_offset as int),
            SqlValue::Text(o.output_type@),
            SqlValue::Text(provided_by_text(o.provided_by@)),
            SqlValue::Text(purpose_text(o.purpose)),
            flag_value(o.spendable),
            flag_value(o.change),
            text_value(o.derivation_prefix),
            text_value(o.derivation_suffix),
            text_value(o.sender_identity_key),
            text_value(o.custom_instructions),
            SqlValue::Time(o.created_at),
            SqlValue::Time(o.updated_at),
        ],
    }
}

/// Inserts an output.
pub fn insert_output(
    user_id: i64,
    o: &TableOutput,
    tx_id: i64,
    local_basket_id: Option<i64>,
) -> (q: Query)
    ensures
        q@ == output_insert_query(user_id, *o, tx_id, local_basket_id),
{
    let params = vec![
        Param::Int(user_id),
        Param::Int(tx_id),
        int_param(local_basket_id),
        text_param(o.txid.as_str()),
        Param::Int(o.vout as i64),
        Param::Int(o.satoshis),
        Param::Int(o.script_length as i64),
        Param::Int(o.script_offset as i64),
        text_param(o.output_type.as_str()),
        Param::Text(provided_by(&o.provided_by)),
        Param::Text(purpose(&o.purpose)),
        flag_param(o.spendable),
        flag_param(o.change),
        optional_text_param(&o.derivation_prefix),
        optional_text_param(&o.derivation_suffix),
        optional_text_param(&o.sender_identity_key),
        optional_text_param(&o.custom_instructions),
        Param::Time(o.created_at),
        Param::Time(o.updated_at),
    ];
    let q = Query { sql: output_insertion().sql(), params };
    assert(q@ =~= output_insert_query(user_id, *o, tx_id, local_basket_id));
    q
}

pub open spec fn output_update() -> UpdateView {
    UpdateView {
        table: Table::Outputs,
        sets: seq![
            bound(Column::TransactionId),
            kept_when(Column::BasketId, Cond::InDefaultBasket, Pick::Stored),
            filled_when(Column::Satoshis, Cond::StoredZero(Subject::Own)),
            filled_when(
                Column::ScriptLength,
                Cond::StoredEmpty(Subject::Of(Column::LockingScript)),
            ),
            filled_when(
                Column::ScriptOffset,
                Cond::StoredEmpty(Subject::Of(Column::LockingScript)),
            ),
            bound(Column::Type),
            kept_when(Column::Spendable, Cond::StoredOne(Subject::Own), Pick::One),
            kept_when(Column::Change, Cond::StoredOne(Subject::Own), Pick::One),
            filled_when(Column::DerivationPrefix, Cond::StoredNull(Subject::Own)),
            filled_when(Column::DerivationSuffix, Cond::StoredNull(Subject::Own)),
            bound(Column::SenderIdentityKey),
            bound(Column::CustomInstructions),
            bound(Column::UpdatedAt),
        ],
        id: Column::OutputId,
    }
}

/// The update as a plan.
pub fn output_updating() -> (plan: Update)
    ensures
        plan@ == output_update(),
{
    let sets = vec![
        set_bound(Column::TransactionId),
        set_kept(Column::BasketId, Cond::InDefaultBasket, Pick::Stored),
        set_filled(Column::Satoshis, Cond::StoredZero(Subject::Own)),
        set_filled(Column::ScriptLength, Cond::StoredEmpty(Subject::Of(Column::LockingScript))),
        set_filled(Column::ScriptOffset, Cond::StoredEmpty(Subject::Of(Column::LockingScript))),
        set_bound(Column::Type),
        set_kept(Column::Spendable, Cond::StoredOne(Subject::Own), Pick::One),
        set_kept(Column::Change, Cond::StoredOne(Subject::Own), Pick::One),
        set_filled(Column::DerivationPrefix, Cond::StoredNull(Subject::Own)),
        set_filled(Column::DerivationSuffix, Cond::StoredNull(Subject::Own)),
        set_bound(Column::SenderIdentityKey),
        set_bound(Column::CustomInstructions),
        set_bound(Column::UpdatedAt),
    ];
    assert(assigns(sets@) =~= output_update().sets);
    let plan = Update {
        table: Table::Outputs,
        sets,
        id: Column::OutputId,
    };
    assert(plan@ =~= output_update());
    plan
}

pub open spec fn output_update_query(
    user_id: i64,
    o: TableOutput,
    tx_id: i64,
    local_basket_id: Option<i64>,
    local_id: i64,
) -> QueryView {
    QueryView {
        sql: output_update().text(),
        params: seq![
            SqlValue::Int(tx_id as int),
            SqlValue::Int(user_id as int),
            int_value(local_basket_id),
            SqlValue::Int(o.satoshis as int),
            SqlValue::Int(o.script_length as int),
            SqlValue::Int(o.script_offset as int),
            SqlValue::Text(o.output_type@),
            flag_value(o.spendable),
            flag_value(o.change),
            text_value(o.derivation_prefix),
            text_value(o.derivation_suffix),
            text_value(o.sender_identity_key),
            text_value(o.custom_instructions),
            SqlValue::Time(o.updated_at),
            SqlValue::Int(local_id as int),
        ],
    }
}

/// Updates an output that is older than the incoming one.
pub fn update_output(
    user_id: i64,
    o: &TableOutput,
    tx_id: i64,
    local_basket_id: Option<i64>,
    local_id: i64,
) -> (q: Query)
    ensures
        q@ == output_update_query(user_id, *o, tx_id, local_basket_id, local_id),
{
    let params = vec![
        Param::Int(tx_id),
        Param::Int(user_id),
        int_param(local_basket_id),
        Param::Int(o.satoshis),
        Param::Int(o.script_length as i64),
        Param::Int(o.script_offset as i64),
        text_param(o.output_type.as_str()),
        flag_param(o.spendable),
        flag_param(o.change),
        optional_text_param(&o.derivation_prefix),
        optional_text_param(&o.derivation_suffix),
        optional_text_param(&o.sender_identity_key),
        optional_text_param(&o.custom_instructions),
        Param::Time(o.updated_at),
        Param::Int(local_id),
    ];
    let q = Query { sql: output_updating().sql(), params };
    assert(q@ =~= output_update_query(user_id, *o, tx_id, local_basket_id, local_id));
    q
}

// tx label map

pub open spec fn tx_label_map_lookup(tx_id: i64, label_id: i64) -> QueryView {
    QueryView {
        sql: lookup_text(
            Table::TxLabelsMap,
            Column::TxLabelMapId,
            seq![Column::TransactionId, Column::TxLabelId],
        ),
        params: seq![
            SqlValue::Int(tx_id as int),
            SqlValue::Int(label_id as int),
        ],
    }
}

/// Looks up the fact that a transaction carries a label by its key.
pub fn lookup_tx_label_map(tx_id: i64, label_id: i64) -> (q: Query)
    ensures
        q@ == tx_label_map_lookup(tx_id, label_id),
{
    let key = vec![Column::TransactionId, Column::TxLabelId];
    assert(key@ =~= seq![Column::TransactionId, Column::TxLabelId]);
    let params = vec![
        Param::Int(tx_id),
        Param::Int(label_id),
    ];
    let q = Query { sql: lookup_sql(Table::TxLabelsMap, Column::TxLabelMapId, &key), params };
    assert(q@ =~= tx_label_map_lookup(tx_id, label_id));
    q
}

pub open spec fn tx_label_map_insert() -> InsertView {
    InsertView {
        table: Table::TxLabelsMap,
        columns: binding(
            seq![
                Column::TxLabelId, Column::TransactionId, Column::CreatedAt, Column::UpdatedAt,
            ],
        ),
    }
}

fn tx_label_map_insertion() -> (plan: Insert)
    ensures
        plan@ == tx_label_map_insert(),
{
    let plan = Insert {
        table: Table::TxLabelsMap,
        columns: bind_all(
            &vec![
                Column::TxLabelId, Column::TransactionId, Column::CreatedAt, Column::UpdatedAt,
            ],
        ),
    };
    assert(plan@ =~= tx_label_map_insert());
    plan
}

pub open spec fn tx_label_map_insert_query(
    tx_id: i64,
    label_id: i64,
    updated_at: Timestamp,
    created_at: Timestamp,
) -> QueryView {
    QueryView {
        sql: tx_label_map_insert().text(),
        params: seq![
            SqlValue::Int(label_id as int),
            SqlValue::Int(tx_id as int),
            SqlValue::Time(created_at),
            SqlValue::Time(updated_at),
        ],
    }
}

/// Inserts the fact that a transaction carries a label.
pub fn insert_tx_label_map(
    tx_id: i64,
    label_id: i64,
    updated_at: Timestamp,
    created_at: Timestamp,
) -> (q: Query)
    ensures
        q@ == tx_label_map_insert_query(tx_id, label_id, updated_at, created_at),
{
    let params = vec![
        Param::Int(label_id),
        Param::Int(tx_id),
        Param::Time(created_at),
        Param::Time(updated_at),
    ];
    let q = Query { sql: tx_label_map_insertion().sql(), params };
    assert(q@ =~= tx_label_map_insert_query(tx_id, label_id, updated_at, created_at));
    q
}

pub open spec fn tx_label_map_update() -> UpdateView {
    UpdateView {
        table: Table::TxLabelsMap,
        sets: seq![
            restored(),
            bound(Column::UpdatedAt),
        ],
        id: Column::TxLabelMapId,
    }
}

/// The update as a plan.
pub fn tx_label_map_updating() -> (plan: Update)
    ensures
        plan@ == tx_label_map_update(),
{
    let sets = vec![
        set_restored(),
        set_bound(Column::UpdatedAt),
    ];
    assert(assigns(sets@) =~= tx_label_map_update().sets);
    let plan = Update {
        table: Table::TxLabelsMap,
        sets,
        id: Column::TxLabelMapId,
    };
    assert(plan@ =~= tx_label_map_update());
    plan
}

pub open spec fn tx_label_map_update_query(updated_at: Timestamp, local_id: i64) -> QueryView {
    QueryView {
        sql: tx_label_map_update().text(),
        params: seq![
            SqlValue::Time(updated_at),
            SqlValue::Int(local_id as int),
        ],
    }
}

/// Updates the fact that a transaction carries a label that is older than the incoming one.
pub fn update_tx_label_map(updated_at: Timestamp, local_id: i64) -> (q: Query)
    ensures
        q@ == tx_label_map_update_query(updated_at, local_id),
{
    let params = vec![
        Param::Time(updated_at),
        Param::Int(local_id),
    ];
    let q = Query { sql: tx_label_map_updating().sql(), params };
    assert(q@ =~= tx_label_map_update_query(updated_at, local_id));
    q
}

// output tag map

pub open spec fn output_tag_map_lookup(output_id: i64, tag_id: i64) -> QueryView {
    QueryView {
        sql: lookup_text(
            Table::OutputTagsMap,
            Column::OutputTagMapId,
            seq![Column::OutputTagId, Column::OutputId],
        ),
        params: seq![
            SqlValue::Int(tag_id as int),
            SqlValue::Int(output_id as int),
        ],
    }
}

/// Looks up the fact that an output carries a tag by its key.
pub fn lookup_output_tag_map(output_id: i64, tag_id: i64) -> (q: Query)
    ensures
        q@ == output_tag_map_lookup(output_id, tag_id),
{
    let key = vec![Column::OutputTagId, Column::OutputId];
    assert(key@ =~= seq![Column::OutputTagId, Column::OutputId]);
    let params = vec![
        Param::Int(tag_id),
        Param::Int(output_id),
    ];
    let q = Query { sql: lookup_sql(Table::OutputTagsMap, Column::OutputTagMapId, &key), params };
    assert(q@ =~= output_tag_map_lookup(output_id, tag_id));
    q
}

pub open spec fn output_tag_map_insert() -> InsertView {
    InsertView {
        table: Table::OutputTagsMap,
        columns: binding(
            seq![
                Column::OutputTagId, Column::OutputId, Column::CreatedAt, Column::UpdatedAt,
            ],
        ),
    }
}

fn output_tag_map_insertion() -> (plan: Insert)
    ensures
        plan@ == output_tag_map_insert(),
{
    let plan = Insert {
        table: Table::OutputTagsMap,
        columns: bind_all(
            &vec![
                Column::OutputTagId, Column::OutputId, Column::CreatedAt, Column::UpdatedAt,
            ],
        ),
    };
    assert(plan@ =~= output_tag_map_insert());
    plan
}

pub open spec fn output_tag_map_insert_query(
    output_id: i64,
    tag_id: i64,
    updated_at: Timestamp,
    created_at: Timestamp,
) -> QueryView {
    QueryView {
        sql: output_tag_map_insert().text(),
        params: seq![
            SqlValue::Int(tag_id as int),
            SqlValue::Int(output_id as int),
            SqlValue::Time(created_at),
            SqlValue::Time(updated_at),
        ],
    }
}

/// Inserts the fact that an output carries a tag.
pub fn insert_output_tag_map(
    output_id: i64,
    tag_id: i64,
    updated_at: Timestamp,
    created_at: Timestamp,
) -> (q: Query)
    ensures
        q@ == output_tag_map_insert_query(output_id, tag_id, updated_at, created_at),
{
    let params = vec![
        Param::Int(tag_id),
        Param::Int(output_id),
        Param::Time(created_at),
        Param::Time(updated_at),
    ];
    let q = Query { sql: output_tag_map_insertion().sql(), params };
    assert(q@ =~= output_tag_map_insert_query(output_id, tag_id, updated_at, created_at));
    q
}

pub open spec fn output_tag_map_update() -> UpdateView {
    UpdateView {
        table: Table::OutputTagsMap,
        sets: seq![
            restored(),
            bound(Column::UpdatedAt),
        ],
        id: Column::OutputTagMapId,
    }
}

/// The update as a plan.
pub fn output_tag_map_updating() -> (plan: Update)
    ensures
        plan@ == output_tag_map_update(),
{
    let sets = vec![
        set_restored(),
        set_bound(Column::UpdatedAt),
    ];
    assert(assigns(sets@) =~= output_tag_map_update().sets);
    let plan = Update {
        table: Table::OutputTagsMap,
        sets,
        id: Column::OutputTagMapId,
    };
    assert(plan@ =~= output_tag_map_update());
    plan
}

pub open spec fn output_tag_map_update_query(updated_at: Timestamp, local_id: i64) -> QueryView {
    QueryView {
        sql: output_tag_map_update().text(),
        params: seq![
            SqlValue::Time(updated_at),
            SqlValue::Int(local_id as int),
        ],
    }
}

/// Updates the fact that an output carries a tag that is older than the incoming one.
pub fn update_output_tag_map(updated_at: Timestamp, local_id: i64) -> (q: Query)
    ensures
        q@ == output_tag_map_update_query(updated_at, local_id),
{
    let params = vec![
        Param::Time(updated_at),
        Param::Int(local_id),
    ];
    let q = Query { sql: output_tag_map_updating().sql(), params };
    assert(q@ =~= output_tag_map_update_query(updated_at, local_id));
    q
}

// certificate

pub open spec fn certificate_lookup(user_id: i64, c: TableCertificate) -> QueryView {
    QueryView {
        sql: lookup_text(
            Table::Certificates,
            Column::CertificateId,
            seq![Column::UserId, Column::Type, Column::Certifier, Column::SerialNumber],
        ),
        params: seq![
            SqlValue::Int(user_id as int),
            SqlValue::Text(c.cert_type@),
            SqlValue::Text(c.certifier@),
            SqlValue::Text(c.serial_number@),
        ],
    }
}

/// Looks up a certificate by its key.
pub fn lookup_certificate(user_id: i64, c: &TableCertificate) -> (q: Query)
    ensures
        q@ == certificate_lookup(user_id, *c),
{
    let key = vec![Column::UserId, Column::Type, Column::Certifier, Column::SerialNumber];
    assert(key@ =~= seq![Column::UserId, Column::Type, Column::Certifier, Column::SerialNumber]);
    let params = vec![
        Param::Int(user_id),
        text_param(c.cert_type.as_str()),
        text_param(c.certifier.as_str()),
        text_param(c.serial_number.as_str()),
    ];
    let q = Query { sql: lookup_sql(Table::Certificates, Column::CertificateId, &key), params };
    assert(q@ =~= certificate_lookup(user_id, *c));
    q
}

pub open spec fn certificate_insert() -> InsertView {
    InsertView {
        table: Table::Certificates,
        columns: binding(
            seq![
                Column::UserId, Column::SerialNumber, Column::Type, Column::Certifier,
                Column::Subject, Column::Verifier, Column::RevocationOutpoint,
                Column::Signature, Column::CreatedAt, Column::UpdatedAt,
            ],
        ),
    }
}

fn certificate_insertion() -> (plan: Insert)
    ensures
        plan@ == certificate_insert(),
{
    let plan = Insert {
        table: Table::Certificates,
        columns: bind_all(
            &vec![
                Column::UserId, Column::SerialNumber, Column::Type, Column::Certifier,
                Column::Subject, Column::Verifier, Column::RevocationOutpoint,
                Column::Signature, Column::CreatedAt, Column::UpdatedAt,
            ],
        ),
    };
    assert(plan@ =~= certificate_insert());
    plan
}

pub open spec fn certificate_insert_query(user_id: i64, c: TableCertificate) -> QueryView {
    QueryView {
        sql: certificate_insert().text(),
        params: seq![
            SqlValue::Int(user_id as int),
            SqlValue::Text(c.serial_number@),
            SqlValue::Text(c.cert_type@),
            SqlValue::Text(c.certifier@),
            SqlValue::Text(c.subject@),
            text_value(c.verifier),
            SqlValue::Text(c.revocation_outpoint@),
            SqlValue::Text(c.signature@),
            SqlValue::Time(c.created_at),
            SqlValue::Time(c.updated_at),
        ],
    }
}

/// Inserts a certificate.
pub fn insert_certificate(user_id: i64, c: &TableCertificate) -> (q: Query)
    ensures
        q@ == certificate_insert_query(user_id, *c),
{
    let params = vec![
        Param::Int(user_id),
        text_param(c.serial_number.as_str()),
        text_param(c.cert_type.as_str()),
        text_param(c.certifier.as_str()),
        text_param(c.subject.as_str()),
        optional_text_param(&c.verifier),
        text_param(c.revocation_outpoint.as_str()),
        text_param(c.signature.as_str()),
        Param::Time(c.created_at),
        Param::Time(c.updated_at),
    ];
    let q = Query { sql: certificate_insertion().sql(), params };
    assert(q@ =~= certificate_insert_query(user_id, *c));
    q
}

pub open spec fn certificate_update() -> UpdateView {
    UpdateView {
        table: Table::Certificates,
        sets: all_bound(
            seq![
                Column::Subject, Column::Verifier, Column::RevocationOutpoint,
                Column::Signature, Column::UpdatedAt,
            ],
        ),
        id: Column::CertificateId,
    }
}

/// The update as a plan.
pub fn certificate_updating() -> (plan: Update)
    ensures
        plan@ == certificate_update(),
{
    let plan = Update {
        table: Table::Certificates,
        sets: set_all_bound(
            &vec![
                Column::Subject, Column::Verifier, Column::RevocationOutpoint,
                Column::Signature, Column::UpdatedAt,
            ],
        ),
        id: Column::CertificateId,
    };
    assert(plan@ =~= certificate_update());
    plan
}

pub open spec fn certificate_update_query(c: TableCertificate, local_id: i64) -> QueryView {
    QueryView {
        sql: certificate_update().text(),
        params: seq![
            SqlValue::Text(c.subject@),
            text_value(c.verifier),
            SqlValue::Text(c.revocation_outpoint@),
            SqlValue::Text(c.signature@),
            SqlValue::Time(c.updated_at),
            SqlValue::Int(local_id as int),
        ],
    }
}

/// Updates a certificate that is older than the incoming one.
pub fn update_certificate(c: &TableCertificate, local_id: i64) -> (q: Query)
    ensures
        q@ == certificate_update_query(*c, local_id),
{
    let params = vec![
        text_param(c.subject.as_str()),
        optional_text_param(&c.verifier),
        text_param(c.revocation_outpoint.as_str()),
        text_param(c.signature.as_str()),
        Param::Time(c.updated_at),
        Param::Int(local_id),
    ];
    let q = Query { sql: certificate_updating().sql(), params };
    assert(q@ =~= certificate_update_query(*c, local_id));
    q
}

// certificate field

pub open spec fn certificate_field_lookup(f: TableCertificateField, cert_id: i64) -> QueryView {
    QueryView {
        sql: lookup_text(
            Table::CertificateFields,
            Column::CertificateFieldId,
            seq![Column::CertificateId, Column::FieldName],
        ),
        params: seq![
            SqlValue::Int(cert_id as int),
            SqlValue::Text(f.field_name@),
        ],
    }
}

/// Looks up a field of a certificate by its key.
pub fn lookup_certificate_field(f: &TableCertificateField, cert_id: i64) -> (q: Query)
    ensures
        q@ == certificate_field_lookup(*f, cert_id),
{
    let key = vec![Column::CertificateId, Column::FieldName];
    assert(key@ =~= seq![Column::CertificateId, Column::FieldName]);
    let params = vec![
        Param::Int(cert_id),
        text_param(f.field_name.as_str()),
    ];
    let q = Query { sql: lookup_sql(Table::CertificateFields, Column::CertificateFieldId, &key), params };
    assert(q@ =~= certificate_field_lookup(*f, cert_id));
    q
}

pub open spec fn certificate_field_insert() -> InsertView {
    InsertView {
        table: Table::CertificateFields,
        columns: binding(
            seq![
                Column::UserId, Column::CertificateId, Column::FieldName, Column::FieldValue,
                Column::MasterKey, Column::CreatedAt, Column::UpdatedAt,
            ],
        ),
    }
}

fn certificate_field_insertion() -> (plan: Insert)
    ensures
        plan@ == certificate_field_insert(),
{
    let plan = Insert {
        table: Table::CertificateFields,
        columns: bind_all(
            &vec![
                Column::UserId, Column::CertificateId, Column::FieldName, Column::FieldValue,
                Column::MasterKey, Column::CreatedAt, Column::UpdatedAt,
            ],
        ),
    };
    assert(plan@ =~= certificate_field_insert());
    plan
}

pub open spec fn certificate_field_insert_query(
    user_id: i64,
    f: TableCertificateField,
    cert_id: i64,
) -> QueryView {
    QueryView {
        sql: certificate_field_insert().text(),
        params: seq![
            SqlValue::Int(user_id as int),
            SqlValue::Int(cert_id as int),
            SqlValue::Text(f.field_name@),
            SqlValue::Text(f.field_value@),
            SqlValue::Text(f.master_key@),
            SqlValue::Time(f.created_at),
            SqlValue::Time(f.updated_at),
        ],
    }
}

/// Inserts a field of a certificate.
pub fn insert_certificate_field(user_id: i64, f: &TableCertificateField, cert_id: i64) -> (q: Query)
    ensures
        q@ == certificate_field_insert_query(user_id, *f, cert_id),
{
    let params = vec![
        Param::Int(user_id),
        Param::Int(cert_id),
        text_param(f.field_name.as_str()),
        text_param(f.field_value.as_str()),
        text_param(f.master_key.as_str()),
        Param::Time(f.created_at),
        Param::Time(f.updated_at),
    ];
    let q = Query { sql: certificate_field_insertion().sql(), params };
    assert(q@ =~= certificate_field_insert_query(user_id, *f, cert_id));
    q
}

pub open spec fn certificate_field_update() -> UpdateView {
    UpdateView {
        table: Table::CertificateFields,
        sets: all_bound(seq![Column::FieldValue, Column::MasterKey, Column::UpdatedAt]),
        id: Column::CertificateFieldId,
    }
}

/// The update as a plan.
pub fn certificate_field_updating() -> (plan: Update)
    ensures
        plan@ == certificate_field_update(),
{
    let plan = Update {
        table: Table::CertificateFields,
        sets: set_all_bound(&vec![Column::FieldValue, Column::MasterKey, Column::UpdatedAt]),
        id: Column::CertificateFieldId,
    };
    assert(plan@ =~= certificate_field_update());
    plan
}

pub open spec fn certificate_field_update_query(
    f: TableCertificateField,
    local_id: i64,
) -> QueryView {
    QueryView {
        sql: certificate_field_update().text(),
        params: seq![
            SqlValue::Text(f.field_value@),
            SqlValue::Text(f.master_key@),
            SqlValue::Time(f.updated_at),
            SqlValue::Int(local_id as int),
        ],
    }
}

/// Updates a field of a certificate that is older than the incoming one.
pub fn update_certificate_field(f: &TableCertificateField, local_id: i64) -> (q: Query)
    ensures
        q@ == certificate_field_update_query(*f, local_id),
{
    let params = vec![
        text_param(f.field_value.as_str()),
        text_param(f.master_key.as_str()),
        Param::Time(f.updated_at),
        Param::Int(local_id),
    ];
    let q = Query { sql: certificate_field_updating().sql(), params };
    assert(q@ =~= certificate_field_update_query(*f, local_id));
    q
}

// commission

pub open spec fn commission_lookup(tx_id: i64) -> QueryView {
    QueryView {
        sql: lookup_text(
            Table::Commissions,
            Column::CommissionId,
            seq![Column::TransactionId],
        ),
        params: seq![
            SqlValue::Int(tx_id as int),
        ],
    }
}

/// Looks up a commission by its key.
pub fn lookup_commission(tx_id: i64) -> (q: Query)
    ensures
        q@ == commission_lookup(tx_id),
{
    let key = vec![Column::TransactionId];
    assert(key@ =~= seq![Column::TransactionId]);
    let params = vec![
        Param::Int(tx_id),
    ];
    let q = Query { sql: lookup_sql(Table::Commissions, Column::CommissionId, &key), params };
    assert(q@ =~= commission_lookup(tx_id));
    q
}

pub open spec fn commission_insert() -> InsertView {
    InsertView {
        table: Table::Commissions,
        columns: binding(
            seq![
                Column::UserId, Column::TransactionId, Column::Satoshis, Column::KeyOffset,
                Column::IsRedeemed, Column::LockingScript, Column::CreatedAt, Column::UpdatedAt,
            ],
        ),
    }
}

fn commission_insertion() -> (plan: Insert)
    ensures
        plan@ == commission_insert(),
{
    let plan = Insert {
        table: Table::Commissions,
        columns: bind_all(
            &vec![
                Column::UserId, Column::TransactionId, Column::Satoshis, Column::KeyOffset,
                Column::IsRedeemed, Column::LockingScript, Column::CreatedAt, Column::UpdatedAt,
            ],
        ),
    };
    assert(plan@ =~= commission_insert());
    plan
}

pub open spec fn commission_insert_query(
    user_id: i64,
    c: TableCommission,
    tx_id: i64,
) -> QueryView {
    QueryView {
        sql: commission_insert().text(),
        params: seq![
            SqlValue::Int(user_id as int),
            SqlValue::Int(tx_id as int),
            SqlValue::Int(c.satoshis as int),
            SqlValue::Text(c.key_offset@),
            flag_value(c.is_redeemed),
            SqlValue::Blob(c.payer_locking_script@),
            SqlValue::Time(c.created_at),
            SqlValue::Time(c.updated_at),
        ],
    }
}

/// Inserts a commission.
pub fn insert_commission(user_id: i64, c: &TableCommission, tx_id: i64) -> (q: Query)
    ensures
        q@ == commission_insert_query(user_id, *c, tx_id),
{
    let params = vec![
        Param::Int(user_id),
        Param::Int(tx_id),
        Param::Int(c.satoshis),
        text_param(c.key_offset.as_str()),
        flag_param(c.is_redeemed),
        bytes_param(c.payer_locking_script.as_slice()),
        Param::Time(c.created_at),
        Param::Time(c.updated_at),
    ];
    let q = Query { sql: commission_insertion().sql(), params };
    assert(q@ =~= commission_insert_query(user_id, *c, tx_id));
    q
}

pub open spec fn commission_update() -> UpdateView {
    UpdateView {
        table: Table::Commissions,
        sets: all_bound(
            seq![
                Column::Satoshis, Column::KeyOffset, Column::IsRedeemed, Column::LockingScript,
                Column::UpdatedAt,
            ],
        ),
        id: Column::CommissionId,
    }
}

/// The update as a plan.
pub fn commission_updating() -> (plan: Update)
    ensures
        plan@ == commission_update(),
{
    let plan = Update {
        table: Table::Commissions,
        sets: set_all_bound(
            &vec![
                Column::Satoshis, Column::KeyOffset, Column::IsRedeemed, Column::LockingScript,
                Column::UpdatedAt,
            ],
        ),
        id: Column::CommissionId,
    };
    assert(plan@ =~= commission_update());
    plan
}

pub open spec fn commission_update_query(c: TableCommission, local_id: i64) -> QueryView {
    QueryView {
        sql: commission_update().text(),
        params: seq![
            SqlValue::Int(c.satoshis as int),
            SqlValue::Text(c.key_offset@),
            flag_value(c.is_redeemed),
            SqlValue::Blob(c.payer_locking_script@),
            SqlValue::Time(c.updated_at),
            SqlValue::Int(local_id as int),
        ],
    }
}

/// Updates a commission that is older than the incoming one.
pub fn update_commission(c: &TableCommission, local_id: i64) -> (q: Query)
    ensures
        q@ == commission_update_query(*c, local_id),
{
    let params = vec![
        Param::Int(c.satoshis),
        text_param(c.key_offset.as_str()),
        flag_param(c.is_redeemed),
        bytes_param(c.payer_locking_script.as_slice()),
        Param::Time(c.updated_at),
        Param::Int(local_id),
    ];
    let q = Query { sql: commission_updating().sql(), params };
    assert(q@ =~= commission_update_query(*c, local_id));
    q
}

// the proof of a transaction

/// The text of the lookup of a proven transaction by its txid.
pub open spec fn proof_lookup(txid: Seq<char>) -> QueryView {
    QueryView {
        sql: "SELECT proven_tx_id FROM proven_txs WHERE txid = ?"@,
        params: seq![SqlValue::Text(txid)],
    }
}

/// Looks up the id of the proven transaction with the given txid, where there is a txid.
pub fn resolve_proof_fk(proof_txid: &Option<String>) -> (lookup: Option<Query>)
    ensures
        lookup is Some <==> *proof_txid is Some,
        lookup matches Some(q) ==> q@ == proof_lookup((*proof_txid)->0@),
{
    match proof_txid {
        Some(txid) => {
            let q = Query {
                sql: "SELECT proven_tx_id FROM proven_txs WHERE txid = ?".to_owned(),
                params: vec![text_param(txid.as_str())],
            };
            assert(q@ =~= proof_lookup(txid@));
            Some(q)
        },
        None => None,
    }
}

pub open spec fn proof_link() -> UpdateView {
    UpdateView {
        table: Table::Transactions,
        sets: all_bound(seq![Column::ProvenTxId]),
        id: Column::TransactionId,
    }
}

pub open spec fn proof_link_query(proof_fk: i64, local_id: i64) -> QueryView {
    QueryView {
        sql: proof_link().text(),
        params: seq![SqlValue::Int(proof_fk as int), SqlValue::Int(local_id as int)],
    }
}

/// Links a transaction to its proof.
pub fn link_proof(proof_fk: i64, local_id: i64) -> (q: Query)
    ensures
        q@ == proof_link_query(proof_fk, local_id),
{
    let plan = Update {
        table: Table::Transactions,
        sets: set_all_bound(&vec![Column::ProvenTxId]),
        id: Column::TransactionId,
    };
    assert(plan@ =~= proof_link());
    let q = Query { sql: plan.sql(), params: vec![Param::Int(proof_fk), Param::Int(local_id)] };
    assert(q@ =~= proof_link_query(proof_fk, local_id));
    q
}

} // verus!
