//! The statements of a batched merge: for each entity one insert that merges on
//! conflict and returns the id of the row.

use crate::entities::{
    TableCertificate, TableCertificateField, TableCommission, TableOutput, TableOutputBasket,
    TableOutputTag, TableProvenTx, TableProvenTxReq, TableTransaction, TableTxLabel,
};
use crate::r2::{should_use_r2, THRESHOLD};
use crate::sql::expr::{
    arms_text, assigns, choice_sql, choice_text, Arm, Assign, AssignView, Cond, Pick, Place,
    Subject,
};
use crate::sql::names::{Column, Table};
use crate::sql::plan::{
    bind_all, binding, both, both_of, fills_blob, newer_wins, newest, only, only_if,
    set_all_newer, set_blob, set_newer, set_when, taken_when, Insert, InsertView, Slot, Upsert,
    UpsertView,
};
use crate::sql::query::{
    blob_param, blob_value, bytes_of, bytes_param, flag_param, flag_value, int_param, int_value,
    optional_text_param, text_param, text_value, Param, Query, QueryView, SqlValue,
};
use crate::time::Timestamp;
use vstd::prelude::*;
use vstd::slice::slice_to_vec;

verus! {

/// The assignment by which the newer row wins, for a column and a table given by name.
pub fn nw(t: &str, c: &str) -> (s: String)
    ensures
        s@ == c@ + " = CASE WHEN excluded.updated_at > "@ + t@ + ".updated_at THEN excluded."@ + c@
            + " ELSE "@ + t@ + "."@ + c@ + " END"@,
{
    let arms = vec![Arm { when: only_if(Cond::Newer), yields: Pick::Incoming }];
    proof {
        newer_text(t@, c@);
        assert(arms@ =~= seq![Arm { when: only(Cond::Newer), yields: Pick::Incoming }]);
    }
    choice_sql(Place::Conflict, t, c, &arms, Pick::Stored)
}

proof fn newer_text(t: Seq<char>, c: Seq<char>)
    ensures
        choice_text(
            Place::Conflict,
            t,
            c,
            seq![Arm { when: only(Cond::Newer), yields: Pick::Incoming }],
            Pick::Stored,
        ) == c + " = CASE WHEN excluded.updated_at > "@ + t + ".updated_at THEN excluded."@ + c
            + " ELSE "@ + t + "."@ + c + " END"@,
{
    let arms = seq![Arm { when: only(Cond::Newer), yields: Pick::Incoming }];
    reveal_strlit(" = CASE ");
    reveal_strlit("WHEN ");
    reveal_strlit("excluded.");
    reveal_strlit("updated_at");
    reveal_strlit(" > ");
    reveal_strlit(" = CASE WHEN excluded.updated_at > ");
    reveal_strlit(".");
    reveal_strlit(" THEN ");
    reveal_strlit(".updated_at THEN excluded.");
    reveal_strlit(" ");
    reveal_strlit("ELSE ");
    reveal_strlit(" ELSE ");
    reveal_strlit(" END");
    assert(arms.drop_last() =~= Seq::<Arm>::empty());
    assert(arms_text(Place::Conflict, t, c, arms.drop_last()) =~= Seq::<char>::empty());
    assert(" = CASE WHEN excluded.updated_at > "@ =~= " = CASE "@ + "WHEN "@ + "excluded."@
        + "updated_at"@ + " > "@);
    assert(".updated_at THEN excluded."@ =~= "."@ + "updated_at"@ + " THEN "@ + "excluded."@);
    assert(" ELSE "@ =~= " "@ + "ELSE "@);
    assert(choice_text(Place::Conflict, t, c, arms, Pick::Stored) =~= c
        + " = CASE WHEN excluded.updated_at > "@ + t + ".updated_at THEN excluded."@ + c
        + " ELSE "@ + t + "."@ + c + " END"@);
}

/// The assignment that fills an empty blob from a newer row and keeps a blob that is
/// there, for a column and a table given by name.
pub fn nw_blob(t: &str, c: &str) -> (s: String)
    ensures
        s@ == c@ + " = CASE WHEN ("@ + t@ + "."@ + c@ + " IS NULL OR length("@ + t@ + "."@ + c@
            + ")=0) AND excluded.updated_at > "@ + t@ + ".updated_at THEN excluded."@ + c@
            + " ELSE "@ + t@ + "."@ + c@ + " END"@,
{
    let when = both_of(Cond::StoredEmpty(Subject::Own), Cond::Newer);
    let arms = vec![Arm { when, yields: Pick::Incoming }];
    proof {
        blob_text(t@, c@);
        assert(arms@ =~= seq![
            Arm {
                when: both(Cond::StoredEmpty(Subject::Own), Cond::Newer),
                yields: Pick::Incoming,
            },
        ]);
    }
    choice_sql(Place::Conflict, t, c, &arms, Pick::Stored)
}

proof fn blob_text(t: Seq<char>, c: Seq<char>)
    ensures
        choice_text(
            Place::Conflict,
            t,
            c,
            seq![
                Arm {
                    when: both(Cond::StoredEmpty(Subject::Own), Cond::Newer),
                    yields: Pick::Incoming,
                },
            ],
            Pick::Stored,
        ) == c + " = CASE WHEN ("@ + t + "."@ + c + " IS NULL OR length("@ + t + "."@ + c
            + ")=0) AND excluded.updated_at > "@ + t + ".updated_at THEN excluded."@ + c
            + " ELSE "@ + t + "."@ + c + " END"@,
{
    let arms = seq![
        Arm { when: both(Cond::StoredEmpty(Subject::Own), Cond::Newer), yields: Pick::Incoming },
    ];
    reveal_strlit(" = CASE ");
    reveal_strlit("WHEN ");
    reveal_strlit("(");
    reveal_strlit(" = CASE WHEN (");
    reveal_strlit(")=0)");
    reveal_strlit(" AND ");
    reveal_strlit("excluded.");
    reveal_strlit("updated_at");
    reveal_strlit(" > ");
    reveal_strlit(")=0) AND excluded.updated_at > ");
    reveal_strlit(".");
    reveal_strlit(" THEN ");
    reveal_strlit(".updated_at THEN excluded.");
    reveal_strlit(" ");
    reveal_strlit("ELSE ");
    reveal_strlit(" ELSE ");
    assert(arms.drop_last() =~= Seq::<Arm>::empty());
    assert(arms_text(Place::Conflict, t, c, arms.drop_last()) =~= Seq::<char>::empty());
    assert(" = CASE WHEN ("@ =~= " = CASE "@ + "WHEN "@ + "("@);
    assert(")=0) AND excluded.updated_at > "@ =~= ")=0)"@ + " AND "@ + "excluded."@
        + "updated_at"@ + " > "@);
    assert(".updated_at THEN excluded."@ =~= "."@ + "updated_at"@ + " THEN "@ + "excluded."@);
    assert(" ELSE "@ =~= " "@ + "ELSE "@);
    assert(choice_text(Place::Conflict, t, c, arms, Pick::Stored) =~= c + " = CASE WHEN ("@ + t
        + "."@ + c + " IS NULL OR length("@ + t + "."@ + c + ")=0) AND excluded.updated_at > "@ + t
        + ".updated_at THEN excluded."@ + c + " ELSE "@ + t + "."@ + c + " END"@);
}

/// The bytes of an optional blob that are kept in its column: all of a blob that is short
/// enough, and nothing of one that goes to the object store.
pub open spec fn inline_bytes(data: Option<Seq<u8>>) -> Option<Seq<u8>> {
    match data {
        Some(d) => if d.len() <= THRESHOLD { Some(d) } else { None },
        None => None,
    }
}

/// Whether an optional blob is there and goes to the object store.
pub open spec fn overflows(data: Option<Seq<u8>>) -> bool {
    match data {
        Some(d) => d.len() > THRESHOLD,
        None => false,
    }
}

/// The bytes of an optional slice.
pub open spec fn slice_bytes(data: Option<&[u8]>) -> Option<Seq<u8>> {
    match data {
        Some(d) => Some(d@),
        None => None,
    }
}

/// The value that the batched merge binds to a blob column.
pub fn inline_blob_bind(data: Option<&[u8]>) -> (inline: Option<Vec<u8>>)
    ensures
        bytes_of(inline) == inline_bytes(slice_bytes(data)),
{
    match data {
        Some(d) => {
            if should_use_r2(d) {
                None
            } else {
                Some(slice_to_vec(d))
            }
        },
        None => None,
    }
}

/// Whether a blob has to be put in the object store after the batched merge.
pub fn needs_r2_fill(data: Option<&[u8]>) -> (fill: bool)
    ensures
        fill == overflows(slice_bytes(data)),
{
    match data {
        Some(d) => should_use_r2(d),
        None => false,
    }
}

/// A blob that is there is kept in its column or put in the object store, and never both.
pub proof fn a_blob_goes_to_one_place(data: Option<Seq<u8>>)
    ensures
        data is Some ==> ((inline_bytes(data) is Some) != overflows(data)),
        data is None ==> inline_bytes(data) is None && !overflows(data),
        inline_bytes(data) is Some ==> inline_bytes(data) == data,
{
}

pub fn as_bytes(data: &Option<Vec<u8>>) -> (slice: Option<&[u8]>)
    ensures
        slice_bytes(slice) == bytes_of(*data),
{
    match data {
        Some(d) => Some(d.as_slice()),
        None => None,
    }
}

/// The bytes of an optional blob, none where it is missing.
pub open spec fn bytes_or_none(data: Option<Vec<u8>>) -> Seq<u8> {
    match data {
        Some(d) => d@,
        None => Seq::empty(),
    }
}

pub fn bytes_or_empty(data: &Option<Vec<u8>>) -> (p: Param)
    ensures
        p@ == SqlValue::Blob(bytes_or_none(*data)),
{
    match data {
        Some(d) => bytes_param(d.as_slice()),
        None => {
            let none: Vec<u8> = Vec::new();
            assert(none@ =~= Seq::<u8>::empty());
            Param::Blob(none)
        },
    }
}

/// The purpose of an output: change where none is given.
pub open spec fn purpose_text(purpose: Option<String>) -> Seq<char> {
    match purpose {
        Some(p) => p@,
        None => "change"@,
    }
}

pub fn purpose(given: &Option<String>) -> (p: String)
    ensures
        p@ == purpose_text(*given),
{
    match given {
        Some(p) => p.clone(),
        None => "change".to_owned(),
    }
}

/// Who provided an output: the user where that is left empty.
pub open spec fn provided_by_text(provider: Seq<char>) -> Seq<char> {
    if provider.len() == 0 {
        "you"@
    } else {
        provider
    }
}

pub fn provided_by(provider: &String) -> (p: String)
    ensures
        p@ == provided_by_text(provider@),
{
    if provider.as_str().is_empty() {
        "you".to_owned()
    } else {
        provider.clone()
    }
}

/// The basket of an output: the default basket is not left, and any other follows the
/// newer row.
pub open spec fn basket_pinned() -> AssignView {
    AssignView {
        column: Column::BasketId,
        arms: seq![
            Arm { when: only(Cond::InDefaultBasket), yields: Pick::Stored },
            Arm { when: only(Cond::Newer), yields: Pick::Incoming },
        ],
        otherwise: Pick::Stored,
    }
}

fn set_basket_pinned() -> (set: Assign)
    ensures
        set@ == basket_pinned(),
{
    let set = Assign {
        column: Column::BasketId,
        arms: vec![
            Arm { when: only_if(Cond::InDefaultBasket), yields: Pick::Stored },
            Arm { when: only_if(Cond::Newer), yields: Pick::Incoming },
        ],
        otherwise: Pick::Stored,
    };
    assert(set@ =~= basket_pinned());
    set
}

/// Whether an output can be spent: no longer once a spend is known on either side, else
/// still where it could, else as the newer row says.
pub open spec fn spendable_until_spent() -> AssignView {
    AssignView {
        column: Column::Spendable,
        arms: seq![
            Arm {
                when: only(Cond::StoredNotNull(Subject::Of(Column::SpentBy))),
                yields: Pick::Zero,
            },
            Arm {
                when: only(Cond::IncomingNotNull(Subject::Of(Column::SpentBy))),
                yields: Pick::Zero,
            },
            Arm { when: only(Cond::StoredOne(Subject::Own)), yields: Pick::One },
            Arm { when: only(Cond::Newer), yields: Pick::Incoming },
        ],
        otherwise: Pick::Stored,
    }
}

fn set_spendable_until_spent() -> (set: Assign)
    ensures
        set@ == spendable_until_spent(),
{
    let set = Assign {
        column: Column::Spendable,
        arms: vec![
            Arm {
                when: only_if(Cond::StoredNotNull(Subject::Of(Column::SpentBy))),
                yields: Pick::Zero,
            },
            Arm {
                when: only_if(Cond::IncomingNotNull(Subject::Of(Column::SpentBy))),
                yields: Pick::Zero,
            },
            Arm { when: only_if(Cond::StoredOne(Subject::Own)), yields: Pick::One },
            Arm { when: only_if(Cond::Newer), yields: Pick::Incoming },
        ],
        otherwise: Pick::Stored,
    };
    assert(set@ =~= spendable_until_spent());
    set
}

/// Whether an output is change: still where it was, else as the newer row says.
pub open spec fn change_kept() -> AssignView {
    AssignView {
        column: Column::Change,
        arms: seq![
            Arm { when: only(Cond::StoredOne(Subject::Own)), yields: Pick::One },
            Arm { when: only(Cond::Newer), yields: Pick::Incoming },
        ],
        otherwise: Pick::Stored,
    }
}

fn set_change_kept() -> (set: Assign)
    ensures
        set@ == change_kept(),
{
    let set = Assign {
        column: Column::Change,
        arms: vec![
            Arm { when: only_if(Cond::StoredOne(Subject::Own)), yields: Pick::One },
            Arm { when: only_if(Cond::Newer), yields: Pick::Incoming },
        ],
        otherwise: Pick::Stored,
    };
    assert(set@ =~= change_kept());
    set
}

/// A newer row takes the mark of deletion away.
pub open spec fn undeleted() -> AssignView {
    AssignView {
        column: Column::IsDeleted,
        arms: seq![Arm { when: only(Cond::Newer), yields: Pick::Zero }],
        otherwise: Pick::Stored,
    }
}

fn set_undeleted() -> (set: Assign)
    ensures
        set@ == undeleted(),
{
    let set = Assign {
        column: Column::IsDeleted,
        arms: vec![Arm { when: only_if(Cond::Newer), yields: Pick::Zero }],
        otherwise: Pick::Stored,
    };
    assert(set@ =~= undeleted());
    set
}

// ---------------------------------------------------------------------------
// Merges
// ---------------------------------------------------------------------------

/// The merge of a basket.
pub open spec fn basket_merge() -> UpsertView {
    UpsertView {
        insert: InsertView {
            table: Table::OutputBaskets,
            columns: binding(
                seq![
                    Column::UserId, Column::Name, Column::NumberOfDesiredUtxos,
                    Column::MinimumDesiredUtxoValue, Column::CreatedAt, Column::UpdatedAt,
                ],
            ),
        },
        key: seq![Column::Name, Column::UserId],
        sets: newest(
            seq![
                Column::NumberOfDesiredUtxos, Column::MinimumDesiredUtxoValue,
                Column::UpdatedAt,
            ],
        ),
        owned: false,
        returning: Column::BasketId,
    }
}

/// The merge as a plan.
pub fn basket_upsert() -> (plan: Upsert)
    ensures
        plan@ == basket_merge(),
{
    let plan = Upsert {
        insert: Insert {
            table: Table::OutputBaskets,
            columns: bind_all(
                &vec![
                    Column::UserId, Column::Name, Column::NumberOfDesiredUtxos,
                    Column::MinimumDesiredUtxoValue, Column::CreatedAt, Column::UpdatedAt,
                ],
            ),
        },
        key: vec![Column::Name, Column::UserId],
        sets: set_all_newer(
            &vec![
                Column::NumberOfDesiredUtxos, Column::MinimumDesiredUtxoValue,
                Column::UpdatedAt,
            ],
        ),
        owned: false,
        returning: Column::BasketId,
    };
    assert(plan@ =~= basket_merge());
    plan
}

pub open spec fn basket_query(user_id: i64, b: TableOutputBasket) -> QueryView {
    QueryView {
        sql: basket_merge().text(),
        params: seq![
            SqlValue::Int(user_id as int),
            SqlValue::Text(b.name@),
            SqlValue::Int(b.number_of_desired_utxos as int),
            SqlValue::Int(b.minimum_desired_utxo_value as int),
            SqlValue::Time(b.created_at),
            SqlValue::Time(b.updated_at),
        ],
    }
}

pub fn build_upsert_basket(user_id: i64, b: &TableOutputBasket) -> (q: Query)
    ensures
        q@ == basket_query(user_id, *b),
{
    let params = vec![
        Param::Int(user_id),
        text_param(b.name.as_str()),
        Param::Int(b.number_of_desired_utxos as i64),
        Param::Int(b.minimum_desired_utxo_value),
        Param::Time(b.created_at),
        Param::Time(b.updated_at),
    ];
    let q = Query { sql: basket_upsert().sql(), params };
    assert(q@ =~= basket_query(user_id, *b));
    q
}

/// The merge of a proven transaction; its blobs are kept in their columns.
pub open spec fn proven_tx_merge() -> UpsertView {
    UpsertView {
        insert: InsertView {
            table: Table::ProvenTxs,
            columns: binding(
                seq![
                    Column::Txid, Column::Height, Column::Idx, Column::BlockHash,
                    Column::MerkleRoot, Column::MerklePath, Column::RawTx, Column::CreatedAt,
                    Column::UpdatedAt,
                ],
            ),
        },
        key: seq![Column::Txid],
        sets: newest(
            seq![
                Column::Height, Column::Idx, Column::BlockHash, Column::MerkleRoot,
                Column::MerklePath, Column::RawTx, Column::UpdatedAt,
            ],
        ),
        owned: false,
        returning: Column::ProvenTxId,
    }
}

/// The merge as a plan.
pub fn proven_tx_upsert() -> (plan: Upsert)
    ensures
        plan@ == proven_tx_merge(),
{
    let plan = Upsert {
        insert: Insert {
            table: Table::ProvenTxs,
            columns: bind_all(
                &vec![
                    Column::Txid, Column::Height, Column::Idx, Column::BlockHash,
                    Column::MerkleRoot, Column::MerklePath, Column::RawTx, Column::CreatedAt,
                    Column::UpdatedAt,
                ],
            ),
        },
        key: vec![Column::Txid],
        sets: set_all_newer(
            &vec![
                Column::Height, Column::Idx, Column::BlockHash, Column::MerkleRoot,
                Column::MerklePath, Column::RawTx, Column::UpdatedAt,
            ],
        ),
        owned: false,
        returning: Column::ProvenTxId,
    };
    assert(plan@ =~= proven_tx_merge());
    plan
}

pub open spec fn proven_tx_query(p: TableProvenTx) -> QueryView {
    QueryView {
        sql: proven_tx_merge().text(),
        params: seq![
            SqlValue::Text(p.txid@),
            SqlValue::Int(p.height as int),
            SqlValue::Int(p.index as int),
            SqlValue::Text(p.block_hash@),
            SqlValue::Text(p.merkle_root@),
            SqlValue::Blob(p.merkle_path@),
            SqlValue::Blob(p.raw_tx@),
            SqlValue::Time(p.created_at),
            SqlValue::Time(p.updated_at),
        ],
    }
}

pub fn build_upsert_proven_tx(p: &TableProvenTx) -> (q: Query)
    ensures
        q@ == proven_tx_query(*p),
{
    let params = vec![
        text_param(p.txid.as_str()),
        Param::Int(p.height),
        Param::Int(p.index),
        text_param(p.block_hash.as_str()),
        text_param(p.merkle_root.as_str()),
        bytes_param(p.merkle_path.as_slice()),
        bytes_param(p.raw_tx.as_slice()),
        Param::Time(p.created_at),
        Param::Time(p.updated_at),
    ];
    let q = Query { sql: proven_tx_upsert().sql(), params };
    assert(q@ =~= proven_tx_query(*p));
    q
}

/// The merge of a proof request; the id of its proof goes in as it came.
pub open spec fn proven_tx_req_merge() -> UpsertView {
    UpsertView {
        insert: InsertView {
            table: Table::ProvenTxReqs,
            columns: binding(
                seq![
                    Column::Txid, Column::Status, Column::Attempts, Column::History,
                    Column::Notify, Column::Notified, Column::RawTx, Column::InputBeef,
                    Column::ProvenTxId, Column::Batch, Column::CreatedAt, Column::UpdatedAt,
                ],
            ),
        },
        key: seq![Column::Txid],
        sets: seq![
            newer_wins(Column::Status),
            newer_wins(Column::Attempts),
            newer_wins(Column::History),
            newer_wins(Column::Notified),
            newer_wins(Column::Notify),
            newer_wins(Column::RawTx),
            fills_blob(Column::InputBeef),
            newer_wins(Column::ProvenTxId),
            newer_wins(Column::Batch),
            newer_wins(Column::UpdatedAt),
        ],
        owned: false,
        returning: Column::ProvenTxReqId,
    }
}

/// The merge as a plan.
pub fn proven_tx_req_upsert() -> (plan: Upsert)
    ensures
        plan@ == proven_tx_req_merge(),
{
    let sets = vec![
        set_newer(Column::Status),
        set_newer(Column::Attempts),
        set_newer(Column::History),
        set_newer(Column::Notified),
        set_newer(Column::Notify),
        set_newer(Column::RawTx),
        set_blob(Column::InputBeef),
        set_newer(Column::ProvenTxId),
        set_newer(Column::Batch),
        set_newer(Column::UpdatedAt),
    ];
    assert(assigns(sets@) =~= proven_tx_req_merge().sets);
    let plan = Upsert {
        insert: Insert {
            table: Table::ProvenTxReqs,
            columns: bind_all(
                &vec![
                    Column::Txid, Column::Status, Column::Attempts, Column::History,
                    Column::Notify, Column::Notified, Column::RawTx, Column::InputBeef,
                    Column::ProvenTxId, Column::Batch, Column::CreatedAt, Column::UpdatedAt,
                ],
            ),
        },
        key: vec![Column::Txid],
        sets,
        owned: false,
        returning: Column::ProvenTxReqId,
    };
    assert(plan@ =~= proven_tx_req_merge());
    plan
}

pub open spec fn proven_tx_req_query(req: TableProvenTxReq) -> QueryView {
    QueryView {
        sql: proven_tx_req_merge().text(),
        params: seq![
            SqlValue::Text(req.txid@),
            SqlValue::Text(req.status@),
            SqlValue::Int(req.attempts as int),
            SqlValue::Text(req.history@),
            SqlValue::Text(req.notify@),
            flag_value(req.notified),
            SqlValue::Blob(bytes_or_none(req.raw_tx)),
            blob_value(inline_bytes(bytes_of(req.input_beef))),
            int_value(req.proven_tx_id),
            text_value(req.batch),
            SqlValue::Time(req.created_at),
            SqlValue::Time(req.updated_at),
        ],
    }
}

pub fn build_upsert_proven_tx_req(req: &TableProvenTxReq) -> (q: Query)
    ensures
        q@ == proven_tx_req_query(*req),
{
    let params = vec![
        text_param(req.txid.as_str()),
        text_param(req.status.as_str()),
        Param::Int(req.attempts as i64),
        text_param(req.history.as_str()),
        text_param(req.notify.as_str()),
        flag_param(req.notified),
        bytes_or_empty(&req.raw_tx),
        blob_param(inline_blob_bind(as_bytes(&req.input_beef))),
        int_param(req.proven_tx_id),
        optional_text_param(&req.batch),
        Param::Time(req.created_at),
        Param::Time(req.updated_at),
    ];
    let q = Query { sql: proven_tx_req_upsert().sql(), params };
    assert(q@ =~= proven_tx_req_query(*req));
    q
}

/// The merge of a label.
pub open spec fn tx_label_merge() -> UpsertView {
    UpsertView {
        insert: InsertView {
            table: Table::TxLabels,
            columns: binding(
                seq![
                    Column::UserId, Column::Label, Column::CreatedAt, Column::UpdatedAt,
                ],
            ),
        },
        key: seq![Column::Label, Column::UserId],
        sets: newest(seq![Column::UpdatedAt]),
        owned: false,
        returning: Column::TxLabelId,
    }
}

/// The merge as a plan.
pub fn tx_label_upsert() -> (plan: Upsert)
    ensures
        plan@ == tx_label_merge(),
{
    let plan = Upsert {
        insert: Insert {
            table: Table::TxLabels,
            columns: bind_all(
                &vec![
                    Column::UserId, Column::Label, Column::CreatedAt, Column::UpdatedAt,
                ],
            ),
        },
        key: vec![Column::Label, Column::UserId],
        sets: set_all_newer(&vec![Column::UpdatedAt]),
        owned: false,
        returning: Column::TxLabelId,
    };
    assert(plan@ =~= tx_label_merge());
    plan
}

pub open spec fn tx_label_query(user_id: i64, l: TableTxLabel) -> QueryView {
    QueryView {
        sql: tx_label_merge().text(),
        params: seq![
            SqlValue::Int(user_id as int),
            SqlValue::Text(l.label@),
            SqlValue::Time(l.created_at),
            SqlValue::Time(l.updated_at),
        ],
    }
}

pub fn build_upsert_tx_label(user_id: i64, l: &TableTxLabel) -> (q: Query)
    ensures
        q@ == tx_label_query(user_id, *l),
{
    let params = vec![
        Param::Int(user_id),
        text_param(l.label.as_str()),
        Param::Time(l.created_at),
        Param::Time(l.updated_at),
    ];
    let q = Query { sql: tx_label_upsert().sql(), params };
    assert(q@ =~= tx_label_query(user_id, *l));
    q
}

/// The merge of a tag.
pub open spec fn output_tag_merge() -> UpsertView {
    UpsertView {
        insert: InsertView {
            table: Table::OutputTags,
            columns: binding(
                seq![
                    Column::UserId, Column::Tag, Column::CreatedAt, Column::UpdatedAt,
                ],
            ),
        },
        key: seq![Column::Tag, Column::UserId],
        sets: newest(seq![Column::UpdatedAt]),
        owned: false,
        returning: Column::OutputTagId,
    }
}

/// The merge as a plan.
pub fn output_tag_upsert() -> (plan: Upsert)
    ensures
        plan@ == output_tag_merge(),
{
    let plan = Upsert {
        insert: Insert {
            table: Table::OutputTags,
            columns: bind_all(
                &vec![
                    Column::UserId, Column::Tag, Column::CreatedAt, Column::UpdatedAt,
                ],
            ),
        },
        key: vec![Column::Tag, Column::UserId],
        sets: set_all_newer(&vec![Column::UpdatedAt]),
        owned: false,
        returning: Column::OutputTagId,
    };
    assert(plan@ =~= output_tag_merge());
    plan
}

pub open spec fn output_tag_query(user_id: i64, t: TableOutputTag) -> QueryView {
    QueryView {
        sql: output_tag_merge().text(),
        params: seq![
            SqlValue::Int(user_id as int),
            SqlValue::Text(t.tag@),
            SqlValue::Time(t.created_at),
            SqlValue::Time(t.updated_at),
        ],
    }
}

pub fn build_upsert_output_tag(user_id: i64, t: &TableOutputTag) -> (q: Query)
    ensures
        q@ == output_tag_query(user_id, *t),
{
    let params = vec![
        Param::Int(user_id),
        text_param(t.tag.as_str()),
        Param::Time(t.created_at),
        Param::Time(t.updated_at),
    ];
    let q = Query { sql: output_tag_upsert().sql(), params };
    assert(q@ =~= output_tag_query(user_id, *t));
    q
}

/// The merge of a transaction. A link to a proof is never cleared: it is set only where the
/// newer row has one. The transaction of another user that has the same reference is left
/// alone.
pub open spec fn transaction_merge() -> UpsertView {
    UpsertView {
        insert: InsertView {
            table: Table::Transactions,
            columns: binding(
                seq![
                    Column::UserId, Column::Txid, Column::Status, Column::Reference,
                    Column::Description, Column::Satoshis, Column::Version, Column::LockTime,
                    Column::IsOutgoing, Column::ProvenTxId, Column::RawTx, Column::InputBeef,
                    Column::CreatedAt, Column::UpdatedAt,
                ],
            ),
        },
        key: seq![Column::Reference],
        sets: seq![
            newer_wins(Column::Txid),
            newer_wins(Column::Status),
            newer_wins(Column::Description),
            newer_wins(Column::Satoshis),
            newer_wins(Column::Version),
            newer_wins(Column::LockTime),
            newer_wins(Column::IsOutgoing),
            fills_blob(Column::RawTx),
            fills_blob(Column::InputBeef),
            taken_when(Column::ProvenTxId, both(Cond::Newer, Cond::IncomingNotNull(Subject::Own))),
            newer_wins(Column::UpdatedAt),
        ],
        owned: true,
        returning: Column::TransactionId,
    }
}

/// The merge as a plan.
pub fn transaction_upsert() -> (plan: Upsert)
    ensures
        plan@ == transaction_merge(),
{
    let sets = vec![
        set_newer(Column::Txid),
        set_newer(Column::Status),
        set_newer(Column::Description),
        set_newer(Column::Satoshis),
        set_newer(Column::Version),
        set_newer(Column::LockTime),
        set_newer(Column::IsOutgoing),
        set_blob(Column::RawTx),
        set_blob(Column::InputBeef),
        set_when(Column::ProvenTxId, both_of(Cond::Newer, Cond::IncomingNotNull(Subject::Own))),
        set_newer(Column::UpdatedAt),
    ];
    assert(assigns(sets@) =~= transaction_merge().sets);
    let plan = Upsert {
        insert: Insert {
            table: Table::Transactions,
            columns: bind_all(
                &vec![
                    Column::UserId, Column::Txid, Column::Status, Column::Reference,
                    Column::Description, Column::Satoshis, Column::Version, Column::LockTime,
                    Column::IsOutgoing, Column::ProvenTxId, Column::RawTx, Column::InputBeef,
                    Column::CreatedAt, Column::UpdatedAt,
                ],
            ),
        },
        key: vec![Column::Reference],
        sets,
        owned: true,
        returning: Column::TransactionId,
    };
    assert(plan@ =~= transaction_merge());
    plan
}

pub open spec fn transaction_query(
    user_id: i64,
    tx: TableTransaction,
    proof_fk: Option<i64>,
) -> QueryView {
    QueryView {
        sql: transaction_merge().text(),
        params: seq![
            SqlValue::Int(user_id as int),
            text_value(tx.txid),
            SqlValue::Text(tx.status@),
            SqlValue::Text(tx.reference@),
            SqlValue::Text(tx.description@),
            SqlValue::Int(tx.satoshis as int),
            SqlValue::Int(tx.version as int),
            SqlValue::Int(tx.lock_time as int),
            flag_value(tx.is_outgoing),
            int_value(proof_fk),
            blob_value(inline_bytes(bytes_of(tx.raw_tx))),
            blob_value(inline_bytes(bytes_of(tx.input_beef))),
            SqlValue::Time(tx.created_at),
            SqlValue::Time(tx.updated_at),
        ],
    }
}

pub fn build_upsert_transaction(
    user_id: i64,
    tx: &TableTransaction,
    proof_fk: Option<i64>,
) -> (q: Query)
    ensures
        q@ == transaction_query(user_id, *tx, proof_fk),
{
    let params = vec![
        Param::Int(user_id),
        optional_text_param(&tx.txid),
        text_param(tx.status.as_str()),
        text_param(tx.reference.as_str()),
        text_param(tx.description.as_str()),
        Param::Int(tx.satoshis),
        Param::Int(tx.version as i64),
        Param::Int(tx.lock_time),
        flag_param(tx.is_outgoing),
        int_param(proof_fk),
        blob_param(inline_blob_bind(as_bytes(&tx.raw_tx))),
        blob_param(inline_blob_bind(as_bytes(&tx.input_beef))),
        Param::Time(tx.created_at),
        Param::Time(tx.updated_at),
    ];
    let q = Query { sql: transaction_upsert().sql(), params };
    assert(q@ =~= transaction_query(user_id, *tx, proof_fk));
    q
}

/// The merge of an output. What makes it fundable is only ever added: a change output stays
/// one, an output of the default basket stays there, filled values stay, and only a spend
/// that is known makes it unspendable.
pub open spec fn output_merge() -> UpsertView {
    UpsertView {
        insert: InsertView {
            table: Table::Outputs,
            columns: binding(
                seq![
                    Column::UserId, Column::TransactionId, Column::BasketId, Column::Txid,
                    Column::Vout, Column::Satoshis, Column::LockingScript, Column::ScriptLength,
                    Column::ScriptOffset, Column::Type, Column::ProvidedBy, Column::Purpose,
                    Column::Spendable, Column::Change, Column::DerivationPrefix,
                    Column::DerivationSuffix, Column::SenderIdentityKey,
                    Column::CustomInstructions, Column::SpentBy, Column::CreatedAt,
                    Column::UpdatedAt,
                ],
            ),
        },
        key: seq![Column::TransactionId, Column::Vout, Column::UserId],
        sets: seq![
            fills_blob(Column::LockingScript),
            newer_wins(Column::TransactionId),
            basket_pinned(),
            taken_when(Column::Satoshis, both(Cond::StoredZero(Subject::Own), Cond::Newer)),
            taken_when(
                Column::ScriptLength,
                both(Cond::StoredEmpty(Subject::Of(Column::LockingScript)), Cond::Newer),
            ),
            taken_when(
                Column::ScriptOffset,
                both(Cond::StoredEmpty(Subject::Of(Column::LockingScript)), Cond::Newer),
            ),
            newer_wins(Column::Type),
            taken_when(Column::SpentBy, only(Cond::StoredNull(Subject::Own))),
            spendable_until_spent(),
            change_kept(),
            taken_when(Column::DerivationPrefix, both(Cond::StoredNull(Subject::Own), Cond::Newer)),
            taken_when(Column::DerivationSuffix, both(Cond::StoredNull(Subject::Own), Cond::Newer)),
            newer_wins(Column::SenderIdentityKey),
            newer_wins(Column::CustomInstructions),
            newer_wins(Column::UpdatedAt),
        ],
        owned: false,
        returning: Column::OutputId,
    }
}

/// The merge as a plan.
pub fn output_upsert() -> (plan: Upsert)
    ensures
        plan@ == output_merge(),
{
    let sets = vec![
        set_blob(Column::LockingScript),
        set_newer(Column::TransactionId),
        set_basket_pinned(),
        set_when(Column::Satoshis, both_of(Cond::StoredZero(Subject::Own), Cond::Newer)),
        set_when(
            Column::ScriptLength,
            both_of(Cond::StoredEmpty(Subject::Of(Column::LockingScript)), Cond::Newer),
        ),
        set_when(
            Column::ScriptOffset,
            both_of(Cond::StoredEmpty(Subject::Of(Column::LockingScript)), Cond::Newer),
        ),
        set_newer(Column::Type),
        set_when(Column::SpentBy, only_if(Cond::StoredNull(Subject::Own))),
        set_spendable_until_spent(),
        set_change_kept(),
        set_when(Column::DerivationPrefix, both_of(Cond::StoredNull(Subject::Own), Cond::Newer)),
        set_when(Column::DerivationSuffix, both_of(Cond::StoredNull(Subject::Own), Cond::Newer)),
        set_newer(Column::SenderIdentityKey),
        set_newer(Column::CustomInstructions),
        set_newer(Column::UpdatedAt),
    ];
    assert(assigns(sets@) =~= output_merge().sets);
    let plan = Upsert {
        insert: Insert {
            table: Table::Outputs,
            columns: bind_all(
                &vec![
                    Column::UserId, Column::TransactionId, Column::BasketId, Column::Txid,
                    Column::Vout, Column::Satoshis, Column::LockingScript, Column::ScriptLength,
                    Column::ScriptOffset, Column::Type, Column::ProvidedBy, Column::Purpose,
                    Column::Spendable, Column::Change, Column::DerivationPrefix,
                    Column::DerivationSuffix, Column::SenderIdentityKey,
                    Column::CustomInstructions, Column::SpentBy, Column::CreatedAt,
                    Column::UpdatedAt,
                ],
            ),
        },
        key: vec![Column::TransactionId, Column::Vout, Column::UserId],
        sets,
        owned: false,
        returning: Column::OutputId,
    };
    assert(plan@ =~= output_merge());
    plan
}

pub open spec fn output_query(
    user_id: i64,
    o: TableOutput,
    local_tx_id: i64,
    local_basket_id: Option<i64>,
    local_spent_by: Option<i64>,
) -> QueryView {
    QueryView {
        sql: output_merge().text(),
        params: seq![
            SqlValue::Int(user_id as int),
            SqlValue::Int(local_tx_id as int),
            int_value(local_basket_id),
            SqlValue::Text(o.txid@),
            SqlValue::Int(o.vout as int),
            SqlValue::Int(o.satoshis as int),
            blob_value(inline_bytes(bytes_of(o.locking_script))),
            SqlValue::Int(o.script_length as int),
            SqlValue::Int(o.script_offset as int),
            SqlValue::Text(o.output_type@),
            SqlValue::Text(provided_by_text(o.provided_by@)),
            SqlValue::Text(purpose_text(o.purpose)),
            flag_value(o.spendable),
            flag_value(o.change),
            text_value(o.derivation_prefix),
            text_value(o.derivation_suffix),
            text_value(o.sender_identity_key),
            text_value(o.custom_instructions),
            int_value(local_spent_by),
            SqlValue::Time(o.created_at),
            SqlValue::Time(o.updated_at),
        ],
    }
}

pub fn build_upsert_output(
    user_id: i64,
    o: &TableOutput,
    local_tx_id: i64,
    local_basket_id: Option<i64>,
    local_spent_by: Option<i64>,
) -> (q: Query)
    ensures
        q@ == output_query(user_id, *o, local_tx_id, local_basket_id, local_spent_by),
{
    let params = vec![
        Param::Int(user_id),
        Param::Int(local_tx_id),
        int_param(local_basket_id),
        text_param(o.txid.as_str()),
        Param::Int(o.vout as i64),
        Param::Int(o.satoshis),
        blob_param(inline_blob_bind(as_bytes(&o.locking_script))),
        Param::Int(o.script_length as i64),
        Param::Int(o.script_offset as i64),
        text_param(o.output_type.as_str()),
        Param::Text(provided_by(&o.provided_by)),
        Param::Text(purpose(&o.purpose)),
        flag_param(o.spendable),
        flag_param(o.change),
        optional_text_param(&o.derivation_prefix),
        optional_text_param(&o.derivation_suffix),
        optional_text_param(&o.sender_identity_key),
        optional_text_param(&o.custom_instructions),
        int_param(local_spent_by),
        Param::Time(o.created_at),
        Param::Time(o.updated_at),
    ];
    let q = Query { sql: output_upsert().sql(), params };
    assert(q@ =~= output_query(user_id, *o, local_tx_id, local_basket_id, local_spent_by));
    q
}

/// The merge of the fact that a transaction carries a label; a newer one brings a deleted one back.
pub open spec fn tx_label_map_merge() -> UpsertView {
    UpsertView {
        insert: InsertView {
            table: Table::TxLabelsMap,
            columns: seq![
                (Column::TxLabelId, Slot::Bind),
                (Column::TransactionId, Slot::Bind),
                (Column::IsDeleted, Slot::Zero),
                (Column::CreatedAt, Slot::Bind),
                (Column::UpdatedAt, Slot::Bind),
            ],
        },
        key: seq![Column::TxLabelId, Column::TransactionId],
        sets: seq![
            undeleted(),
            newer_wins(Column::UpdatedAt),
        ],
        owned: false,
        returning: Column::TxLabelMapId,
    }
}

/// The merge as a plan.
pub fn tx_label_map_upsert() -> (plan: Upsert)
    ensures
        plan@ == tx_label_map_merge(),
{
    let sets = vec![
        set_undeleted(),
        set_newer(Column::UpdatedAt),
    ];
    assert(assigns(sets@) =~= tx_label_map_merge().sets);
    let plan = Upsert {
        insert: Insert {
            table: Table::TxLabelsMap,
            columns: vec![
                (Column::TxLabelId, Slot::Bind),
                (Column::TransactionId, Slot::Bind),
                (Column::IsDeleted, Slot::Zero),
                (Column::CreatedAt, Slot::Bind),
                (Column::UpdatedAt, Slot::Bind),
            ],
        },
        key: vec![Column::TxLabelId, Column::TransactionId],
        sets,
        owned: false,
        returning: Column::TxLabelMapId,
    };
    assert(plan@ =~= tx_label_map_merge());
    plan
}

pub open spec fn tx_label_map_query(
    tx_id: i64,
    label_id: i64,
    updated_at: Timestamp,
    created_at: Timestamp,
) -> QueryView {
    QueryView {
        sql: tx_label_map_merge().text(),
        params: seq![
            SqlValue::Int(label_id as int),
            SqlValue::Int(tx_id as int),
            SqlValue::Time(created_at),
            SqlValue::Time(updated_at),
        ],
    }
}

pub fn build_upsert_tx_label_map(
    tx_id: i64,
    label_id: i64,
    updated_at: Timestamp,
    created_at: Timestamp,
) -> (q: Query)
    ensures
        q@ == tx_label_map_query(tx_id, label_id, updated_at, created_at),
{
    let params = vec![
        Param::Int(label_id),
        Param::Int(tx_id),
        Param::Time(created_at),
        Param::Time(updated_at),
    ];
    let q = Query { sql: tx_label_map_upsert().sql(), params };
    assert(q@ =~= tx_label_map_query(tx_id, label_id, updated_at, created_at));
    q
}

/// The merge of the fact that an output carries a tag; a newer one brings a deleted one back.
pub open spec fn output_tag_map_merge() -> UpsertView {
    UpsertView {
        insert: InsertView {
            table: Table::OutputTagsMap,
            columns: seq![
                (Column::OutputTagId, Slot::Bind),
                (Column::OutputId, Slot::Bind),
                (Column::IsDeleted, Slot::Zero),
                (Column::CreatedAt, Slot::Bind),
                (Column::UpdatedAt, Slot::Bind),
            ],
        },
        key: seq![Column::OutputTagId, Column::OutputId],
        sets: seq![
            undeleted(),
            newer_wins(Column::UpdatedAt),
        ],
        owned: false,
        returning: Column::OutputTagMapId,
    }
}

/// The merge as a plan.
pub fn output_tag_map_upsert() -> (plan: Upsert)
    ensures
        plan@ == output_tag_map_merge(),
{
    let sets = vec![
        set_undeleted(),
        set_newer(Column::UpdatedAt),
    ];
    assert(assigns(sets@) =~= output_tag_map_merge().sets);
    let plan = Upsert {
        insert: Insert {
            table: Table::OutputTagsMap,
            columns: vec![
                (Column::OutputTagId, Slot::Bind),
                (Column::OutputId, Slot::Bind),
                (Column::IsDeleted, Slot::Zero),
                (Column::CreatedAt, Slot::Bind),
                (Column::UpdatedAt, Slot::Bind),
            ],
        },
        key: vec![Column::OutputTagId, Column::OutputId],
        sets,
        owned: false,
        returning: Column::OutputTagMapId,
    };
    assert(plan@ =~= output_tag_map_merge());
    plan
}

pub open spec fn output_tag_map_query(
    output_id: i64,
    tag_id: i64,
    updated_at: Timestamp,
    created_at: Timestamp,
) -> QueryView {
    QueryView {
        sql: output_tag_map_merge().text(),
        params: seq![
            SqlValue::Int(tag_id as int),
            SqlValue::Int(output_id as int),
            SqlValue::Time(created_at),
            SqlValue::Time(updated_at),
        ],
    }
}

pub fn build_upsert_output_tag_map(
    output_id: i64,
    tag_id: i64,
    updated_at: Timestamp,
    created_at: Timestamp,
) -> (q: Query)
    ensures
        q@ == output_tag_map_query(output_id, tag_id, updated_at, created_at),
{
    let params = vec![
        Param::Int(tag_id),
        Param::Int(output_id),
        Param::Time(created_at),
        Param::Time(updated_at),
    ];
    let q = Query { sql: output_tag_map_upsert().sql(), params };
    assert(q@ =~= output_tag_map_query(output_id, tag_id, updated_at, created_at));
    q
}

/// The merge of a certificate.
pub open spec fn certificate_merge() -> UpsertView {
    UpsertView {
        insert: InsertView {
            table: Table::Certificates,
            columns: binding(
                seq![
                    Column::UserId, Column::SerialNumber, Column::Type, Column::Certifier,
                    Column::Subject, Column::Verifier, Column::RevocationOutpoint,
                    Column::Signature, Column::CreatedAt, Column::UpdatedAt,
                ],
            ),
        },
        key: seq![Column::UserId, Column::Type, Column::Certifier, Column::SerialNumber],
        sets: newest(
            seq![
                Column::Subject, Column::Verifier, Column::RevocationOutpoint,
                Column::Signature, Column::UpdatedAt,
            ],
        ),
        owned: false,
        returning: Column::CertificateId,
    }
}

/// The merge as a plan.
pub fn certificate_upsert() -> (plan: Upsert)
    ensures
        plan@ == certificate_merge(),
{
    let plan = Upsert {
        insert: Insert {
            table: Table::Certificates,
            columns: bind_all(
                &vec![
                    Column::UserId, Column::SerialNumber, Column::Type, Column::Certifier,
                    Column::Subject, Column::Verifier, Column::RevocationOutpoint,
                    Column::Signature, Column::CreatedAt, Column::UpdatedAt,
                ],
            ),
        },
        key: vec![Column::UserId, Column::Type, Column::Certifier, Column::SerialNumber],
        sets: set_all_newer(
            &vec![
                Column::Subject, Column::Verifier, Column::RevocationOutpoint,
                Column::Signature, Column::UpdatedAt,
            ],
        ),
        owned: false,
        returning: Column::CertificateId,
    };
    assert(plan@ =~= certificate_merge());
    plan
}

pub open spec fn certificate_query(user_id: i64, c: TableCertificate) -> QueryView {
    QueryView {
        sql: certificate_merge().text(),
        params: seq![
            SqlValue::Int(user_id as int),
            SqlValue::Text(c.serial_number@),
            SqlValue::Text(c.cert_type@),
            SqlValue::Text(c.certifier@),
            SqlValue::Text(c.subject@),
            text_value(c.verifier),
            SqlValue::Text(c.revocation_outpoint@),
            SqlValue::Text(c.signature@),
            SqlValue::Time(c.created_at),
            SqlValue::Time(c.updated_at),
        ],
    }
}

pub fn build_upsert_certificate(user_id: i64, c: &TableCertificate) -> (q: Query)
    ensures
        q@ == certificate_query(user_id, *c),
{
    let params = vec![
        Param::Int(user_id),
        text_param(c.serial_number.as_str()),
        text_param(c.cert_type.as_str()),
        text_param(c.certifier.as_str()),
        text_param(c.subject.as_str()),
        optional_text_param(&c.verifier),
        text_param(c.revocation_outpoint.as_str()),
        text_param(c.signature.as_str()),
        Param::Time(c.created_at),
        Param::Time(c.updated_at),
    ];
    let q = Query { sql: certificate_upsert().sql(), params };
    assert(q@ =~= certificate_query(user_id, *c));
    q
}

/// The merge of a field of a certificate.
pub open spec fn certificate_field_merge() -> UpsertView {
    UpsertView {
        insert: InsertView {
            table: Table::CertificateFields,
            columns: binding(
                seq![
                    Column::UserId, Column::CertificateId, Column::FieldName,
                    Column::FieldValue, Column::MasterKey, Column::CreatedAt, Column::UpdatedAt,
                ],
            ),
        },
        key: seq![Column::FieldName, Column::CertificateId],
        sets: newest(
            seq![
                Column::FieldValue, Column::MasterKey, Column::UpdatedAt,
            ],
        ),
        owned: false,
        returning: Column::CertificateFieldId,
    }
}

/// The merge as a plan.
pub fn certificate_field_upsert() -> (plan: Upsert)
    ensures
        plan@ == certificate_field_merge(),
{
    let plan = Upsert {
        insert: Insert {
            table: Table::CertificateFields,
            columns: bind_all(
                &vec![
                    Column::UserId, Column::CertificateId, Column::FieldName,
                    Column::FieldValue, Column::MasterKey, Column::CreatedAt, Column::UpdatedAt,
                ],
            ),
        },
        key: vec![Column::FieldName, Column::CertificateId],
        sets: set_all_newer(
            &vec![
                Column::FieldValue, Column::MasterKey, Column::UpdatedAt,
            ],
        ),
        owned: false,
        returning: Column::CertificateFieldId,
    };
    assert(plan@ =~= certificate_field_merge());
    plan
}

pub open spec fn certificate_field_query(
    user_id: i64,
    f: TableCertificateField,
    cert_id: i64,
) -> QueryView {
    QueryView {
        sql: certificate_field_merge().text(),
        params: seq![
            SqlValue::Int(user_id as int),
            SqlValue::Int(cert_id as int),
            SqlValue::Text(f.field_name@),
            SqlValue::Text(f.field_value@),
            SqlValue::Text(f.master_key@),
            SqlValue::Time(f.created_at),
            SqlValue::Time(f.updated_at),
        ],
    }
}

pub fn build_upsert_certificate_field(
    user_id: i64,
    f: &TableCertificateField,
    cert_id: i64,
) -> (q: Query)
    ensures
        q@ == certificate_field_query(user_id, *f, cert_id),
{
    let params = vec![
        Param::Int(user_id),
        Param::Int(cert_id),
        text_param(f.field_name.as_str()),
        text_param(f.field_value.as_str()),
        text_param(f.master_key.as_str()),
        Param::Time(f.created_at),
        Param::Time(f.updated_at),
    ];
    let q = Query { sql: certificate_field_upsert().sql(), params };
    assert(q@ =~= certificate_field_query(user_id, *f, cert_id));
    q
}

/// The merge of a commission; its script is kept in its column.
pub open spec fn commission_merge() -> UpsertView {
    UpsertView {
        insert: InsertView {
            table: Table::Commissions,
            columns: binding(
                seq![
                    Column::UserId, Column::TransactionId, Column::Satoshis, Column::KeyOffset,
                    Column::IsRedeemed, Column::LockingScript, Column::CreatedAt,
                    Column::UpdatedAt,
                ],
            ),
        },
        key: seq![Column::TransactionId],
        sets: newest(
            seq![
                Column::Satoshis, Column::KeyOffset, Column::IsRedeemed, Column::LockingScript,
                Column::UpdatedAt,
            ],
        ),
        owned: false,
        returning: Column::CommissionId,
    }
}

/// The merge as a plan.
pub fn commission_upsert() -> (plan: Upsert)
    ensures
        plan@ == commission_merge(),
{
    let plan = Upsert {
        insert: Insert {
            table: Table::Commissions,
            columns: bind_all(
                &vec![
                    Column::UserId, Column::TransactionId, Column::Satoshis, Column::KeyOffset,
                    Column::IsRedeemed, Column::LockingScript, Column::CreatedAt,
                    Column::UpdatedAt,
                ],
            ),
        },
        key: vec![Column::TransactionId],
        sets: set_all_newer(
            &vec![
                Column::Satoshis, Column::KeyOffset, Column::IsRedeemed, Column::LockingScript,
                Column::UpdatedAt,
            ],
        ),
        owned: false,
        returning: Column::CommissionId,
    };
    assert(plan@ =~= commission_merge());
    plan
}

pub open spec fn commission_query(user_id: i64, c: TableCommission, tx_id: i64) -> QueryView {
    QueryView {
        sql: commission_merge().text(),
        params: seq![
            SqlValue::Int(user_id as int),
            SqlValue::Int(tx_id as int),
            SqlValue::Int(c.satoshis as int),
            SqlValue::Text(c.key_offset@),
            flag_value(c.is_redeemed),
            SqlValue::Blob(c.payer_locking_script@),
            SqlValue::Time(c.created_at),
            SqlValue::Time(c.updated_at),
        ],
    }
}

pub fn build_upsert_commission(user_id: i64, c: &TableCommission, tx_id: i64) -> (q: Query)
    ensures
        q@ == commission_query(user_id, *c, tx_id),
{
    let params = vec![
        Param::Int(user_id),
        Param::Int(tx_id),
        Param::Int(c.satoshis),
        text_param(c.key_offset.as_str()),
        flag_param(c.is_redeemed),
        bytes_param(c.payer_locking_script.as_slice()),
        Param::Time(c.created_at),
        Param::Time(c.updated_at),
    ];
    let q = Query { sql: commission_upsert().sql(), params };
    assert(q@ =~= commission_query(user_id, *c, tx_id));
    q
}

} // verus!
