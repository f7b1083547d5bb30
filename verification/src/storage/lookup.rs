//! What a merge asks of the store besides its statements: ids by natural keys, the ids
//! that a batch returned, and the user's own record.

use crate::entities::TableUser;
use crate::error::{Error, ErrorView};
use crate::sql::query::{queries, text_param, Param, Query, QueryView, SqlValue};
use crate::text::{join, joined, sorted_distinct, sorted_set, texts, TextMap};
use crate::time::Timestamp;
use vstd::prelude::*;

verus! {

/// How many keys one statement asks for.
pub const KEYS_PER_QUERY: usize = 500;

/// A key and the id of its row, as far as the store has them.
#[derive(Debug, PartialEq, Eq)]
pub struct KeyedId {
    pub key: Option<String>,
    pub id: Option<i64>,
}

/// The rows folded into a map from keys to ids: a row without a key or an id adds nothing,
/// and a later row replaces an earlier one.
pub open spec fn absorbed(map: Map<Seq<char>, i64>, rows: Seq<KeyedId>) -> Map<Seq<char>, i64>
    decreases rows.len(),
{
    if rows.len() == 0 {
        map
    } else {
        let before = absorbed(map, rows.drop_last());
        match (rows.last().key, rows.last().id) {
            (Some(key), Some(id)) => before.insert(key@, id),
            _ => before,
        }
    }
}

/// Adds rows to a map from keys to ids.
pub fn absorb(map: &mut TextMap<i64>, rows: &Vec<KeyedId>)
    requires
        old(map).wf(),
    ensures
        final(map).wf(),
        final(map)@ == absorbed(old(map)@, rows@),
{
    let mut i: usize = 0;
    while i < rows.len()
        invariant
            i <= rows@.len(),
            map.wf(),
            map@ == absorbed(old(map)@, rows@.take(i as int)),
        decreases rows@.len() - i,
    {
        proof {
            assert(rows@.take(i + 1).drop_last() =~= rows@.take(i as int));
        }
        if let Some(key) = &rows[i].key {
            if let Some(id) = rows[i].id {
                map.insert(key.clone(), id);
            }
        }
        i = i + 1;
    }
    assert(rows@.take(i as int) =~= rows@);
}

// ---------------------------------------------------------------------------
// Ids by keys
// ---------------------------------------------------------------------------

/// The keys of the group with the given number.
pub open spec fn group_of(keys: Seq<Seq<char>>, g: int) -> Seq<Seq<char>> {
    let from = g * KEYS_PER_QUERY;
    keys.subrange(
        from,
        if from + KEYS_PER_QUERY <= keys.len() {
            from + KEYS_PER_QUERY
        } else {
            keys.len() as int
        },
    )
}

/// The statement that asks for one group: `select` followed by a placeholder for each key.
pub open spec fn group_query(
    select: Seq<char>,
    user_id: Option<i64>,
    group: Seq<Seq<char>>,
) -> QueryView {
    QueryView {
        sql: select + joined(Seq::new(group.len(), |i: int| "?"@), ", "@) + ")"@,
        params: (match user_id {
            Some(id) => seq![SqlValue::Int(id as int)],
            None => Seq::empty(),
        }) + Seq::new(group.len(), |i: int| SqlValue::Text(group[i])),
    }
}

/// The statements that ask for all keys, group by group.
pub open spec fn group_queries(
    select: Seq<char>,
    user_id: Option<i64>,
    keys: Seq<Seq<char>>,
) -> Seq<QueryView> {
    Seq::new(
        ((keys.len() + KEYS_PER_QUERY - 1) / KEYS_PER_QUERY as int) as nat,
        |g: int| group_query(select, user_id, group_of(keys, g)),
    )
}

fn keys_query(
    select: &str,
    user_id: Option<i64>,
    keys: &Vec<String>,
    from: usize,
    to: usize,
) -> (q: Query)
    requires
        from <= to <= keys@.len(),
    ensures
        q@ == group_query(select@, user_id, texts(keys@).subrange(from as int, to as int)),
{
    let ghost group = texts(keys@).subrange(from as int, to as int);
    let mut marks: Vec<String> = Vec::new();
    let mut params: Vec<Param> = Vec::new();
    if let Some(id) = user_id {
        params.push(Param::Int(id));
    }
    let ghost first = params@;
    let mut i: usize = from;
    while i < to
        invariant
            from <= i <= to <= keys@.len(),
            marks@.len() == i - from,
            forall|k: int| 0 <= k < marks@.len() ==> (#[trigger] marks@[k])@ == "?"@,
            params@.len() == first.len() + (i - from),
            forall|k: int| 0 <= k < first.len() ==> params@[k] == first[k],
            forall|k: int|
                0 <= k < i - from ==> (#[trigger] params@[first.len() + k])@ == SqlValue::Text(
                    keys@[from + k]@,
                ),
        decreases to - i,
    {
        marks.push("?".to_owned());
        params.push(text_param(keys[i].as_str()));
        i = i + 1;
    }
    let mut sql = select.to_owned();
    assert(texts(marks@) =~= Seq::new(group.len(), |k: int| "?"@));
    sql.append(join(&marks, ", ").as_str());
    sql.append(")");
    let q = Query { sql, params };
    proof {
        let want = group_query(select@, user_id, group).params;
        assert(q@.params.len() == want.len());
        assert forall|k: int| 0 <= k < want.len() implies q@.params[k] == want[k] by {
            if k >= first.len() {
                assert(params@[first.len() + (k - first.len())]@ == SqlValue::Text(
                    keys@[from + (k - first.len())]@,
                ));
            } else {
                assert(params@[k] == first[k]);
            }
        }
        assert(q@.params =~= want);
    }
    q
}

fn keyed_queries(select: &str, user_id: Option<i64>, wanted: &Vec<String>) -> (list: Vec<Query>)
    ensures
        list@.len() == group_queries(select@, user_id, sorted_set(texts(wanted@))).len(),
        forall|g: int|
            0 <= g < list@.len() ==> (#[trigger] list@[g])@ == group_queries(
                select@,
                user_id,
                sorted_set(texts(wanted@)),
            )[g],
{
    let keys = sorted_distinct(wanted);
    let ghost all = texts(keys@);
    let mut list: Vec<Query> = Vec::new();
    let mut from: usize = 0;
    while from < keys.len()
        invariant
            all == texts(keys@),
            from <= keys@.len(),
            from == list@.len() * KEYS_PER_QUERY || from == keys@.len(),
            (list@.len() - 1) * KEYS_PER_QUERY < keys@.len(),
            keys@.len() <= list@.len() * KEYS_PER_QUERY || from == list@.len() * KEYS_PER_QUERY,
            from == keys@.len() ==> keys@.len() <= list@.len() * KEYS_PER_QUERY,
            forall|g: int|
                0 <= g < list@.len() ==> (#[trigger] list@[g])@ == group_query(
                    select@,
                    user_id,
                    group_of(all, g),
                ),
        decreases keys@.len() - from,
    {
        let to: usize = if keys.len() - from > KEYS_PER_QUERY {
            from + KEYS_PER_QUERY
        } else {
            keys.len()
        };
        let q = keys_query(select, user_id, &keys, from, to);
        proof {
            assert(group_of(all, list@.len() as int) =~= all.subrange(from as int, to as int));
        }
        list.push(q);
        from = to;
    }
    list
}

/// The statements that ask for keys after the given start, in the rows of one user or in
/// all.
pub fn load_by_keys(select: &str, user_id: Option<i64>, keys: &Vec<String>) -> (list: Vec<Query>)
    ensures
        queries(list@) == group_queries(select@, user_id, sorted_set(texts(keys@))),
{
    let list = keyed_queries(select, user_id, keys);
    assert(queries(list@) =~= group_queries(select@, user_id, sorted_set(texts(keys@))));
    list
}

/// The start of the statement that asks for ids by txids.
pub open spec fn txid_select(table: Seq<char>, id_col: Seq<char>, of_user: bool) -> Seq<char> {
    "SELECT txid AS k, "@ + id_col + " AS id FROM "@ + table + " WHERE "@ + (if of_user {
        "user_id = ? AND "@
    } else {
        ""@
    }) + "txid IN ("@
}

/// The statements that find the local ids of rows by their txids, in the rows of one user
/// or in all.
pub fn load_id_map_by_txid(table: &str, id_col: &str, user_id: Option<i64>, txids: &Vec<String>) -> (
    list: Vec<Query>)
    ensures
        queries(list@) == group_queries(
            txid_select(table@, id_col@, user_id is Some),
            user_id,
            sorted_set(texts(txids@)),
        ),
{
    let mut select = "SELECT txid AS k, ".to_owned();
    select.append(id_col);
    select.append(" AS id FROM ");
    select.append(table);
    select.append(" WHERE ");
    if user_id.is_some() {
        select.append("user_id = ? AND ");
    } else {
        proof {
            reveal_strlit("");
            assert(select@ =~= select@ + ""@);
        }
    }
    select.append("txid IN (");
    let list = keyed_queries(select.as_str(), user_id, txids);
    assert(queries(list@) =~= group_queries(select@, user_id, sorted_set(texts(txids@))));
    list
}

/// The start of the statement that asks for transactions by references.
pub open spec fn reference_select() -> Seq<char> {
    "SELECT reference AS k, transaction_id AS id FROM transactions WHERE user_id = ? AND reference IN ("@
}

/// The statements that find the local ids of a user's transactions by their references.
pub fn load_tx_id_by_reference(user_id: i64, references: &Vec<String>) -> (list: Vec<Query>)
    ensures
        queries(list@) == group_queries(
            reference_select(),
            Some(user_id),
            sorted_set(texts(references@)),
        ),
{
    let select = "SELECT reference AS k, transaction_id AS id FROM transactions WHERE user_id = ? AND reference IN (";
    let list = keyed_queries(select, Some(user_id), references);
    assert(queries(list@) =~= group_queries(
        reference_select(),
        Some(user_id),
        sorted_set(texts(references@)),
    ));
    list
}

pub open spec fn basket_names_query(user_id: i64) -> QueryView {
    QueryView {
        sql: "SELECT name, basket_id AS id FROM output_baskets WHERE user_id = ?"@,
        params: seq![SqlValue::Int(user_id as int)],
    }
}

/// The statement that finds the local ids of a user's baskets by their names.
pub fn load_basket_name_map(user_id: i64) -> (q: Query)
    ensures
        q@ == basket_names_query(user_id),
{
    let q = Query {
        sql: "SELECT name, basket_id AS id FROM output_baskets WHERE user_id = ?".to_owned(),
        params: vec![Param::Int(user_id)],
    };
    assert(q@ =~= basket_names_query(user_id));
    q
}

/// The statements ask for each wanted key, at its own place in its own group, and for
/// nothing else.
pub proof fn every_key_is_asked_for(
    select: Seq<char>,
    user_id: Option<i64>,
    keys: Seq<Seq<char>>,
    i: int,
)
    requires
        0 <= i < keys.len(),
    ensures
        ({
            let list = group_queries(select, user_id, keys);
            let g = i / (KEYS_PER_QUERY as int);
            let k = i % (KEYS_PER_QUERY as int);
            let first: int = if user_id is Some {
                1
            } else {
                0
            };
            &&& 0 <= g < list.len()
            &&& 0 <= k < group_of(keys, g).len() <= KEYS_PER_QUERY
            &&& list[g].params.len() == first + group_of(keys, g).len()
            &&& list[g].params[first + k] == SqlValue::Text(keys[i])
        }),
        forall|g: int, k: int|
            0 <= g < group_queries(select, user_id, keys).len() && 0 <= k < group_of(keys, g).len()
                ==> 0 <= g * KEYS_PER_QUERY + k < keys.len() && #[trigger] group_of(keys, g)[k]
                == keys[g * KEYS_PER_QUERY + k],
{
    let g = i / (KEYS_PER_QUERY as int);
    let k = i % (KEYS_PER_QUERY as int);
    assert(group_of(keys, g)[k] == keys[i]);
}

// ---------------------------------------------------------------------------
// The ids that a batch returns
// ---------------------------------------------------------------------------

/// The id in the first row of a result, where there is one.
pub open spec fn first_id(rows: Seq<Option<i64>>) -> Option<i64> {
    if rows.len() > 0 {
        rows[0]
    } else {
        None
    }
}

/// The ids that a batch of merges returned, one for each statement; an error where a
/// statement returned none.
pub fn returned_ids(results: &Vec<Vec<Option<i64>>>) -> (ids: Result<Vec<i64>, Error>)
    ensures
        ids is Ok <==> forall|i: int|
            0 <= i < results@.len() ==> first_id((#[trigger] results@[i])@) is Some,
        ids matches Ok(list) ==> list@.len() == results@.len() && forall|i: int|
            0 <= i < list@.len() ==> Some(#[trigger] list@[i]) == first_id(results@[i]@),
        ids matches Err(e) ==> e@ == ErrorView::DatabaseError(
            "upsert RETURNING produced no id"@,
        ),
{
    let mut ids: Vec<i64> = Vec::new();
    let mut i: usize = 0;
    while i < results.len()
        invariant
            i <= results@.len(),
            ids@.len() == i,
            forall|k: int| 0 <= k < i ==> Some(#[trigger] ids@[k]) == first_id(results@[k]@),
        decreases results@.len() - i,
    {
        let rows = &results[i];
        let first: Option<i64> = if rows.len() > 0 {
            rows[0]
        } else {
            None
        };
        assert(first == first_id(results@[i as int]@));
        match first {
            Some(id) => {
                ids.push(id);
            },
            None => {
                return Err(Error::DatabaseError("upsert RETURNING produced no id".to_owned()));
            },
        }
        i = i + 1;
    }
    proof {
        assert forall|k: int| 0 <= k < results@.len() implies first_id(
            (#[trigger] results@[k])@,
        ) is Some by {
            assert(Some(ids@[k]) == first_id(results@[k]@));
        }
    }
    Ok(ids)
}

// ---------------------------------------------------------------------------
// The user's own record
// ---------------------------------------------------------------------------

pub open spec fn user_updated_query(user_id: i64) -> QueryView {
    QueryView {
        sql: "SELECT updated_at FROM users WHERE user_id = ?"@,
        params: seq![SqlValue::Int(user_id as int)],
    }
}

/// The statement that reads when the user's record last changed.
pub fn read_user_updated(user_id: i64) -> (q: Query)
    ensures
        q@ == user_updated_query(user_id),
{
    let q = Query {
        sql: "SELECT updated_at FROM users WHERE user_id = ?".to_owned(),
        params: vec![Param::Int(user_id)],
    };
    assert(q@ =~= user_updated_query(user_id));
    q
}

pub open spec fn user_update_query(user_id: i64, active: Seq<char>, updated_at: Timestamp) -> QueryView {
    QueryView {
        sql: "UPDATE users SET active_storage = ?, updated_at = ? WHERE user_id = ?"@,
        params: seq![
            SqlValue::Text(active),
            SqlValue::Time(updated_at),
            SqlValue::Int(user_id as int),
        ],
    }
}

/// The statement that takes over the active storage of a newer user record, given when the
/// stored one last changed. It is there only where the incoming record is newer, or nothing
/// is known of the stored one, and names an active storage.
pub fn merge_user(user_id: i64, chunk_user: &TableUser, current: Option<Timestamp>) -> (update: Option<
    Query,
>)
    ensures
        update is Some <==> (current matches Some(t) ==> chunk_user.updated_at.after(t))
            && chunk_user.active_storage is Some,
        update matches Some(q) ==> q@ == user_update_query(
            user_id,
            chunk_user.active_storage->0@,
            chunk_user.updated_at,
        ),
{
    let newer = match current {
        Some(t) => chunk_user.updated_at.is_after(&t),
        None => true,
    };
    if newer {
        if let Some(active) = &chunk_user.active_storage {
            let q = Query {
                sql: "UPDATE users SET active_storage = ?, updated_at = ? WHERE user_id = ?".to_owned(),
                params: vec![
                    text_param(active.as_str()),
                    Param::Time(chunk_user.updated_at),
                    Param::Int(user_id),
                ],
            };
            assert(q@ =~= user_update_query(user_id, active@, chunk_user.updated_at));
            return Some(q);
        }
    }
    None
}

} // verus!
