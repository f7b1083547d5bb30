//! Which statements look keys up, said of the keys.

use crate::sql::query::SqlValue;
use crate::storage::lookup::{first_id, group_of, group_queries, user_update_query};
use crate::text::joined;
use crate::time::Timestamp;
use vstd::prelude::*;

verus! {

/// How many keys a statement asks for: five hundred, and the last one the rest.
pub open spec fn keys_in(keys: Seq<Seq<char>>, g: int) -> int {
    if 500 * (g + 1) <= keys.len() {
        500
    } else {
        keys.len() - 500 * g
    }
}

/// Keys are asked for in statements of five hundred, the last one with the rest, so that none
/// is empty: each binds the user first, where there is one, then its keys in their order, and
/// has a placeholder for each.
pub proof fn keys_are_asked_for_in_groups(
    select: Seq<char>,
    user_id: Option<i64>,
    keys: Seq<Seq<char>>,
    g: int,
)
    ensures
        ({
            let list = group_queries(select, user_id, keys);
            let first: int = if user_id is Some {
                1
            } else {
                0
            };
            &&& 500 * list.len() >= keys.len()
            &&& 500 * (list.len() - 1) < keys.len()
            &&& 0 <= g < list.len() ==> {
                &&& 0 < keys_in(keys, g) <= 500
                &&& list[g].params.len() == first + keys_in(keys, g)
                &&& user_id matches Some(id) ==> list[g].params[0] == SqlValue::Int(id as int)
                &&& forall|k: int|
                    0 <= k < keys_in(keys, g) ==> list[g].params[first + k] == SqlValue::Text(
                        #[trigger] keys[500 * g + k],
                    )
                &&& list[g].sql == select + joined(
                    Seq::new(keys_in(keys, g) as nat, |i: int| "?"@),
                    ", "@,
                ) + ")"@
            }
        }),
{
    let list = group_queries(select, user_id, keys);
    let first: int = if user_id is Some {
        1
    } else {
        0
    };
    if 0 <= g < list.len() {
        let group = group_of(keys, g);
        assert(group.len() == keys_in(keys, g));
        assert forall|k: int| 0 <= k < keys_in(keys, g) implies list[g].params[first + k]
            == SqlValue::Text(#[trigger] keys[500 * g + k]) by {
            assert(group[k] == keys[500 * g + k]);
        }
        assert(Seq::new(group.len(), |i: int| "?"@) =~= Seq::new(
            keys_in(keys, g) as nat,
            |i: int| "?"@,
        ));
    }
}

/// Parts that are joined keep their order, with the separator between neighbours only.
pub proof fn parts_are_joined(parts: Seq<Seq<char>>, part: Seq<char>, separator: Seq<char>)
    ensures
        joined(Seq::empty(), separator).len() == 0,
        joined(seq![part], separator) == part,
        parts.len() > 0 ==> joined(parts.push(part), separator) == joined(parts, separator)
            + separator + part,
{
    assert(parts.push(part).drop_last() =~= parts);
}

/// The id of a statement is that of its first row.
pub proof fn the_first_row_tells_the_id(rows: Seq<Option<i64>>)
    ensures
        rows.len() > 0 ==> first_id(rows) == rows[0],
        rows.len() == 0 ==> first_id(rows) is None,
{
}

/// A newer user record takes over the active storage and the instant, in the row of the user.
pub proof fn a_user_update_is_of_the_user(
    user_id: i64,
    active: Seq<char>,
    updated_at: Timestamp,
)
    ensures
        user_update_query(user_id, active, updated_at).params == seq![
            SqlValue::Text(active),
            SqlValue::Time(updated_at),
            SqlValue::Int(user_id as int),
        ],
{
}

} // verus!
