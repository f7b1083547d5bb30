//! What reading a value gives, said of the value itself.

use crate::json::{field_index, meaning, Json, JsonView, Number};
use vstd::prelude::*;

verus! {

/// A value stands for itself: nothing, a flag, a number or a text for the same, a list for its
/// elements in their order, and an object for its fields in their order.
pub proof fn a_value_stands_for_itself(
    flag: bool,
    number: Number,
    text: String,
    list: Vec<Json>,
    object: Vec<(String, Json)>,
    i: int,
)
    ensures
        Json::Null@ == JsonView::Null,
        Json::Bool(flag)@ == JsonView::Bool(flag),
        Json::Number(number)@ == JsonView::Number(number),
        Json::Str(text)@ == JsonView::Str(text@),
        Json::Array(list)@ matches JsonView::Array(values) && values.len() == list@.len() && (0
            <= i < list@.len() ==> values[i] == list@[i]@),
        Json::Object(object)@ matches JsonView::Object(values) && values.len() == object@.len()
            && (0 <= i < object@.len() ==> values[i] == (object@[i].0@, object@[i].1@)),
{
    reveal_with_fuel(meaning, 2);
}

/// Whether the field at a place is the first of its name.
pub open spec fn first_of_its_name(
    list: Seq<(Seq<char>, JsonView)>,
    key: Seq<char>,
    k: int,
) -> bool {
    &&& 0 <= k < list.len()
    &&& list[k].0 == key
    &&& forall|j: int| 0 <= j < k ==> (#[trigger] list[j]).0 != key
}

/// Whether no field has the name.
pub open spec fn nowhere(list: Seq<(Seq<char>, JsonView)>, key: Seq<char>) -> bool {
    forall|j: int| 0 <= j < list.len() ==> (#[trigger] list[j]).0 != key
}

proof fn index_from(list: Seq<(Seq<char>, JsonView)>, key: Seq<char>, k: int, from: int)
    requires
        first_of_its_name(list, key, k),
        0 <= from <= k,
    ensures
        field_index(list, key, from) == Some(k),
    decreases k - from,
{
    if from < k {
        assert(list[from].0 != key);
        index_from(list, key, k, from + 1);
    }
}

proof fn no_index_from(list: Seq<(Seq<char>, JsonView)>, key: Seq<char>, from: int)
    requires
        nowhere(list, key),
        0 <= from <= list.len(),
    ensures
        field_index(list, key, from) is None,
    decreases list.len() - from,
{
    if from < list.len() {
        assert(list[from].0 != key);
        no_index_from(list, key, from + 1);
    }
}

/// A field is read from the first place that has its name, and only that place is changed by
/// giving it another value.
pub proof fn a_field_is_the_first_of_its_name(
    list: Seq<(Seq<char>, JsonView)>,
    key: Seq<char>,
    k: int,
    value: JsonView,
)
    requires
        first_of_its_name(list, key, k),
    ensures
        JsonView::Object(list).field(key) == Some(list[k].1),
        JsonView::Object(list).with_field(key, value) == JsonView::Object(
            list.update(k, (key, value)),
        ),
{
    index_from(list, key, k, 0);
}

/// A name that no field has gives nothing and changes nothing, and only an object has fields.
pub proof fn a_missing_field_is_none(value: JsonView, key: Seq<char>, other: JsonView)
    requires
        value matches JsonView::Object(list) ==> nowhere(list, key),
    ensures
        value.field(key) is None,
        value.with_field(key, other) == value,
{
    if let JsonView::Object(list) = value {
        no_index_from(list, key, 0);
    }
}

/// A field that is read stands in the object under its name, with no earlier one of that
/// name.
pub proof fn a_field_that_is_read_is_there(value: JsonView, key: Seq<char>)
    ensures
        value.field(key) matches Some(v) ==> value is Object && exists|k: int|
            first_of_its_name(value->Object_0, key, k) && #[trigger] value->Object_0[k].1 == v,
        value.field(key) is None && value is Object ==> nowhere(value->Object_0, key),
{
    if let JsonView::Object(list) = value {
        if nowhere(list, key) {
            no_index_from(list, key, 0);
        } else {
            let j = choose|j: int| 0 <= j < list.len() && (#[trigger] list[j]).0 == key;
            first_place(list, key, j);
            let k = choose|k: int| first_of_its_name(list, key, k);
            index_from(list, key, k, 0);
            assert(list[k].1 == list[k].1);
        }
    }
}

proof fn first_place(list: Seq<(Seq<char>, JsonView)>, key: Seq<char>, j: int)
    requires
        0 <= j < list.len(),
        list[j].0 == key,
    ensures
        exists|k: int| first_of_its_name(list, key, k),
    decreases j,
{
    if exists|i: int| 0 <= i < j && (#[trigger] list[i]).0 == key {
        let i = choose|i: int| 0 <= i < j && (#[trigger] list[i]).0 == key;
        first_place(list, key, i);
    } else {
        assert(first_of_its_name(list, key, j));
    }
}

/// Whether a value stands first under a name, or nothing stands under it.
pub open spec fn stands_under(
    list: Seq<(Seq<char>, JsonView)>,
    key: Seq<char>,
    value: Option<JsonView>,
) -> bool {
    match value {
        Some(v) => exists|k: int| first_of_its_name(list, key, k) && #[trigger] list[k].1 == v,
        None => nowhere(list, key),
    }
}

/// Whether parameters give a value: at its place in a list, or under its name in an object;
/// anything else gives nothing.
pub open spec fn gives(
    params: JsonView,
    place: int,
    name: Seq<char>,
    value: Option<JsonView>,
) -> bool {
    match params {
        JsonView::Array(list) => match value {
            Some(v) => place < list.len() && list[place] == v,
            None => list.len() <= place,
        },
        JsonView::Object(list) => stands_under(list, name, value),
        _ => value is None,
    }
}

/// What stands under a name is what is read under it.
pub proof fn what_stands_under_a_name_is_read(
    list: Seq<(Seq<char>, JsonView)>,
    key: Seq<char>,
    value: Option<JsonView>,
)
    requires
        stands_under(list, key, value),
    ensures
        JsonView::Object(list).field(key) == value,
{
    match value {
        Some(v) => {
            let k = choose|k: int|
                first_of_its_name(list, key, k) && #[trigger] list[k].1 == v;
            a_field_is_the_first_of_its_name(list, key, k, v);
        },
        None => {
            a_missing_field_is_none(JsonView::Object(list), key, JsonView::Null);
        },
    }
}

} // verus!
