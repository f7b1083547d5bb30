//! Values of a request or an answer.

use crate::text::same_text;
use vstd::prelude::*;

verus! {

/// A number: an integer that is not negative, a negative one, or the bits of a
/// floating-point number.
#[derive(Clone, Copy, Debug, PartialEq, Eq, Structural)]
pub enum Number {
    PosInt(u64),
    NegInt(i64),
    FloatBits(u64),
}

/// A value. The fields of an object keep their order.
pub enum JsonView {
    Null,
    Bool(bool),
    Number(Number),
    Str(Seq<char>),
    Array(Seq<JsonView>),
    Object(Seq<(Seq<char>, JsonView)>),
}

/// A value. The fields of an object keep their order.
#[derive(Debug, PartialEq, Eq)]
pub enum Json {
    Null,
    Bool(bool),
    Number(Number),
    Str(String),
    Array(Vec<Json>),
    Object(Vec<(String, Json)>),
}

/// What a value stands for.
pub open spec fn meaning(value: Json) -> JsonView
    decreases value,
{
    match value {
        Json::Null => JsonView::Null,
        Json::Bool(b) => JsonView::Bool(b),
        Json::Number(n) => JsonView::Number(n),
        Json::Str(s) => JsonView::Str(s@),
        Json::Array(items) => JsonView::Array(
            Seq::new(
                items@.len(),
                |i: int|
                    if 0 <= i < items@.len() {
                        meaning(items@[i])
                    } else {
                        JsonView::Null
                    },
            ),
        ),
        Json::Object(fields) => JsonView::Object(
            Seq::new(
                fields@.len(),
                |i: int|
                    if 0 <= i < fields@.len() {
                        (fields@[i].0@, meaning(fields@[i].1))
                    } else {
                        (Seq::empty(), JsonView::Null)
                    },
            ),
        ),
    }
}

impl View for Json {
    type V = JsonView;

    open spec fn view(&self) -> JsonView {
        meaning(*self)
    }
}

/// The values of a list.
pub open spec fn items(list: Seq<Json>) -> Seq<JsonView> {
    Seq::new(list.len(), |i: int| list[i]@)
}

/// The fields of an object.
pub open spec fn fields(list: Seq<(String, Json)>) -> Seq<(Seq<char>, JsonView)> {
    Seq::new(list.len(), |i: int| (list[i].0@, list[i].1@))
}

proof fn view_of_array(list: Vec<Json>)
    ensures
        Json::Array(list)@ == JsonView::Array(items(list@)),
{
    reveal_with_fuel(meaning, 2);
    assert(meaning(Json::Array(list))->Array_0 =~= items(list@));
}

proof fn view_of_object(list: Vec<(String, Json)>)
    ensures
        Json::Object(list)@ == JsonView::Object(fields(list@)),
{
    reveal_with_fuel(meaning, 2);
    assert(meaning(Json::Object(list))->Object_0 =~= fields(list@));
}

/// The position of the first field with the given name, from a position on.
pub open spec fn field_index(list: Seq<(Seq<char>, JsonView)>, key: Seq<char>, from: int) -> Option<
    int,
>
    decreases list.len() - from,
{
    if from < 0 || from >= list.len() {
        None
    } else if list[from].0 == key {
        Some(from)
    } else {
        field_index(list, key, from + 1)
    }
}

impl JsonView {
    /// The field of an object with the given name.
    pub open spec fn field(self, key: Seq<char>) -> Option<JsonView> {
        match self {
            JsonView::Object(list) => match field_index(list, key, 0) {
                Some(i) => Some(list[i].1),
                None => None,
            },
            _ => None,
        }
    }

    /// The object with another value for the given name, where it has such a field.
    pub open spec fn with_field(self, key: Seq<char>, value: JsonView) -> JsonView {
        match self {
            JsonView::Object(list) => match field_index(list, key, 0) {
                Some(i) => JsonView::Object(list.update(i, (list[i].0, value))),
                None => self,
            },
            _ => self,
        }
    }

    /// The element of an array at the given place.
    pub open spec fn element(self, i: int) -> Option<JsonView> {
        match self {
            JsonView::Array(list) => if 0 <= i < list.len() {
                Some(list[i])
            } else {
                None
            },
            _ => None,
        }
    }

    pub open spec fn text(self) -> Option<Seq<char>> {
        match self {
            JsonView::Str(s) => Some(s),
            _ => None,
        }
    }

    pub open spec fn flag(self) -> Option<bool> {
        match self {
            JsonView::Bool(b) => Some(b),
            _ => None,
        }
    }

    /// The value of an integer that is not negative.
    pub open spec fn unsigned(self) -> Option<u64> {
        match self {
            JsonView::Number(Number::PosInt(n)) => Some(n),
            _ => None,
        }
    }
}

/// The text of an optional value.
pub open spec fn text_of(value: Option<JsonView>) -> Option<Seq<char>> {
    match value {
        Some(v) => v.text(),
        None => None,
    }
}

pub open spec fn flag_of(value: Option<JsonView>) -> Option<bool> {
    match value {
        Some(v) => v.flag(),
        None => None,
    }
}

/// What an optional reference stands for.
pub open spec fn seen(value: Option<&Json>) -> Option<JsonView> {
    match value {
        Some(v) => Some(v@),
        None => None,
    }
}

/// What an optional text stands for.
pub open spec fn seen_text(value: Option<&str>) -> Option<Seq<char>> {
    match value {
        Some(s) => Some(s@),
        None => None,
    }
}

impl Json {
    /// A value of its own that is the same.
    pub fn copy(&self) -> (copy: Json)
        ensures
            copy@ == self@,
        decreases self,
    {
        match self {
            Json::Null => Json::Null,
            Json::Bool(b) => Json::Bool(*b),
            Json::Number(n) => Json::Number(*n),
            Json::Str(s) => Json::Str(s.clone()),
            Json::Array(list) => {
                let mut copies: Vec<Json> = Vec::new();
                let mut i: usize = 0;
                while i < list.len()
                    invariant
                        i <= list@.len(),
                        copies@.len() == i,
                        forall|k: int| 0 <= k < i ==> (#[trigger] copies@[k])@ == list@[k]@,
                        *self == Json::Array(*list),
                    decreases list@.len() - i,
                {
                    proof {
                        assert(decreases_to!(*self => self->Array_0));
                        assert(decreases_to!(list@ => list@[i as int]));
                    }
                    copies.push(list[i].copy());
                    i = i + 1;
                }
                proof {
                    view_of_array(*list);
                    view_of_array(copies);
                    assert(items(copies@) =~= items(list@));
                }
                Json::Array(copies)
            },
            Json::Object(list) => {
                let mut copies: Vec<(String, Json)> = Vec::new();
                let mut i: usize = 0;
                while i < list.len()
                    invariant
                        i <= list@.len(),
                        copies@.len() == i,
                        forall|k: int|
                            0 <= k < i ==> (#[trigger] copies@[k]).0@ == list@[k].0@
                                && copies@[k].1@ == list@[k].1@,
                        *self == Json::Object(*list),
                    decreases list@.len() - i,
                {
                    let field = &list[i];
                    proof {
                        assert(decreases_to!(*self => self->Object_0));
                        assert(decreases_to!(list@ => list@[i as int]));
                        assert(decreases_to!(list@[i as int] => list@[i as int].1));
                    }
                    copies.push((field.0.clone(), field.1.copy()));
                    i = i + 1;
                }
                proof {
                    view_of_object(*list);
                    view_of_object(copies);
                    assert(fields(copies@) =~= fields(list@));
                }
                Json::Object(copies)
            },
        }
    }

    fn position(list: &Vec<(String, Json)>, key: &str) -> (at: Option<usize>)
        ensures
            match field_index(fields(list@), key@, 0) {
                Some(k) => at matches Some(i) && i == k && i < list@.len(),
                None => at is None,
            },
    {
        let mut i: usize = 0;
        while i < list.len()
            invariant
                i <= list@.len(),
                field_index(fields(list@), key@, i as int) == field_index(fields(list@), key@, 0),
            decreases list@.len() - i,
        {
            if same_text(list[i].0.as_str(), key) {
                return Some(i);
            }
            i = i + 1;
        }
        None
    }

    /// The field of an object with the given name.
    pub fn get(&self, key: &str) -> (value: Option<&Json>)
        ensures
            seen(value) == self@.field(key@),
    {
        match self {
            Json::Object(list) => {
                proof {
                    view_of_object(*list);
                }
                match Json::position(list, key) {
                    Some(i) => Some(&list[i].1),
                    None => None,
                }
            },
            _ => None,
        }
    }

    /// The object with another value for the given name, where it has such a field.
    pub fn replace(self, key: &str, value: Json) -> (changed: Json)
        ensures
            changed@ == self@.with_field(key@, value@),
    {
        match self {
            Json::Object(list) => {
                proof {
                    view_of_object(list);
                }
                match Json::position(&list, key) {
                    Some(i) => {
                        let mut changed = list;
                        let name = changed[i].0.clone();
                        changed.set(i, (name, value));
                        proof {
                            view_of_object(changed);
                            assert(fields(changed@) =~= fields(list@).update(
                                i as int,
                                (list@[i as int].0@, value@),
                            ));
                        }
                        Json::Object(changed)
                    },
                    None => Json::Object(list),
                }
            },
            other => other,
        }
    }

    /// The element of an array at the given place.
    pub fn at(&self, i: usize) -> (value: Option<&Json>)
        ensures
            seen(value) == self@.element(i as int),
    {
        match self {
            Json::Array(list) => {
                proof {
                    view_of_array(*list);
                }
                if i < list.len() {
                    Some(&list[i])
                } else {
                    None
                }
            },
            _ => None,
        }
    }

    pub fn as_str(&self) -> (text: Option<&str>)
        ensures
            seen_text(text) == self@.text(),
    {
        match self {
            Json::Str(s) => Some(s.as_str()),
            _ => None,
        }
    }

    pub fn as_bool(&self) -> (flag: Option<bool>)
        ensures
            flag == self@.flag(),
    {
        match self {
            Json::Bool(b) => Some(*b),
            _ => None,
        }
    }

    pub fn as_u64(&self) -> (n: Option<u64>)
        ensures
            n == self@.unsigned(),
    {
        match self {
            Json::Number(Number::PosInt(n)) => Some(*n),
            _ => None,
        }
    }

    /// An array of the given values.
    pub fn array(list: Vec<Json>) -> (value: Json)
        ensures
            value@ == JsonView::Array(items(list@)),
    {
        proof {
            view_of_array(list);
        }
        Json::Array(list)
    }

    /// An object with the given fields.
    pub fn object(list: Vec<(String, Json)>) -> (value: Json)
        ensures
            value@ == JsonView::Object(fields(list@)),
    {
        proof {
            view_of_object(list);
        }
        Json::Object(list)
    }

    /// The elements of an array.
    pub fn elements(&self) -> (list: Option<&Vec<Json>>)
        ensures
            match self@ {
                JsonView::Array(views) => list is Some && items(list->0@) == views,
                _ => list is None,
            },
    {
        match self {
            Json::Array(list) => {
                proof {
                    view_of_array(*list);
                }
                Some(list)
            },
            _ => None,
        }
    }

    pub fn string(s: &str) -> (value: Json)
        ensures
            value@ == JsonView::Str(s@),
    {
        Json::Str(s.to_owned())
    }
}

} // verus!
