//! A statement with the values it binds.

use crate::time::Timestamp;
use vstd::prelude::*;
use vstd::slice::slice_to_vec;

verus! {

/// A value of the store: what a column holds and what a statement binds.
#[verifier::ext_equal]
pub enum SqlValue {
    Null,
    Int(int),
    Text(Seq<char>),
    Blob(Seq<u8>),
    Time(Timestamp),
}

/// A value that a statement binds to one of its placeholders.
#[derive(Debug, PartialEq, Eq)]
pub enum Param {
    Null,
    Int(i64),
    Text(String),
    Blob(Vec<u8>),
    Time(Timestamp),
}

impl View for Param {
    type V = SqlValue;

    open spec fn view(&self) -> SqlValue {
        match self {
            Param::Null => SqlValue::Null,
            Param::Int(n) => SqlValue::Int(*n as int),
            Param::Text(s) => SqlValue::Text(s@),
            Param::Blob(b) => SqlValue::Blob(b@),
            Param::Time(t) => SqlValue::Time(*t),
        }
    }
}

/// The values that a list of parameters binds.
pub open spec fn values(params: Seq<Param>) -> Seq<SqlValue> {
    Seq::new(params.len(), |i: int| params[i]@)
}

/// A statement: its text, and the values for its placeholders in their order.
#[verifier::ext_equal]
pub struct QueryView {
    pub sql: Seq<char>,
    pub params: Seq<SqlValue>,
}

/// A statement: its text, and the values for its placeholders in their order.
#[derive(Debug, PartialEq, Eq)]
pub struct Query {
    pub sql: String,
    pub params: Vec<Param>,
}

impl View for Query {
    type V = QueryView;

    open spec fn view(&self) -> QueryView {
        QueryView { sql: self.sql@, params: values(self.params@) }
    }
}

/// The statements that a list of queries stands for.
pub open spec fn queries(list: Seq<Query>) -> Seq<QueryView> {
    Seq::new(list.len(), |i: int| list[i]@)
}

/// An optional integer: `NULL` where there is none.
pub open spec fn int_value(n: Option<i64>) -> SqlValue {
    match n {
        Some(n) => SqlValue::Int(n as int),
        None => SqlValue::Null,
    }
}

/// An optional text: `NULL` where there is none.
pub open spec fn text_value(s: Option<String>) -> SqlValue {
    match s {
        Some(s) => SqlValue::Text(s@),
        None => SqlValue::Null,
    }
}

/// An optional blob: `NULL` where there is none.
pub open spec fn blob_value(b: Option<Seq<u8>>) -> SqlValue {
    match b {
        Some(b) => SqlValue::Blob(b),
        None => SqlValue::Null,
    }
}

/// A flag: one where it is set, zero where it is not.
pub open spec fn flag_value(b: bool) -> SqlValue {
    SqlValue::Int(if b { 1 } else { 0 })
}

pub fn int_param(n: Option<i64>) -> (p: Param)
    ensures
        p@ == int_value(n),
{
    match n {
        Some(n) => Param::Int(n),
        None => Param::Null,
    }
}

pub fn text_param(s: &str) -> (p: Param)
    ensures
        p@ == SqlValue::Text(s@),
{
    Param::Text(s.to_owned())
}

pub fn optional_text_param(s: &Option<String>) -> (p: Param)
    ensures
        p@ == text_value(*s),
{
    match s {
        Some(s) => Param::Text(s.clone()),
        None => Param::Null,
    }
}

pub fn bytes_param(b: &[u8]) -> (p: Param)
    ensures
        p@ == SqlValue::Blob(b@),
{
    Param::Blob(slice_to_vec(b))
}

pub fn blob_param(b: Option<Vec<u8>>) -> (p: Param)
    ensures
        p@ == blob_value(bytes_of(b)),
{
    match b {
        Some(b) => Param::Blob(b),
        None => Param::Null,
    }
}

pub fn flag_param(b: bool) -> (p: Param)
    ensures
        p@ == flag_value(b),
{
    if b {
        Param::Int(1)
    } else {
        Param::Int(0)
    }
}

/// A statement that binds `NULL` in place of one of its values, where that is withheld.
pub open spec fn withheld(q: QueryView, i: int, held: bool) -> QueryView {
    if held {
        QueryView { params: q.params.update(i, SqlValue::Null), ..q }
    } else {
        q
    }
}

pub fn withhold(q: Query, i: usize, held: bool) -> (w: Query)
    requires
        i < q@.params.len(),
    ensures
        w@ == withheld(q@, i as int, held),
{
    let mut w = q;
    if held {
        w.params.set(i, Param::Null);
    }
    assert(w@ =~= withheld(q@, i as int, held));
    w
}

/// The bytes of an optional blob.
pub open spec fn bytes_of(b: Option<Vec<u8>>) -> Option<Seq<u8>> {
    match b {
        Some(b) => Some(b@),
        None => None,
    }
}

} // verus!
