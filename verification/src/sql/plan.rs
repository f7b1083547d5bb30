//! Statements by their parts: inserts, inserts that merge on conflict, updates by id,
//! and lookups by key.

use super::expr::{
    assigns, choice_sql, choice_text, Arm, Assign, AssignView, Cond, Guard, Pick, Place, Subject,
};
use super::names::{Column, Table};
use crate::text::{join, joined, texts};
use vstd::prelude::*;

verus! {

/// What an insert puts in a column: a bound value, zero, or nothing.
#[derive(Clone, Copy, Debug, PartialEq, Eq, Structural)]
pub enum Slot {
    Bind,
    Zero,
    Null,
}

impl Slot {
    pub open spec fn text(self) -> Seq<char> {
        match self {
            Slot::Bind => "?"@,
            Slot::Zero => "0"@,
            Slot::Null => "NULL"@,
        }
    }

    fn name(&self) -> (s: &'static str)
        ensures
            s@ == self.text(),
    {
        match self {
            Slot::Bind => "?",
            Slot::Zero => "0",
            Slot::Null => "NULL",
        }
    }
}

/// An insert: the table, and for each column what goes in.
#[verifier::ext_equal]
pub struct InsertView {
    pub table: Table,
    pub columns: Seq<(Column, Slot)>,
}

#[derive(Debug, PartialEq, Eq)]
pub struct Insert {
    pub table: Table,
    pub columns: Vec<(Column, Slot)>,
}

impl View for Insert {
    type V = InsertView;

    open spec fn view(&self) -> InsertView {
        InsertView { table: self.table, columns: self.columns@ }
    }
}

impl InsertView {
    /// `INSERT INTO table (columns) VALUES (slots)`.
    pub open spec fn text(self) -> Seq<char> {
        "INSERT INTO "@ + self.table.text() + " ("@ + joined(
            Seq::new(self.columns.len(), |i: int| self.columns[i].0.text()),
            ", "@,
        ) + ") VALUES ("@ + joined(
            Seq::new(self.columns.len(), |i: int| self.columns[i].1.text()),
            ", "@,
        ) + ")"@
    }
}

impl Insert {
    pub fn sql(&self) -> (s: String)
        ensures
            s@ == self@.text(),
    {
        let mut names: Vec<String> = Vec::new();
        let mut slots: Vec<String> = Vec::new();
        let mut i: usize = 0;
        while i < self.columns.len()
            invariant
                i <= self.columns@.len(),
                names@.len() == i,
                slots@.len() == i,
                forall|k: int| 0 <= k < i ==> (#[trigger] names@[k])@ == self.columns@[k].0.text(),
                forall|k: int| 0 <= k < i ==> (#[trigger] slots@[k])@ == self.columns@[k].1.text(),
            decreases self.columns@.len() - i,
        {
            names.push(self.columns[i].0.name().to_owned());
            slots.push(self.columns[i].1.name().to_owned());
            i = i + 1;
        }
        assert(texts(names@) =~= Seq::new(
            self@.columns.len(),
            |k: int| self@.columns[k].0.text(),
        ));
        assert(texts(slots@) =~= Seq::new(
            self@.columns.len(),
            |k: int| self@.columns[k].1.text(),
        ));
        let mut s = "INSERT INTO ".to_owned();
        s.append(self.table.name());
        s.append(" (");
        s.append(join(&names, ", ").as_str());
        s.append(") VALUES (");
        s.append(join(&slots, ", ").as_str());
        s.append(")");
        s
    }
}

/// The assignments one after the other.
pub open spec fn sets_text(place: Place, table: Table, sets: Seq<AssignView>) -> Seq<char> {
    joined(
        Seq::new(
            sets.len(),
            |i: int|
                choice_text(
                    place,
                    table.text(),
                    sets[i].column.text(),
                    sets[i].arms,
                    sets[i].otherwise,
                ),
        ),
        ", "@,
    )
}

fn sets_sql(place: Place, table: Table, sets: &Vec<Assign>) -> (s: String)
    ensures
        s@ == sets_text(place, table, assigns(sets@)),
{
    let mut parts: Vec<String> = Vec::new();
    let mut i: usize = 0;
    while i < sets.len()
        invariant
            i <= sets@.len(),
            parts@.len() == i,
            forall|k: int|
                0 <= k < i ==> (#[trigger] parts@[k])@ == choice_text(
                    place,
                    table.text(),
                    sets@[k].column.text(),
                    sets@[k].arms@,
                    sets@[k].otherwise,
                ),
        decreases sets@.len() - i,
    {
        let set = &sets[i];
        parts.push(choice_sql(place, table.name(), set.column.name(), &set.arms, set.otherwise));
        i = i + 1;
    }
    proof {
        let views = assigns(sets@);
        assert(texts(parts@) =~= Seq::new(
            views.len(),
            |k: int|
                choice_text(
                    place,
                    table.text(),
                    views[k].column.text(),
                    views[k].arms,
                    views[k].otherwise,
                ),
        ));
    }
    join(&parts, ", ")
}

/// The names of columns, each followed by `suffix`, with `separator` between them.
pub open spec fn columns_text(columns: Seq<Column>, suffix: Seq<char>, separator: Seq<char>) -> Seq<
    char,
> {
    joined(Seq::new(columns.len(), |i: int| columns[i].text() + suffix), separator)
}

fn columns_sql(columns: &Vec<Column>, suffix: &str, separator: &str) -> (s: String)
    ensures
        s@ == columns_text(columns@, suffix@, separator@),
{
    let mut parts: Vec<String> = Vec::new();
    let mut i: usize = 0;
    while i < columns.len()
        invariant
            i <= columns@.len(),
            parts@.len() == i,
            forall|k: int|
                0 <= k < i ==> (#[trigger] parts@[k])@ == columns@[k].text() + suffix@,
        decreases columns@.len() - i,
    {
        let mut part = columns[i].name().to_owned();
        part.append(suffix);
        parts.push(part);
        i = i + 1;
    }
    assert(texts(parts@) =~= Seq::new(columns@.len(), |k: int| columns@[k].text() + suffix@));
    join(&parts, separator)
}

/// An insert that merges into the stored row where one has the same key, and returns
/// the id of the row either way. An owned one leaves the row of another user alone, and
/// returns no id then.
#[verifier::ext_equal]
pub struct UpsertView {
    pub insert: InsertView,
    pub key: Seq<Column>,
    pub sets: Seq<AssignView>,
    pub owned: bool,
    pub returning: Column,
}

#[derive(Debug, PartialEq, Eq)]
pub struct Upsert {
    pub insert: Insert,
    pub key: Vec<Column>,
    pub sets: Vec<Assign>,
    pub owned: bool,
    pub returning: Column,
}

impl View for Upsert {
    type V = UpsertView;

    open spec fn view(&self) -> UpsertView {
        UpsertView {
            insert: self.insert@,
            key: self.key@,
            sets: assigns(self.sets@),
            owned: self.owned,
            returning: self.returning,
        }
    }
}

impl UpsertView {
    /// The condition that the stored row belongs to the user of the incoming one, where the
    /// merge has it.
    pub open spec fn owner_text(self) -> Seq<char> {
        if self.owned {
            " WHERE "@ + self.insert.table.text() + ".user_id = excluded.user_id"@
        } else {
            ""@
        }
    }

    /// `INSERT .. ON CONFLICT(key) DO UPDATE SET .. RETURNING column AS id`.
    pub open spec fn text(self) -> Seq<char> {
        self.insert.text() + " ON CONFLICT("@ + columns_text(self.key, ""@, ", "@)
            + ") DO UPDATE SET "@ + sets_text(Place::Conflict, self.insert.table, self.sets)
            + self.owner_text() + " RETURNING "@ + self.returning.text() + " AS id"@
    }
}

impl Upsert {
    pub fn sql(&self) -> (s: String)
        ensures
            s@ == self@.text(),
    {
        let mut s = self.insert.sql();
        s.append(" ON CONFLICT(");
        s.append(columns_sql(&self.key, "", ", ").as_str());
        s.append(") DO UPDATE SET ");
        s.append(sets_sql(Place::Conflict, self.insert.table, &self.sets).as_str());
        let ghost before = s@;
        if self.owned {
            s.append(" WHERE ");
            s.append(self.insert.table.name());
            s.append(".user_id = excluded.user_id");
        }
        proof {
            reveal_strlit("");
            assert(s@ =~= before + self@.owner_text());
        }
        s.append(" RETURNING ");
        s.append(self.returning.name());
        s.append(" AS id");
        s
    }
}

/// An update of the row with a given id.
#[verifier::ext_equal]
pub struct UpdateView {
    pub table: Table,
    pub sets: Seq<AssignView>,
    pub id: Column,
}

#[derive(Debug, PartialEq, Eq)]
pub struct Update {
    pub table: Table,
    pub sets: Vec<Assign>,
    pub id: Column,
}

impl View for Update {
    type V = UpdateView;

    open spec fn view(&self) -> UpdateView {
        UpdateView { table: self.table, sets: assigns(self.sets@), id: self.id }
    }
}

impl UpdateView {
    /// `UPDATE table SET .. WHERE id = ?`.
    pub open spec fn text(self) -> Seq<char> {
        "UPDATE "@ + self.table.text() + " SET "@ + sets_text(
            Place::Update,
            self.table,
            self.sets,
        ) + " WHERE "@ + self.id.text() + " = ?"@
    }
}

impl Update {
    pub fn sql(&self) -> (s: String)
        ensures
            s@ == self@.text(),
    {
        let mut s = "UPDATE ".to_owned();
        s.append(self.table.name());
        s.append(" SET ");
        s.append(sets_sql(Place::Update, self.table, &self.sets).as_str());
        s.append(" WHERE ");
        s.append(self.id.name());
        s.append(" = ?");
        s
    }
}

/// `SELECT id AS id, updated_at FROM table WHERE key = ? AND ..`.
pub open spec fn lookup_text(table: Table, id: Column, key: Seq<Column>) -> Seq<char> {
    "SELECT "@ + id.text() + " AS id, updated_at FROM "@ + table.text() + " WHERE "@
        + columns_text(key, " = ?"@, " AND "@)
}

/// The lookup of a row by its key.
pub fn lookup_sql(table: Table, id: Column, key: &Vec<Column>) -> (s: String)
    ensures
        s@ == lookup_text(table, id, key@),
{
    let mut s = "SELECT ".to_owned();
    s.append(id.name());
    s.append(" AS id, updated_at FROM ");
    s.append(table.name());
    s.append(" WHERE ");
    s.append(columns_sql(key, " = ?", " AND ").as_str());
    s
}

// ---------------------------------------------------------------------------
// The assignments that the statements are made of
// ---------------------------------------------------------------------------

pub open spec fn only(cond: Cond) -> Guard {
    Guard { first: cond, second: None }
}

pub open spec fn both(first: Cond, second: Cond) -> Guard {
    Guard { first, second: Some(second) }
}

/// Takes the incoming value where the guard passes, and keeps the stored one else.
pub open spec fn taken_when(column: Column, when: Guard) -> AssignView {
    AssignView {
        column,
        arms: seq![Arm { when, yields: Pick::Incoming }],
        otherwise: Pick::Stored,
    }
}

/// The newer row wins.
pub open spec fn newer_wins(column: Column) -> AssignView {
    taken_when(column, only(Cond::Newer))
}

/// An empty blob is filled from a newer row; a blob that is there stays.
pub open spec fn fills_blob(column: Column) -> AssignView {
    taken_when(column, both(Cond::StoredEmpty(Subject::Own), Cond::Newer))
}

/// A bound value.
pub open spec fn bound(column: Column) -> AssignView {
    AssignView { column, arms: Seq::empty(), otherwise: Pick::Incoming }
}

/// An insert that binds a value to each of the columns.
pub open spec fn binding(columns: Seq<Column>) -> Seq<(Column, Slot)> {
    Seq::new(columns.len(), |i: int| (columns[i], Slot::Bind))
}

/// The newer row wins in each of the columns.
pub open spec fn newest(columns: Seq<Column>) -> Seq<AssignView> {
    Seq::new(columns.len(), |i: int| newer_wins(columns[i]))
}

/// Each of the columns gets a bound value.
pub open spec fn all_bound(columns: Seq<Column>) -> Seq<AssignView> {
    Seq::new(columns.len(), |i: int| bound(columns[i]))
}

pub fn only_if(cond: Cond) -> (g: Guard)
    ensures
        g == only(cond),
{
    Guard { first: cond, second: None }
}

pub fn both_of(first: Cond, second: Cond) -> (g: Guard)
    ensures
        g == both(first, second),
{
    Guard { first, second: Some(second) }
}

pub fn set_when(column: Column, when: Guard) -> (set: Assign)
    ensures
        set@ == taken_when(column, when),
{
    let set = Assign {
        column,
        arms: vec![Arm { when, yields: Pick::Incoming }],
        otherwise: Pick::Stored,
    };
    assert(set@ =~= taken_when(column, when));
    set
}

pub fn set_newer(column: Column) -> (set: Assign)
    ensures
        set@ == newer_wins(column),
{
    set_when(column, only_if(Cond::Newer))
}

pub fn set_blob(column: Column) -> (set: Assign)
    ensures
        set@ == fills_blob(column),
{
    set_when(column, both_of(Cond::StoredEmpty(Subject::Own), Cond::Newer))
}

pub fn set_bound(column: Column) -> (set: Assign)
    ensures
        set@ == bound(column),
{
    let set = Assign { column, arms: Vec::new(), otherwise: Pick::Incoming };
    assert(set@ =~= bound(column));
    set
}

pub fn bind_all(columns: &Vec<Column>) -> (slots: Vec<(Column, Slot)>)
    ensures
        slots@ == binding(columns@),
{
    let mut slots: Vec<(Column, Slot)> = Vec::new();
    let mut i: usize = 0;
    while i < columns.len()
        invariant
            i <= columns@.len(),
            slots@ == binding(columns@.take(i as int)),
        decreases columns@.len() - i,
    {
        slots.push((columns[i], Slot::Bind));
        i = i + 1;
        assert(slots@ =~= binding(columns@.take(i as int)));
    }
    assert(columns@.take(i as int) =~= columns@);
    slots
}

pub fn set_all_newer(columns: &Vec<Column>) -> (sets: Vec<Assign>)
    ensures
        assigns(sets@) == newest(columns@),
{
    let mut sets: Vec<Assign> = Vec::new();
    let mut i: usize = 0;
    while i < columns.len()
        invariant
            i <= columns@.len(),
            sets@.len() == i,
            forall|k: int| 0 <= k < i ==> (#[trigger] sets@[k])@ == newer_wins(columns@[k]),
        decreases columns@.len() - i,
    {
        sets.push(set_newer(columns[i]));
        i = i + 1;
    }
    assert(assigns(sets@) =~= newest(columns@));
    sets
}

pub fn set_all_bound(columns: &Vec<Column>) -> (sets: Vec<Assign>)
    ensures
        assigns(sets@) == all_bound(columns@),
{
    let mut sets: Vec<Assign> = Vec::new();
    let mut i: usize = 0;
    while i < columns.len()
        invariant
            i <= columns@.len(),
            sets@.len() == i,
            forall|k: int| 0 <= k < i ==> (#[trigger] sets@[k])@ == bound(columns@[k]),
        decreases columns@.len() - i,
    {
        sets.push(set_bound(columns[i]));
        i = i + 1;
    }
    assert(assigns(sets@) =~= all_bound(columns@));
    sets
}

} // verus!
