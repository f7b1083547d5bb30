//! How a merging statement chooses the new value of a column: the text of the
//! choice, and the value that it gives.

use super::names::Column;
use super::query::SqlValue;
use vstd::prelude::*;

verus! {

/// The column that a condition looks at: the one being assigned, or a named one.
#[derive(Clone, Copy, Debug, PartialEq, Eq, Structural)]
pub enum Subject {
    Own,
    Of(Column),
}

/// A condition over the stored row and the incoming one.
#[derive(Clone, Copy, Debug, PartialEq, Eq, Structural)]
pub enum Cond {
    /// The incoming row carries a later `updated_at`.
    ///
    /// The store compares the texts of the two instants, and the value that this condition
    /// has here compares the instants themselves. That the texts of stored instants are
    /// ordered as the instants are rests on how they are written: `stored_text` in
    /// `app/convert.rs` writes every instant in UTC in one form with the same number of
    /// digits. Nothing here proves that.
    Newer,
    /// The stored value is `NULL` or has no bytes.
    StoredEmpty(Subject),
    StoredNull(Subject),
    StoredNotNull(Subject),
    IncomingNotNull(Subject),
    StoredZero(Subject),
    StoredOne(Subject),
    /// The stored row lies in the basket of its user that is named `default`.
    InDefaultBasket,
}

/// A conjunction of one or two conditions.
#[derive(Clone, Copy, Debug, PartialEq, Eq, Structural)]
pub struct Guard {
    pub first: Cond,
    pub second: Option<Cond>,
}

/// The value that a choice yields.
#[derive(Clone, Copy, Debug, PartialEq, Eq, Structural)]
pub enum Pick {
    Stored,
    Incoming,
    Zero,
    One,
}

/// One `WHEN .. THEN ..` of a choice.
#[derive(Clone, Copy, Debug, PartialEq, Eq, Structural)]
pub struct Arm {
    pub when: Guard,
    pub yields: Pick,
}

/// Where a choice stands: in the conflict clause of an insert, where the stored row
/// goes by its table and the incoming one by `excluded`, or in an update, where the
/// stored row goes by bare names and the incoming values are bound.
#[derive(Clone, Copy, Debug, PartialEq, Eq, Structural)]
pub enum Place {
    Conflict,
    Update,
}

/// The assignment of a column: the arms in order, and what holds where none applies.
#[verifier::ext_equal]
pub struct AssignView {
    pub column: Column,
    pub arms: Seq<Arm>,
    pub otherwise: Pick,
}

/// The assignment of a column: the arms in order, and what holds where none applies.
#[derive(Debug, PartialEq, Eq)]
pub struct Assign {
    pub column: Column,
    pub arms: Vec<Arm>,
    pub otherwise: Pick,
}

impl View for Assign {
    type V = AssignView;

    open spec fn view(&self) -> AssignView {
        AssignView { column: self.column, arms: self.arms@, otherwise: self.otherwise }
    }
}

/// The assignments that a list stands for.
pub open spec fn assigns(list: Seq<Assign>) -> Seq<AssignView> {
    Seq::new(list.len(), |i: int| list[i]@)
}

// ---------------------------------------------------------------------------
// Text
// ---------------------------------------------------------------------------

pub open spec fn stored_text(place: Place, table: Seq<char>, column: Seq<char>) -> Seq<char> {
    match place {
        Place::Conflict => table + "."@ + column,
        Place::Update => column,
    }
}

pub open spec fn incoming_text(place: Place, column: Seq<char>) -> Seq<char> {
    match place {
        Place::Conflict => "excluded."@ + column,
        Place::Update => "?"@,
    }
}

pub open spec fn subject_text(subject: Subject, own: Seq<char>) -> Seq<char> {
    match subject {
        Subject::Own => own,
        Subject::Of(column) => column.text(),
    }
}

pub open spec fn empty_text(place: Place, stored: Seq<char>) -> Seq<char> {
    match place {
        Place::Conflict => "("@ + stored + " IS NULL OR length("@ + stored + ")=0)"@,
        Place::Update => stored + " IS NULL OR length("@ + stored + ") = 0"@,
    }
}

pub open spec fn basket_owner_text(place: Place, table: Seq<char>) -> Seq<char> {
    match place {
        Place::Conflict => table + ".user_id"@,
        Place::Update => "?"@,
    }
}

pub open spec fn cond_text(place: Place, table: Seq<char>, own: Seq<char>, cond: Cond) -> Seq<char> {
    match cond {
        Cond::Newer => incoming_text(place, "updated_at"@) + " > "@ + stored_text(
            place,
            table,
            "updated_at"@,
        ),
        Cond::StoredEmpty(s) => empty_text(place, stored_text(place, table, subject_text(s, own))),
        Cond::StoredNull(s) => stored_text(place, table, subject_text(s, own)) + " IS NULL"@,
        Cond::StoredNotNull(s) => stored_text(place, table, subject_text(s, own)) + " IS NOT NULL"@,
        Cond::IncomingNotNull(s) => incoming_text(place, subject_text(s, own)) + " IS NOT NULL"@,
        Cond::StoredZero(s) => stored_text(place, table, subject_text(s, own)) + " = 0"@,
        Cond::StoredOne(s) => stored_text(place, table, subject_text(s, own)) + " = 1"@,
        Cond::InDefaultBasket => stored_text(place, table, "basket_id"@)
            + " = (SELECT basket_id FROM output_baskets WHERE user_id = "@ + basket_owner_text(
            place,
            table,
        ) + " AND name = 'default')"@,
    }
}

pub open spec fn guard_text(place: Place, table: Seq<char>, own: Seq<char>, guard: Guard) -> Seq<
    char,
> {
    match guard.second {
        None => cond_text(place, table, own, guard.first),
        Some(second) => cond_text(place, table, own, guard.first) + " AND "@ + cond_text(
            place,
            table,
            own,
            second,
        ),
    }
}

pub open spec fn pick_text(place: Place, table: Seq<char>, own: Seq<char>, pick: Pick) -> Seq<char> {
    match pick {
        Pick::Stored => stored_text(place, table, own),
        Pick::Incoming => incoming_text(place, own),
        Pick::Zero => "0"@,
        Pick::One => "1"@,
    }
}

pub open spec fn arms_text(place: Place, table: Seq<char>, own: Seq<char>, arms: Seq<Arm>) -> Seq<
    char,
>
    decreases arms.len(),
{
    if arms.len() == 0 {
        Seq::empty()
    } else {
        arms_text(place, table, own, arms.drop_last()) + "WHEN "@ + guard_text(
            place,
            table,
            own,
            arms.last().when,
        ) + " THEN "@ + pick_text(place, table, own, arms.last().yields) + " "@
    }
}

/// `column = CASE WHEN .. THEN .. ELSE .. END`, or `column = value` without arms.
pub open spec fn choice_text(
    place: Place,
    table: Seq<char>,
    own: Seq<char>,
    arms: Seq<Arm>,
    otherwise: Pick,
) -> Seq<char> {
    if arms.len() == 0 {
        own + " = "@ + pick_text(place, table, own, otherwise)
    } else {
        own + " = CASE "@ + arms_text(place, table, own, arms) + "ELSE "@ + pick_text(
            place,
            table,
            own,
            otherwise,
        ) + " END"@
    }
}

fn stored_sql(place: Place, table: &str, column: &str) -> (s: String)
    ensures
        s@ == stored_text(place, table@, column@),
{
    match place {
        Place::Conflict => {
            let mut s = table.to_owned();
            s.append(".");
            s.append(column);
            s
        },
        Place::Update => column.to_owned(),
    }
}

fn incoming_sql(place: Place, column: &str) -> (s: String)
    ensures
        s@ == incoming_text(place, column@),
{
    match place {
        Place::Conflict => {
            let mut s = "excluded.".to_owned();
            s.append(column);
            s
        },
        Place::Update => "?".to_owned(),
    }
}

fn subject_sql(subject: Subject, own: &str) -> (s: String)
    ensures
        s@ == subject_text(subject, own@),
{
    match subject {
        Subject::Own => own.to_owned(),
        Subject::Of(column) => column.name().to_owned(),
    }
}

fn stored_subject_sql(place: Place, table: &str, own: &str, subject: Subject) -> (s: String)
    ensures
        s@ == stored_text(place, table@, subject_text(subject, own@)),
{
    stored_sql(place, table, subject_sql(subject, own).as_str())
}

fn empty_sql(place: Place, stored: &str) -> (s: String)
    ensures
        s@ == empty_text(place, stored@),
{
    match place {
        Place::Conflict => {
            let mut s = "(".to_owned();
            s.append(stored);
            s.append(" IS NULL OR length(");
            s.append(stored);
            s.append(")=0)");
            s
        },
        Place::Update => {
            let mut s = stored.to_owned();
            s.append(" IS NULL OR length(");
            s.append(stored);
            s.append(") = 0");
            s
        },
    }
}

fn cond_sql(place: Place, table: &str, own: &str, cond: Cond) -> (s: String)
    ensures
        s@ == cond_text(place, table@, own@, cond),
{
    match cond {
        Cond::Newer => {
            let mut s = incoming_sql(place, "updated_at");
            s.append(" > ");
            s.append(stored_sql(place, table, "updated_at").as_str());
            s
        },
        Cond::StoredEmpty(subject) => empty_sql(
            place,
            stored_subject_sql(place, table, own, subject).as_str(),
        ),
        Cond::StoredNull(subject) => {
            let mut s = stored_subject_sql(place, table, own, subject);
            s.append(" IS NULL");
            s
        },
        Cond::StoredNotNull(subject) => {
            let mut s = stored_subject_sql(place, table, own, subject);
            s.append(" IS NOT NULL");
            s
        },
        Cond::IncomingNotNull(subject) => {
            let mut s = incoming_sql(place, subject_sql(subject, own).as_str());
            s.append(" IS NOT NULL");
            s
        },
        Cond::StoredZero(subject) => {
            let mut s = stored_subject_sql(place, table, own, subject);
            s.append(" = 0");
            s
        },
        Cond::StoredOne(subject) => {
            let mut s = stored_subject_sql(place, table, own, subject);
            s.append(" = 1");
            s
        },
        Cond::InDefaultBasket => {
            let mut s = stored_sql(place, table, "basket_id");
            s.append(" = (SELECT basket_id FROM output_baskets WHERE user_id = ");
            match place {
                Place::Conflict => {
                    let mut owner = table.to_owned();
                    owner.append(".user_id");
                    s.append(owner.as_str());
                },
                Place::Update => {
                    s.append("?");
                },
            }
            s.append(" AND name = 'default')");
            s
        },
    }
}

fn guard_sql(place: Place, table: &str, own: &str, guard: Guard) -> (s: String)
    ensures
        s@ == guard_text(place, table@, own@, guard),
{
    let mut s = cond_sql(place, table, own, guard.first);
    match guard.second {
        None => {},
        Some(second) => {
            s.append(" AND ");
            s.append(cond_sql(place, table, own, second).as_str());
        },
    }
    s
}

fn pick_sql(place: Place, table: &str, own: &str, pick: Pick) -> (s: String)
    ensures
        s@ == pick_text(place, table@, own@, pick),
{
    match pick {
        Pick::Stored => stored_sql(place, table, own),
        Pick::Incoming => incoming_sql(place, own),
        Pick::Zero => "0".to_owned(),
        Pick::One => "1".to_owned(),
    }
}

/// Writes an assignment out.
pub fn choice_sql(place: Place, table: &str, own: &str, arms: &Vec<Arm>, otherwise: Pick) -> (s:
    String)
    ensures
        s@ == choice_text(place, table@, own@, arms@, otherwise),
{
    let mut s = own.to_owned();
    if arms.len() == 0 {
        s.append(" = ");
        s.append(pick_sql(place, table, own, otherwise).as_str());
        return s;
    }
    s.append(" = CASE ");
    let mut list = String::new();
    let mut i: usize = 0;
    while i < arms.len()
        invariant
            i <= arms@.len(),
            list@ == arms_text(place, table@, own@, arms@.take(i as int)),
        decreases arms@.len() - i,
    {
        proof {
            assert(arms@.take(i + 1).drop_last() =~= arms@.take(i as int));
        }
        list.append("WHEN ");
        list.append(guard_sql(place, table, own, arms[i].when).as_str());
        list.append(" THEN ");
        list.append(pick_sql(place, table, own, arms[i].yields).as_str());
        list.append(" ");
        i = i + 1;
    }
    assert(arms@.take(i as int) =~= arms@);
    s.append(list.as_str());
    s.append("ELSE ");
    s.append(pick_sql(place, table, own, otherwise).as_str());
    s.append(" END");
    s
}

// ---------------------------------------------------------------------------
// Meaning
// ---------------------------------------------------------------------------

/// A row: the value of each of its columns.
pub type Row = Map<Column, SqlValue>;

/// The value of a column, `NULL` where the row does not have it.
pub open spec fn at(row: Row, column: Column) -> SqlValue {
    if row.contains_key(column) {
        row[column]
    } else {
        SqlValue::Null
    }
}

/// Whether a value is `NULL` or has the length zero.
pub open spec fn is_empty_value(v: SqlValue) -> bool {
    match v {
        SqlValue::Null => true,
        SqlValue::Text(s) => s.len() == 0,
        SqlValue::Blob(b) => b.len() == 0,
        _ => false,
    }
}

/// Whether `incoming` carries a later `updated_at` than `stored`. As a comparison with
/// `NULL` does, it fails where one of them has none. Of the texts that the store compares
/// see [`Cond::Newer`].
pub open spec fn newer(stored: Row, incoming: Row) -> bool {
    match (at(incoming, Column::UpdatedAt), at(stored, Column::UpdatedAt)) {
        (SqlValue::Time(a), SqlValue::Time(b)) => a.after(b),
        _ => false,
    }
}

pub open spec fn subject_column(subject: Subject, own: Column) -> Column {
    match subject {
        Subject::Own => own,
        Subject::Of(column) => column,
    }
}

/// What a merge reads: the row in the store, the incoming row, and the id of the
/// basket of the stored row's user that is named `default`, where there is one.
pub struct Merge {
    pub stored: Row,
    pub incoming: Row,
    pub default_basket: Option<int>,
}

impl Merge {
    pub open spec fn holds(self, own: Column, cond: Cond) -> bool {
        match cond {
            Cond::Newer => newer(self.stored, self.incoming),
            Cond::StoredEmpty(s) => is_empty_value(at(self.stored, subject_column(s, own))),
            Cond::StoredNull(s) => at(self.stored, subject_column(s, own)) is Null,
            Cond::StoredNotNull(s) => !(at(self.stored, subject_column(s, own)) is Null),
            Cond::IncomingNotNull(s) => !(at(self.incoming, subject_column(s, own)) is Null),
            Cond::StoredZero(s) => at(self.stored, subject_column(s, own)) == SqlValue::Int(0),
            Cond::StoredOne(s) => at(self.stored, subject_column(s, own)) == SqlValue::Int(1),
            Cond::InDefaultBasket => match self.default_basket {
                Some(id) => at(self.stored, Column::BasketId) == SqlValue::Int(id),
                None => false,
            },
        }
    }

    pub open spec fn passes(self, own: Column, guard: Guard) -> bool {
        self.holds(own, guard.first) && (guard.second matches Some(second) ==> self.holds(
            own,
            second,
        ))
    }

    pub open spec fn picked(self, own: Column, pick: Pick) -> SqlValue {
        match pick {
            Pick::Stored => at(self.stored, own),
            Pick::Incoming => at(self.incoming, own),
            Pick::Zero => SqlValue::Int(0),
            Pick::One => SqlValue::Int(1),
        }
    }

    /// The value of the first arm that applies, or the other value.
    pub open spec fn chosen(self, own: Column, arms: Seq<Arm>, otherwise: Pick) -> SqlValue
        decreases arms.len(),
    {
        if arms.len() == 0 {
            self.picked(own, otherwise)
        } else if self.passes(own, arms[0].when) {
            self.picked(own, arms[0].yields)
        } else {
            self.chosen(own, arms.drop_first(), otherwise)
        }
    }

    /// The stored row after the assignments. Each reads the row as it was before.
    pub open spec fn merged(self, sets: Seq<AssignView>) -> Row
        decreases sets.len(),
    {
        if sets.len() == 0 {
            self.stored
        } else {
            let set = sets.last();
            self.merged(sets.drop_last()).insert(
                set.column,
                self.chosen(set.column, set.arms, set.otherwise),
            )
        }
    }
}

} // verus!
