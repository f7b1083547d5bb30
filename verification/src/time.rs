//! Instants, and the running maximum that a sync answer carries.

use vstd::prelude::*;

verus! {

/// An instant in UTC: whole seconds since the Unix epoch, and the nanoseconds
/// within that second.
#[derive(Clone, Copy, Debug, PartialEq, Eq, Structural)]
pub struct Timestamp {
    pub seconds: i64,
    pub nanos: u32,
}

impl Timestamp {
    /// Whether this instant is later than `other`.
    pub open spec fn after(self, other: Timestamp) -> bool {
        self.seconds > other.seconds || (self.seconds == other.seconds && self.nanos > other.nanos)
    }

    /// The place of the instant on a line: the seconds count before the nanoseconds.
    pub open spec fn place(self) -> int {
        self.seconds * 0x1_0000_0000 + self.nanos
    }

    pub fn is_after(&self, other: &Timestamp) -> (later: bool)
        ensures
            later == self.after(*other),
    {
        self.seconds > other.seconds || (self.seconds == other.seconds && self.nanos > other.nanos)
    }
}

/// One instant is later than another where its place is, so that instants are in a total order
/// and only an instant itself is neither earlier nor later.
pub proof fn instants_are_ordered_by_their_place(a: Timestamp, b: Timestamp)
    ensures
        a.after(b) <==> a.place() > b.place(),
        a.place() == b.place() <==> a == b,
{
}

/// The later of an optional instant and an instant.
pub open spec fn latest(current: Option<Timestamp>, candidate: Timestamp) -> Timestamp {
    match current {
        Some(t) => if candidate.after(t) { candidate } else { t },
        None => candidate,
    }
}

/// The latest instant of a sequence, starting from `current`.
pub open spec fn latest_of(current: Option<Timestamp>, times: Seq<Timestamp>) -> Option<Timestamp>
    decreases times.len(),
{
    if times.len() == 0 {
        current
    } else {
        Some(latest(latest_of(current, times.drop_last()), times.last()))
    }
}

/// Raises `acc` to `v` unless it already holds an instant that is at least as late.
pub fn update_max(acc: &mut Option<Timestamp>, v: Timestamp)
    ensures
        *final(acc) == Some(latest(*old(acc), v)),
{
    match *acc {
        Some(cur) => {
            if v.is_after(&cur) {
                *acc = Some(v);
            }
        },
        None => {
            *acc = Some(v);
        },
    }
}

/// Raises `max` to `updated_at` where that is later, or where nothing is held yet.
pub fn update_max_updated_at(max: &mut Option<Timestamp>, updated_at: Timestamp)
    ensures
        *final(max) == Some(latest(*old(max), updated_at)),
{
    match *max {
        Some(current) => {
            if updated_at.is_after(&current) {
                *max = Some(updated_at);
            }
        },
        None => {
            *max = Some(updated_at);
        },
    }
}

/// `latest_of` is an upper bound of what it folds, and one of the folded instants.
pub proof fn latest_of_is_the_maximum(current: Option<Timestamp>, times: Seq<Timestamp>)
    ensures
        latest_of(current, times) is None <==> current is None && times.len() == 0,
        current matches Some(t) ==> !t.after(latest_of(current, times)->0),
        forall|i: int|
            0 <= i < times.len() ==> !(#[trigger] times[i]).after(latest_of(current, times)->0),
        latest_of(current, times) matches Some(t) ==> current == Some(t) || times.contains(t),
    decreases times.len(),
{
    if times.len() > 0 {
        let rest = times.drop_last();
        latest_of_is_the_maximum(current, rest);
        assert forall|i: int| 0 <= i < times.len() implies !(#[trigger] times[i]).after(
            latest_of(current, times)->0,
        ) by {
            if i < rest.len() {
                assert(rest[i] == times[i]);
            }
        }
        let top = latest_of(current, times)->0;
        if top == times.last() {
            assert(times.contains(top));
        } else if rest.contains(top) {
            let k = choose|k: int| 0 <= k < rest.len() && rest[k] == top;
            assert(times[k] == top);
        }
    }
}

} // verus!
