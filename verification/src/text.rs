//! Text: comparison by bytes, decimal numerals, joining, and a map keyed by text.

use vstd::prelude::*;
use vstd::utf8::{encode_utf8, encode_utf8_decode_utf8};

verus! {

/// Two texts with the same bytes are the same text.
pub proof fn same_bytes_same_text(a: Seq<char>, b: Seq<char>)
    requires
        encode_utf8(a) == encode_utf8(b),
    ensures
        a == b,
{
    encode_utf8_decode_utf8(a);
    encode_utf8_decode_utf8(b);
}

/// Whether `a` and `b` are the same text.
pub fn same_text(a: &str, b: &str) -> (same: bool)
    ensures
        same == (a@ == b@),
{
    let x = a.as_bytes();
    let y = b.as_bytes();
    if x.len() != y.len() {
        return false;
    }
    let mut i: usize = 0;
    while i < x.len()
        invariant
            i <= x.len(),
            x.len() == y.len(),
            x@ == encode_utf8(a@),
            y@ == encode_utf8(b@),
            forall|k: int| 0 <= k < i ==> x@[k] == y@[k],
        decreases x.len() - i,
    {
        if x[i] != y[i] {
            assert(a@ != b@) by {
                assert(x@[i as int] != y@[i as int]);
            }
            return false;
        }
        i = i + 1;
    }
    proof {
        assert(x@ =~= y@);
        same_bytes_same_text(a@, b@);
    }
    true
}

/// The lexicographic order of byte strings: the first difference decides, and a
/// proper prefix comes first.
pub open spec fn bytes_before(a: Seq<u8>, b: Seq<u8>) -> bool {
    exists|n: int| #[trigger] first_difference(a, b, n) && n < b.len() && (n == a.len() || a[n] < b[n])
}

/// `a` and `b` agree on their first `n` bytes.
pub open spec fn first_difference(a: Seq<u8>, b: Seq<u8>, n: int) -> bool {
    &&& 0 <= n <= a.len()
    &&& n <= b.len()
    &&& forall|k: int| 0 <= k < n ==> a[k] == b[k]
}

/// The order of texts: that of their bytes.
pub open spec fn text_before(a: Seq<char>, b: Seq<char>) -> bool {
    bytes_before(encode_utf8(a), encode_utf8(b))
}

/// Whether `a` comes before `b`.
pub fn is_before(a: &str, b: &str) -> (before: bool)
    ensures
        before == text_before(a@, b@),
{
    let x = a.as_bytes();
    let y = b.as_bytes();
    let mut i: usize = 0;
    while i < x.len() && i < y.len() && x[i] == y[i]
        invariant
            i <= x.len(),
            i <= y.len(),
            x@ == encode_utf8(a@),
            y@ == encode_utf8(b@),
            forall|k: int| 0 <= k < i ==> x@[k] == y@[k],
        decreases x.len() - i,
    {
        i = i + 1;
    }
    let before = i < y.len() && (i == x.len() || x[i] < y[i]);
    proof {
        assert(first_difference(x@, y@, i as int));
        if bytes_before(x@, y@) {
            let n = choose|n: int|
                #[trigger] first_difference(x@, y@, n) && n < y@.len() && (n == x@.len() || x@[n]
                    < y@[n]);
            assert(n == i) by {
                if n < i {
                    assert(x@[n] == y@[n]);
                } else if i < n {
                    assert(x@[i as int] == y@[i as int]);
                }
            }
        }
    }
    before
}

/// The order of texts is transitive.
pub proof fn text_before_transitive(a: Seq<char>, b: Seq<char>, c: Seq<char>)
    requires
        text_before(a, b),
        text_before(b, c),
    ensures
        text_before(a, c),
{
    let x = encode_utf8(a);
    let y = encode_utf8(b);
    let z = encode_utf8(c);
    let n = choose|n: int|
        #[trigger] first_difference(x, y, n) && n < y.len() && (n == x.len() || x[n] < y[n]);
    let m = choose|m: int|
        #[trigger] first_difference(y, z, m) && m < z.len() && (m == y.len() || y[m] < z[m]);
    let k = if n < m { n } else { m };
    assert(first_difference(x, z, k));
}

/// No text comes before itself.
pub proof fn text_before_irreflexive(a: Seq<char>)
    ensures
        !text_before(a, a),
{
}

/// Of two different texts one comes before the other.
pub proof fn text_before_total(a: Seq<char>, b: Seq<char>)
    ensures
        a == b || text_before(a, b) || text_before(b, a),
{
    let x = encode_utf8(a);
    let y = encode_utf8(b);
    if a != b {
        let n = common_prefix(x, y, 0);
        common_prefix_ends(x, y, 0);
        if n == x.len() && n == y.len() {
            assert(x =~= y);
            same_bytes_same_text(a, b);
        }
        assert(first_difference(x, y, n));
        assert(first_difference(y, x, n));
    }
}

spec fn common_prefix(a: Seq<u8>, b: Seq<u8>, from: int) -> int
    decreases a.len() - from,
{
    if 0 <= from < a.len() && from < b.len() && a[from] == b[from] {
        common_prefix(a, b, from + 1)
    } else {
        from
    }
}

proof fn common_prefix_ends(a: Seq<u8>, b: Seq<u8>, from: int)
    requires
        first_difference(a, b, from),
    ensures
        ({
            let n = common_prefix(a, b, from);
            first_difference(a, b, n) && (n < a.len() && n < b.len() ==> a[n] != b[n])
        }),
    decreases a.len() - from,
{
    if from < a.len() && from < b.len() && a[from] == b[from] {
        common_prefix_ends(a, b, from + 1);
    }
}

/// The texts that a sequence of strings holds.
pub open spec fn texts(strings: Seq<String>) -> Seq<Seq<char>> {
    Seq::new(strings.len(), |i: int| strings[i]@)
}

/// What an optional string holds.
pub open spec fn text_view(text: Option<String>) -> Option<Seq<char>> {
    match text {
        Some(t) => Some(t@),
        None => None,
    }
}

/// Texts in strictly increasing order: sorted, and none of them twice.
pub open spec fn increasing(s: Seq<Seq<char>>) -> bool {
    forall|i: int, j: int| 0 <= i < j < s.len() ==> text_before(#[trigger] s[i], #[trigger] s[j])
}

/// The first position in `keys` whose text does not come before `key`.
fn lower_bound(keys: &Vec<String>, key: &str) -> (at: usize)
    requires
        increasing(texts(keys@)),
    ensures
        at <= keys@.len(),
        forall|i: int| 0 <= i < at ==> text_before(#[trigger] keys@[i]@, key@),
        forall|i: int| at <= i < keys@.len() ==> !text_before(#[trigger] keys@[i]@, key@),
{
    let mut low: usize = 0;
    let mut high: usize = keys.len();
    while low < high
        invariant
            increasing(texts(keys@)),
            low <= high <= keys@.len(),
            forall|i: int| 0 <= i < low ==> text_before(#[trigger] keys@[i]@, key@),
            forall|i: int| high <= i < keys@.len() ==> !text_before(#[trigger] keys@[i]@, key@),
        decreases high - low,
    {
        let mid = low + (high - low) / 2;
        if is_before(keys[mid].as_str(), key) {
            proof {
                assert forall|i: int| 0 <= i < mid + 1 implies text_before(
                    #[trigger] keys@[i]@,
                    key@,
                ) by {
                    if i < mid {
                        assert(text_before(texts(keys@)[i], texts(keys@)[mid as int]));
                        text_before_transitive(keys@[i]@, keys@[mid as int]@, key@);
                    }
                }
            }
            low = mid + 1;
        } else {
            proof {
                assert forall|i: int| mid <= i < keys@.len() implies !text_before(
                    #[trigger] keys@[i]@,
                    key@,
                ) by {
                    if mid < i && text_before(keys@[i]@, key@) {
                        assert(text_before(texts(keys@)[mid as int], texts(keys@)[i]));
                        text_before_transitive(keys@[mid as int]@, keys@[i]@, key@);
                    }
                }
            }
            high = mid;
        }
    }
    low
}

/// Inserting a key between the smaller and the larger ones keeps the order.
proof fn insert_keeps_increasing(keys: Seq<String>, at: int, key: String)
    requires
        increasing(texts(keys)),
        0 <= at <= keys.len(),
        forall|i: int| 0 <= i < at ==> text_before(#[trigger] keys[i]@, key@),
        forall|i: int| at <= i < keys.len() ==> !text_before(#[trigger] keys[i]@, key@),
        at < keys.len() ==> keys[at]@ != key@,
    ensures
        increasing(texts(keys.insert(at, key))),
{
    let more = keys.insert(at, key);
    assert forall|i: int, j: int| 0 <= i < j < texts(more).len() implies text_before(
        #[trigger] texts(more)[i],
        #[trigger] texts(more)[j],
    ) by {
        if i < at && j > at {
            assert(text_before(texts(keys)[i], texts(keys)[j - 1]));
        } else if i < at && j < at {
            assert(text_before(texts(keys)[i], texts(keys)[j]));
        } else if i > at {
            assert(text_before(texts(keys)[i - 1], texts(keys)[j - 1]));
        } else if i == at {
            text_before_total(keys[at]@, key@);
            if j - 1 > at {
                assert(text_before(texts(keys)[at], texts(keys)[j - 1]));
                text_before_transitive(key@, keys[at]@, keys[j - 1]@);
            }
        }
    }
}

/// Whether `keys` are the texts of `all` in increasing order, each once.
pub open spec fn is_sorted_set(keys: Seq<Seq<char>>, all: Seq<Seq<char>>) -> bool {
    &&& increasing(keys)
    &&& forall|t: Seq<char>| #[trigger] keys.contains(t) <==> all.contains(t)
}

/// The texts of `all` in increasing order, each once.
pub open spec fn sorted_set(all: Seq<Seq<char>>) -> Seq<Seq<char>> {
    choose|keys: Seq<Seq<char>>| is_sorted_set(keys, all)
}

proof fn same_prefix(a: Seq<Seq<char>>, b: Seq<Seq<char>>, all: Seq<Seq<char>>, n: int)
    requires
        is_sorted_set(a, all),
        is_sorted_set(b, all),
        0 <= n <= a.len(),
        n <= b.len(),
    ensures
        forall|i: int| 0 <= i < n ==> a[i] == b[i],
    decreases n,
{
    if n > 0 {
        let k = n - 1;
        same_prefix(a, b, all, k);
        assert(a.contains(a[k]));
        assert(all.contains(a[k]));
        assert(b.contains(a[k]));
        assert(b.contains(b[k]));
        assert(all.contains(b[k]));
        assert(a.contains(b[k]));
        let j = choose|j: int| 0 <= j < b.len() && b[j] == a[k];
        let i = choose|i: int| 0 <= i < a.len() && a[i] == b[k];
        text_before_irreflexive(a[k]);
        text_before_irreflexive(b[k]);
        if j < k {
            assert(text_before(a[j], a[k]));
        }
        if i < k {
            assert(text_before(b[i], b[k]));
        }
        if j > k && i > k {
            assert(text_before(b[k], b[j]));
            assert(text_before(a[k], a[i]));
            text_before_transitive(a[k], b[k], a[k]);
        }
    }
}

/// Only one sequence holds the texts of another in increasing order, each once.
pub proof fn sorted_set_is_unique(a: Seq<Seq<char>>, b: Seq<Seq<char>>, all: Seq<Seq<char>>)
    requires
        is_sorted_set(a, all),
        is_sorted_set(b, all),
    ensures
        a == b,
{
    let n = if a.len() < b.len() { a.len() as int } else { b.len() as int };
    same_prefix(a, b, all, n);
    if a.len() < b.len() {
        assert(b.contains(b[n]));
        assert(all.contains(b[n]));
        assert(a.contains(b[n]));
        let i = choose|i: int| 0 <= i < a.len() && a[i] == b[n];
        text_before_irreflexive(b[n]);
        assert(text_before(b[i], b[n]));
    } else if b.len() < a.len() {
        assert(a.contains(a[n]));
        assert(all.contains(a[n]));
        assert(b.contains(a[n]));
        let i = choose|i: int| 0 <= i < b.len() && b[i] == a[n];
        text_before_irreflexive(a[n]);
        assert(text_before(a[i], a[n]));
    }
    assert(a =~= b);
}

/// How many of the first `n` texts come before `t`, where they are in order.
proof fn place_among(keys: Seq<Seq<char>>, t: Seq<char>, n: int) -> (at: int)
    requires
        increasing(keys),
        !keys.contains(t),
        0 <= n <= keys.len(),
    ensures
        0 <= at <= n,
        forall|i: int| 0 <= i < at ==> text_before(#[trigger] keys[i], t),
        forall|i: int| at <= i < n ==> text_before(t, #[trigger] keys[i]),
    decreases n,
{
    if n == 0 {
        0
    } else {
        let at = place_among(keys, t, n - 1);
        let last = keys[n - 1];
        assert(keys.contains(last));
        text_before_total(last, t);
        if text_before(last, t) {
            assert forall|i: int| 0 <= i < n implies text_before(#[trigger] keys[i], t) by {
                if i < n - 1 {
                    text_before_transitive(keys[i], last, t);
                }
            }
            n
        } else {
            at
        }
    }
}

proof fn some_sorted_set(all: Seq<Seq<char>>) -> (keys: Seq<Seq<char>>)
    ensures
        is_sorted_set(keys, all),
    decreases all.len(),
{
    if all.len() == 0 {
        let keys = Seq::<Seq<char>>::empty();
        assert(is_sorted_set(keys, all));
        keys
    } else {
        let rest = all.drop_last();
        let t = all.last();
        let fewer = some_sorted_set(rest);
        assert(all =~= rest.push(t));
        if fewer.contains(t) {
            assert forall|x: Seq<char>| #[trigger] fewer.contains(x) <==> all.contains(x) by {
                if all.contains(x) && x != t {
                    let i = choose|i: int| 0 <= i < all.len() && all[i] == x;
                    assert(rest[i] == x);
                }
                if rest.contains(x) {
                    let i = choose|i: int| 0 <= i < rest.len() && rest[i] == x;
                    assert(all[i] == x);
                }
            }
            fewer
        } else {
            let at = place_among(fewer, t, fewer.len() as int);
            let keys = fewer.insert(at, t);
            assert forall|x: Seq<char>| #[trigger] keys.contains(x) <==> all.contains(x) by {
                if keys.contains(x) {
                    let i = choose|i: int| 0 <= i < keys.len() && keys[i] == x;
                    if i < at {
                        assert(fewer[i] == x);
                    } else if i > at {
                        assert(fewer[i - 1] == x);
                    }
                    if x == t {
                        assert(all[all.len() - 1] == t);
                    } else {
                        assert(fewer.contains(x));
                        assert(rest.contains(x));
                        let j = choose|j: int| 0 <= j < rest.len() && rest[j] == x;
                        assert(all[j] == x);
                    }
                }
                if all.contains(x) {
                    if x == t {
                        assert(keys[at] == t);
                    } else {
                        let j = choose|j: int| 0 <= j < all.len() && all[j] == x;
                        assert(rest[j] == x);
                        assert(fewer.contains(x));
                        let i = choose|i: int| 0 <= i < fewer.len() && fewer[i] == x;
                        if i < at {
                            assert(keys[i] == x);
                        } else {
                            assert(keys[i + 1] == x);
                        }
                    }
                }
            }
            keys
        }
    }
}

/// Any texts can be put in increasing order, each once.
pub proof fn sorted_set_is_one(all: Seq<Seq<char>>)
    ensures
        is_sorted_set(sorted_set(all), all),
{
    let keys = some_sorted_set(all);
}

/// The distinct texts of `all`, in increasing order.
pub fn sorted_distinct(all: &Vec<String>) -> (distinct: Vec<String>)
    ensures
        texts(distinct@) == sorted_set(texts(all@)),
        is_sorted_set(texts(distinct@), texts(all@)),
{
    let mut distinct: Vec<String> = Vec::new();
    let mut n: usize = 0;
    while n < all.len()
        invariant
            n <= all@.len(),
            increasing(texts(distinct@)),
            forall|i: int|
                0 <= i < distinct@.len() ==> texts(all@).contains(#[trigger] distinct@[i]@),
            forall|k: int|
                0 <= k < n ==> texts(distinct@).contains(#[trigger] all@[k]@),
        decreases all@.len() - n,
    {
        let at = lower_bound(&distinct, all[n].as_str());
        let ghost before = distinct@;
        let present = at < distinct.len() && same_text(distinct[at].as_str(), all[n].as_str());
        if !present {
            proof {
                insert_keeps_increasing(distinct@, at as int, all@[n as int]);
            }
            distinct.insert(at, all[n].clone());
            proof {
                assert(texts(distinct@)[at as int] == all@[n as int]@);
                assert(texts(all@)[n as int] == all@[n as int]@);
                assert forall|k: int| 0 <= k < n implies texts(distinct@).contains(
                    #[trigger] all@[k]@,
                ) by {
                    let i = choose|i: int| 0 <= i < before.len() && texts(before)[i] == all@[k]@;
                    if i < at {
                        assert(texts(distinct@)[i] == all@[k]@);
                    } else {
                        assert(texts(distinct@)[i + 1] == all@[k]@);
                    }
                }
                assert forall|i: int| 0 <= i < distinct@.len() implies texts(all@).contains(
                    #[trigger] distinct@[i]@,
                ) by {
                    if i < at {
                        assert(distinct@[i] == before[i]);
                    } else if i > at {
                        assert(distinct@[i] == before[i - 1]);
                    }
                }
            }
        } else {
            proof {
                assert(texts(distinct@)[at as int] == all@[n as int]@);
            }
        }
        n = n + 1;
    }
    proof {
        assert forall|t: Seq<char>| #[trigger] texts(distinct@).contains(t) <==> texts(
            all@,
        ).contains(t) by {
            if texts(distinct@).contains(t) {
                let i = choose|i: int| 0 <= i < distinct@.len() && texts(distinct@)[i] == t;
                assert(distinct@[i]@ == t);
            }
            if texts(all@).contains(t) {
                let k = choose|k: int| 0 <= k < all@.len() && texts(all@)[k] == t;
                assert(all@[k]@ == t);
            }
        }
        assert(is_sorted_set(texts(distinct@), texts(all@)));
        sorted_set_is_unique(texts(distinct@), sorted_set(texts(all@)), texts(all@));
    }
    distinct
}

/// A map from texts to values, kept as keys in increasing order beside their values.
pub struct TextMap<V> {
    keys: Vec<String>,
    values: Vec<V>,
}

impl<V: Copy> TextMap<V> {
    /// The keys are in order and each has its value.
    pub closed spec fn wf(self) -> bool {
        &&& increasing(texts(self.keys@))
        &&& self.keys@.len() == self.values@.len()
    }

    spec fn holds(self, key: Seq<char>, i: int) -> bool {
        0 <= i < self.keys@.len() && self.keys@[i]@ == key
    }

    /// What the map holds.
    pub closed spec fn view(self) -> Map<Seq<char>, V> {
        Map::new(
            |key: Seq<char>| exists|i: int| self.holds(key, i),
            |key: Seq<char>| self.values@[choose|i: int| self.holds(key, i)],
        )
    }

    proof fn value_at(self, i: int)
        requires
            self.wf(),
            0 <= i < self.keys@.len(),
        ensures
            self@.contains_key(self.keys@[i]@),
            self@[self.keys@[i]@] == self.values@[i],
    {
        let key = self.keys@[i]@;
        assert(self.holds(key, i));
        let j = choose|j: int| self.holds(key, j);
        if j < i {
            assert(text_before(texts(self.keys@)[j], texts(self.keys@)[i]));
            text_before_irreflexive(key);
        } else if i < j {
            assert(text_before(texts(self.keys@)[i], texts(self.keys@)[j]));
            text_before_irreflexive(key);
        }
    }

    /// A map that holds nothing.
    pub fn new() -> (map: TextMap<V>)
        ensures
            map.wf(),
            map@ == Map::<Seq<char>, V>::empty(),
    {
        let map = TextMap { keys: Vec::new(), values: Vec::new() };
        assert(map@ =~= Map::<Seq<char>, V>::empty());
        map
    }

    /// Whether the map holds nothing.
    pub fn is_empty(&self) -> (empty: bool)
        requires
            self.wf(),
        ensures
            empty == (self@ =~= Map::<Seq<char>, V>::empty()),
    {
        let empty = self.keys.len() == 0;
        proof {
            if !empty {
                self.value_at(0);
            } else {
                assert(self@ =~= Map::<Seq<char>, V>::empty());
            }
        }
        empty
    }

    /// The value under `key`.
    pub fn get(&self, key: &str) -> (value: Option<V>)
        requires
            self.wf(),
        ensures
            value == (if self@.contains_key(key@) { Some(self@[key@]) } else { None::<V> }),
    {
        let at = lower_bound(&self.keys, key);
        if at < self.keys.len() && same_text(self.keys[at].as_str(), key) {
            proof {
                self.value_at(at as int);
            }
            Some(self.values[at])
        } else {
            proof {
                if self@.contains_key(key@) {
                    let i = choose|i: int| self.holds(key@, i);
                    text_before_irreflexive(key@);
                    if i > at {
                        assert(text_before(texts(self.keys@)[at as int], texts(self.keys@)[i]));
                    }
                }
            }
            None
        }
    }

    /// Puts `value` under `key`, in place of what was there.
    pub fn insert(&mut self, key: String, value: V)
        requires
            old(self).wf(),
        ensures
            final(self).wf(),
            final(self)@ == old(self)@.insert(key@, value),
    {
        let at = lower_bound(&self.keys, key.as_str());
        let ghost before = *self;
        let ghost k = key@;
        if at < self.keys.len() && same_text(self.keys[at].as_str(), key.as_str()) {
            self.values.set(at, value);
            proof {
                assert forall|t: Seq<char>| #[trigger]
                    self@.contains_key(t) == before@.insert(k, value).contains_key(t) by {
                    if self@.contains_key(t) {
                        let i = choose|i: int| self.holds(t, i);
                        before.value_at(i);
                    }
                    if before@.contains_key(t) {
                        let i = choose|i: int| before.holds(t, i);
                        self.value_at(i);
                    }
                    self.value_at(at as int);
                }
                assert forall|t: Seq<char>| #[trigger] self@.contains_key(t) implies self@[t]
                    == before@.insert(k, value)[t] by {
                    let i = choose|i: int| self.holds(t, i);
                    self.value_at(i);
                    before.value_at(i);
                    if i != at {
                        before.value_at(at as int);
                        if i < at {
                            assert(text_before(texts(before.keys@)[i], texts(before.keys@)[at as int]));
                        } else {
                            assert(text_before(texts(before.keys@)[at as int], texts(before.keys@)[i]));
                        }
                        text_before_irreflexive(k);
                    }
                }
                assert(self@ =~= before@.insert(k, value));
            }
        } else {
            proof {
                insert_keeps_increasing(self.keys@, at as int, key);
            }
            self.keys.insert(at, key);
            self.values.insert(at, value);
            proof {
                assert forall|t: Seq<char>| #[trigger]
                    self@.contains_key(t) == before@.insert(k, value).contains_key(t) by {
                    if self@.contains_key(t) {
                        let i = choose|i: int| self.holds(t, i);
                        if i < at {
                            before.value_at(i);
                        } else if i > at {
                            before.value_at(i - 1);
                        }
                    }
                    if before@.contains_key(t) {
                        let i = choose|i: int| before.holds(t, i);
                        if i < at {
                            self.value_at(i);
                        } else {
                            self.value_at(i + 1);
                        }
                    }
                    self.value_at(at as int);
                }
                assert forall|t: Seq<char>| #[trigger] self@.contains_key(t) implies self@[t]
                    == before@.insert(k, value)[t] by {
                    let i = choose|i: int| self.holds(t, i);
                    self.value_at(i);
                    if i < at {
                        before.value_at(i);
                        assert(text_before(before.keys@[i]@, k));
                        text_before_irreflexive(k);
                    } else if i > at {
                        before.value_at(i - 1);
                        assert(text_before(texts(self.keys@)[at as int], texts(self.keys@)[i]));
                        text_before_irreflexive(k);
                    }
                }
                assert(self@ =~= before@.insert(k, value));
            }
        }
    }
}

/// The parts one after the other, with `separator` between neighbours.
pub open spec fn joined(parts: Seq<Seq<char>>, separator: Seq<char>) -> Seq<char>
    decreases parts.len(),
{
    if parts.len() == 0 {
        Seq::empty()
    } else if parts.len() == 1 {
        parts[0]
    } else {
        joined(parts.drop_last(), separator) + separator + parts.last()
    }
}

/// Joins `parts` with `separator` between neighbours.
pub fn join(parts: &Vec<String>, separator: &str) -> (all: String)
    ensures
        all@ == joined(texts(parts@), separator@),
{
    let mut all = String::new();
    let mut i: usize = 0;
    while i < parts.len()
        invariant
            i <= parts@.len(),
            all@ == joined(texts(parts@).take(i as int), separator@),
        decreases parts@.len() - i,
    {
        proof {
            let next = texts(parts@).take(i + 1);
            assert(next.drop_last() =~= texts(parts@).take(i as int));
            assert(next.last() == parts@[i as int]@);
        }
        if i > 0 {
            all.append(separator);
        }
        all.append(parts[i].as_str());
        proof {
            if i == 0 {
                assert(all@ =~= texts(parts@).take(1)[0]);
            }
        }
        i = i + 1;
    }
    assert(texts(parts@).take(i as int) =~= texts(parts@));
    all
}

/// The decimal digit for a number below ten.
pub open spec fn digit(d: int) -> Seq<char> {
    if d == 0 {
        "0"@
    } else if d == 1 {
        "1"@
    } else if d == 2 {
        "2"@
    } else if d == 3 {
        "3"@
    } else if d == 4 {
        "4"@
    } else if d == 5 {
        "5"@
    } else if d == 6 {
        "6"@
    } else if d == 7 {
        "7"@
    } else if d == 8 {
        "8"@
    } else {
        "9"@
    }
}

/// A natural number in decimal, without leading zeros.
pub open spec fn decimal_nat(n: nat) -> Seq<char>
    decreases n,
{
    if n < 10 {
        digit(n as int)
    } else {
        decimal_nat(n / 10) + digit((n % 10) as int)
    }
}

/// An integer in decimal, with a minus sign where it is negative.
pub open spec fn decimal_text(n: int) -> Seq<char> {
    if n < 0 {
        "-"@ + decimal_nat((-n) as nat)
    } else {
        decimal_nat(n as nat)
    }
}

fn digit_str(d: u64) -> (s: &'static str)
    requires
        d < 10,
    ensures
        s@ == digit(d as int),
{
    if d == 0 {
        "0"
    } else if d == 1 {
        "1"
    } else if d == 2 {
        "2"
    } else if d == 3 {
        "3"
    } else if d == 4 {
        "4"
    } else if d == 5 {
        "5"
    } else if d == 6 {
        "6"
    } else if d == 7 {
        "7"
    } else if d == 8 {
        "8"
    } else {
        "9"
    }
}

/// A number in decimal.
pub fn natural(n: u64) -> (s: String)
    ensures
        s@ == decimal_nat(n as nat),
    decreases n,
{
    if n < 10 {
        digit_str(n).to_owned()
    } else {
        let mut s = natural(n / 10);
        s.append(digit_str(n % 10));
        s
    }
}

/// Writes `n` in decimal.
pub fn decimal(n: i64) -> (s: String)
    ensures
        s@ == decimal_text(n as int),
{
    if n >= 0 {
        natural(n as u64)
    } else if n == i64::MIN {
        let mut s = "-".to_owned();
        s.append(natural(9223372036854775808).as_str());
        s
    } else {
        let mut s = "-".to_owned();
        s.append(natural((-n) as u64).as_str());
        s
    }
}

} // verus!
