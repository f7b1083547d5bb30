//! The order of texts, said of their bytes.

use crate::text::{
    bytes_before, sorted_set, sorted_set_is_one, text_before, text_before_irreflexive,
    text_before_transitive,
};
use vstd::prelude::*;
use vstd::utf8::encode_utf8;

verus! {

/// Whether two texts share their first bytes.
pub open spec fn share(a: Seq<u8>, b: Seq<u8>, n: int) -> bool {
    0 <= n <= a.len() && n <= b.len() && forall|i: int| 0 <= i < n ==> a[i] == #[trigger] b[i]
}

/// The first byte in which two texts differ decides their order, and a text comes before
/// those that go on after it.
pub proof fn texts_are_ordered_by_their_bytes(a: Seq<char>, b: Seq<char>, n: int)
    requires
        share(encode_utf8(a), encode_utf8(b), n),
    ensures
        n < encode_utf8(a).len() && n < encode_utf8(b).len() && encode_utf8(a)[n] < encode_utf8(
            b,
        )[n] ==> text_before(a, b) && !text_before(b, a),
        n == encode_utf8(a).len() && n < encode_utf8(b).len() ==> text_before(a, b)
            && !text_before(b, a),
{
    let x = encode_utf8(a);
    let y = encode_utf8(b);
    if (n < x.len() && n < y.len() && x[n] < y[n]) || (n == x.len() && n < y.len()) {
        assert(crate::text::first_difference(x, y, n));
        assert(bytes_before(x, y));
        if text_before(b, a) {
            text_before_transitive(a, b, a);
            text_before_irreflexive(a);
        }
    }
}

/// The distinct texts of a list are in increasing order: each is one of the list, each of the
/// list is among them, and none comes twice.
pub proof fn a_sorted_set_has_each_text_once(all: Seq<Seq<char>>, i: int, j: int, t: Seq<char>)
    ensures
        0 <= i < j < sorted_set(all).len() ==> text_before(sorted_set(all)[i], sorted_set(all)[j])
            && sorted_set(all)[i] != sorted_set(all)[j],
        sorted_set(all).contains(t) <==> all.contains(t),
{
    sorted_set_is_one(all);
    let keys = sorted_set(all);
    assert(keys.contains(t) <==> all.contains(t));
    if 0 <= i < j < keys.len() {
        assert(text_before(keys[i], keys[j]));
        text_before_irreflexive(keys[i]);
    }
}

} // verus!
