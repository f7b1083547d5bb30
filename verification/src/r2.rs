//! Which blobs live in the object store, and under which key.

use crate::text::{decimal, decimal_text};
use vstd::prelude::*;

verus! {

/// The longest blob, in bytes, that is kept in its column.
pub const THRESHOLD: usize = 4096;

/// Whether a blob is too long for its column and goes to the object store.
pub fn should_use_r2(data: &[u8]) -> (overflow: bool)
    ensures
        overflow == (data@.len() > THRESHOLD),
{
    data.len() > THRESHOLD
}

/// The key of an overflow blob: `table/id/column`.
pub open spec fn object_key_text(table: Seq<char>, id: int, column: Seq<char>) -> Seq<char> {
    table + "/"@ + decimal_text(id) + "/"@ + column
}

/// The key of an overflow blob.
pub fn object_key(table: &str, id: i64, column: &str) -> (key: String)
    ensures
        key@ == object_key_text(table@, id as int, column@),
{
    let mut key = table.to_owned();
    key.append("/");
    key.append(decimal(id).as_str());
    key.append("/");
    key.append(column);
    key
}

} // verus!
