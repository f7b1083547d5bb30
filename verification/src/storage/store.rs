//! The store of the wallet server.

use vstd::prelude::*;

verus! {

/// The store of the wallet server. Its operations are given as steps: each says what is to
/// be asked of the database and the object store next, and goes on with the answer.
#[derive(Debug, PartialEq, Eq)]
pub struct StorageD1 {}

} // verus!
