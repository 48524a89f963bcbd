//! Caches of rendered-environment data: the keys each store files an
//! environment under, and how a chain of caches is read and written.

pub mod cache;
pub mod lru;
pub mod multi;
pub mod redis;
pub mod sqlite;

use vstd::prelude::*;

verus! {

/// A cache could not be set up or used; the store's message.
#[derive(Debug)]
pub struct CacheError {
    pub message: String,
}

/// `a::b` as text.
pub open spec fn pair_key(a: Seq<char>, b: Seq<char>) -> Seq<char> {
    a + "::"@ + b
}

/// `a::b`.
pub fn join_key(a: &str, b: &str) -> (k: String)
    ensures
        k@ == pair_key(a@, b@),
{
    let mut k = a.to_owned();
    k.append("::");
    k.append(b);
    k
}

} // verus!
