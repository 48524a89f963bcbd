//! The SQLite cache: where it lives and the keys it stores environments under.

use vstd::prelude::*;
use super::{pair_key, join_key};

verus! {

/// A cache in the SQLite database at `db_path`.
#[derive(Debug, Clone)]
pub struct SqliteCache {
    pub db_path: String,
}

impl SqliteCache {
    /// A cache in the database at `db_path`; nothing is opened yet.
    pub fn new(db_path: &str) -> (c: SqliteCache)
        ensures
            c.db_path@ == db_path@,
    {
        SqliteCache { db_path: db_path.to_owned() }
    }

    /// The cache is named by its database path.
    pub fn id(&self) -> (r: &str)
        ensures
            r@ == self.db_path@,
    {
        self.db_path.as_str()
    }
}

/// The key of an environment at a SHA: `env::sha`.
pub fn gen_env_key(sha: &str, env: &str) -> (k: String)
    ensures
        k@ == pair_key(env@, sha@),
{
    join_key(env, sha)
}

/// The key of the environment listing at a SHA: `!listing::sha`.
pub fn gen_env_listing_key(sha: &str) -> (k: String)
    ensures
        k@ == pair_key("!listing"@, sha@),
{
    join_key("!listing", sha)
}

} // verus!
