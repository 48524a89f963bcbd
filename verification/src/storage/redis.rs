//! The Redis cache: its client, and the keys it stores environments under.

use vstd::prelude::*;
use super::{CacheError, pair_key, join_key};
use crate::urls::{url_parse, UrlParse};

verus! {

#[verifier::external_type_specification]
#[verifier::external_body]
pub struct ExRedisClient(redis::Client);

#[verifier::external_type_specification]
#[verifier::external_body]
pub struct ExRedisError(redis::RedisError);

/// Whether `redis::Client::open` accepts a connection string.
pub uninterp spec fn redis_client_opens(connection_string: Seq<char>) -> bool;

/// The Redis schemes that a connection URL may have.
pub open spec fn redis_scheme(scheme: Seq<char>) -> bool {
    scheme == "redis"@ || scheme == "rediss"@ || scheme == "redis+unix"@ || scheme == "unix"@
}

/// `redis::Client::open` on a connection string. It connects to nothing: it
/// parses the string as a URL and succeeds only for a URL with a Redis scheme,
/// so the outcome is a function of the string.
#[verifier::external_body]
fn open_client(connection_string: &str) -> (r: Result<redis::Client, redis::RedisError>)
    ensures
        r is Ok <==> redis_client_opens(connection_string@),
        r is Ok ==> (url_parse(connection_string@) matches UrlParse::Parsed(u) && redis_scheme(
            u.scheme,
        )),
{
    redis::Client::open(connection_string)
}

/// The message of a Redis error (its `Display` text).
#[verifier::external_body]
fn redis_error_message(e: &redis::RedisError) -> String {
    e.to_string()
}

/// A cache in Redis whose entries expire `ttl` seconds after they were last read or written.
pub struct RedisCache {
    pub client: redis::Client,
    pub id: String,
    pub ttl: usize,
}

impl RedisCache {
    /// A cache named `id` on the server that `connection_string` names; it
    /// fails exactly where the Redis client refuses the string.
    pub fn new(id: &str, connection_string: &str, ttl: usize) -> (r: Result<RedisCache, CacheError>)
        ensures
            r is Ok <==> redis_client_opens(connection_string@),
            r matches Ok(c) ==> c.id@ == id@ && c.ttl == ttl,
    {
        match open_client(connection_string) {
            Ok(client) => Ok(RedisCache { client, id: id.to_owned(), ttl }),
            Err(e) => Err(CacheError { message: redis_error_message(&e) }),
        }
    }
}

/// The key of an environment at a SHA: `env::sha::env`.
pub fn gen_env_key(sha: &str, env: &str) -> (k: String)
    ensures
        k@ == pair_key(pair_key("env"@, sha@), env@),
{
    let prefix = join_key("env", sha);
    join_key(prefix.as_str(), env)
}

/// The key of the environment listing at a SHA: `listing::sha`.
pub fn gen_env_listing_key(sha: &str) -> (k: String)
    ensures
        k@ == pair_key("listing"@, sha@),
{
    join_key("listing", sha)
}

} // verus!
