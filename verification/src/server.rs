//! The decisions of the configuration service: naming of request paths and
//! commits, and which environments a request can be answered from.

use vstd::prelude::*;
use vstd::utf8::{is_char_boundary, encode_utf8};
use crate::text::{split_on, split_char, replace_all, replace};
use crate::storage::lru::{regex_match, regex_is_match};
use crate::config::{Environment, EnvironmentDescription, describes};

verus! {

/// The first component of a request path (the text between the first and
/// the second `/`), or `route` for a path without a `/`.
pub open spec fn path_context(path: Seq<char>) -> Seq<char> {
    if split_on(path, '/').len() > 1 {
        split_on(path, '/')[1]
    } else {
        "route"@
    }
}

/// The component of a request path that its metrics are tagged with.
pub fn contextualize_path(path: &str) -> (r: String)
    ensures
        r@ == path_context(path@),
{
    let pieces = split_char(path, '/');
    if pieces.len() > 1 {
        assert(pieces@[1]@ == split_on(path@, '/')[1]);
        pieces[1].clone()
    } else {
        String::from_str("route")
    }
}

/// The bytes of a commit name as the service keys it: the first seven bytes
/// of a longer name, or the whole name.
pub open spec fn short_name_bytes(b: Seq<u8>) -> Seq<u8> {
    if b.len() >= 7 {
        b.take(7)
    } else {
        b
    }
}

/// The first seven bytes of a commit name, or the whole of a shorter one.
pub fn format_sha(sha: &str) -> (r: &str)
    requires
        encode_utf8(sha@).len() <= usize::MAX,
        encode_utf8(sha@).len() >= 7 ==> is_char_boundary(encode_utf8(sha@), 7),
    ensures
        encode_utf8(r@) == short_name_bytes(encode_utf8(sha@)),
{
    if sha.len() >= 7 {
        let (head, _) = sha.split_at(7);
        assert(encode_utf8(sha@).subrange(0, 7) =~= encode_utf8(sha@).take(7));
        head
    } else {
        sha
    }
}

/// Shortening a commit name twice is shortening it once.
pub proof fn law_format_sha_idempotent(b: Seq<u8>)
    ensures
        short_name_bytes(short_name_bytes(b)) == short_name_bytes(b),
{
    if b.len() >= 7 {
        assert(b.take(7).take(7) =~= b.take(7));
    }
}

/// Whether a revision looks like a commit name rather than a branch name:
/// the pattern `^[a-f0-9]+$` (a non-empty run of lower-case hexadecimal
/// digits) matches it.
pub fn is_hex_sha(s: &str) -> (b: bool)
    ensures
        b == (regex_match("^[a-f0-9]+$"@, s@) == Some(true)),
{
    match regex_is_match("^[a-f0-9]+$", s) {
        Some(m) => m,
        None => false,
    }
}

/// The filter pattern for one environment: every `{}` of `pattern` replaced
/// by the environment's name.
pub fn env_filter_pattern(pattern: &str, env: &str) -> (r: String)
    ensures
        r@ == replace_all(pattern@, "{}"@, env@),
{
    proof {
        reveal_strlit("{}");
    }
    replace(pattern, "{}", env)
}

/// Position of the first environment named `name`.
pub fn find_environment(envs: &Vec<Environment>, name: &str) -> (r: Option<usize>)
    ensures
        r matches Some(i) ==> i < envs@.len() && envs@[i as int].environment@ == name@ && forall|
            j: int,
        |
            0 <= j < i ==> (#[trigger] envs@[j]).environment@ != name@,
        r is None ==> forall|j: int|
            0 <= j < envs@.len() ==> (#[trigger] envs@[j]).environment@ != name@,
{
    let key = name.to_owned();
    let mut i: usize = 0;
    while i < envs.len()
        invariant
            i <= envs@.len(),
            key@ == name@,
            forall|j: int| 0 <= j < i ==> (#[trigger] envs@[j]).environment@ != name@,
        decreases envs@.len() - i,
    {
        if envs[i].environment == key {
            return Some(i);
        }
        i = i + 1;
    }
    None
}

/// Whether `name` is among the names of the environments listed at a commit.
pub fn has_environment(names: &Vec<String>, name: &str) -> (b: bool)
    ensures
        b == exists|j: int| 0 <= j < names@.len() && (#[trigger] names@[j])@ == name@,
{
    let key = name.to_owned();
    let mut i: usize = 0;
    while i < names.len()
        invariant
            i <= names@.len(),
            key@ == name@,
            forall|j: int| 0 <= j < i ==> (#[trigger] names@[j])@ != name@,
        decreases names@.len() - i,
    {
        if names[i] == key {
            return true;
        }
        i = i + 1;
    }
    false
}

/// The listing of the environments, in their order.
pub fn format_envs(envs: &Vec<Environment>) -> (r: Vec<EnvironmentDescription>)
    ensures
        r@.len() == envs@.len(),
        forall|i: int| 0 <= i < envs@.len() ==> describes(#[trigger] r@[i], envs@[i]),
{
    let mut r: Vec<EnvironmentDescription> = Vec::new();
    let mut i: usize = 0;
    while i < envs.len()
        invariant
            i <= envs@.len(),
            r@.len() == i,
            forall|j: int| 0 <= j < i ==> describes(#[trigger] r@[j], envs@[j]),
        decreases envs@.len() - i,
    {
        r.push(EnvironmentDescription::describe(&envs[i]));
        i = i + 1;
    }
    r
}

/// Where a lookup of an environment's configuration stands.
#[derive(Debug, Clone, Copy, PartialEq, Eq, Structural)]
pub enum EnvLookupPhase {
    /// Nothing done yet.
    Start,
    /// The caches were read without the lock.
    FirstRead,
    /// The caches were read again under the lock.
    LockedRead,
    /// The repository is being moved to the commit.
    Refreshing,
    /// The filter for the environment's file is being built.
    BuildingFilter,
    /// The environments are being searched.
    Searching,
    /// The lookup has answered.
    Done,
}

/// What the last step of a lookup reported.
#[derive(Debug, Clone, Copy, PartialEq, Eq, Structural)]
pub enum EnvLookupEvent {
    /// The lookup begins.
    Begin,
    /// A read of the caches found the environment, or not.
    CacheRead { hit: bool },
    /// Moving the repository to the commit succeeded (giving its full name), or not.
    Refreshed { ok: bool },
    /// The pattern for the environment's file is a regular expression, or not.
    FilterBuilt { valid: bool },
    /// An environment with the requested name was among those found, or not.
    Searched { found: bool },
}

/// What a lookup does next.
#[derive(Debug, Clone, Copy, PartialEq, Eq, Structural)]
pub enum EnvLookupAction {
    /// Read the caches.
    ReadCache,
    /// Take the lock and read the caches again.
    LockAndReadCache,
    /// Answer with what the caches hold.
    ReturnCached,
    /// Count a cache miss and move the repository to the commit.
    CountMissAndRefresh,
    /// Build the filter for the environment's configuration file.
    BuildFilter,
    /// Search the environments with the environment's filter, or with the
    /// filter of all environments where the environment's is no regular expression.
    Search { all_environments: bool },
    /// Write the first environment with the name back to the caches under the
    /// commit's full name, and answer with it.
    WriteBackAndReturn,
    /// Answer that the environment is unknown at the commit's full name.
    ReportUnknownEnvironment,
    /// Answer with the failure of the last step.
    Fail,
}

/// The next phase and action of a lookup: a hit of the first read is
/// answered; a miss is read again under the lock, and a hit then is answered;
/// a second miss refreshes the repository, whose failure is the answer;
/// after it, the environment's filter is built (falling back to the filter of
/// all environments), the environments are searched, and the first with the
/// name is written back and answered, or the environment is unknown. An
/// event that does not fit the phase ends the lookup with a failure.
pub open spec fn env_lookup_spec(phase: EnvLookupPhase, event: EnvLookupEvent) -> (
    EnvLookupPhase,
    EnvLookupAction,
) {
    match (phase, event) {
        (EnvLookupPhase::Start, EnvLookupEvent::Begin) => (EnvLookupPhase::FirstRead, EnvLookupAction::ReadCache),
        (EnvLookupPhase::FirstRead, EnvLookupEvent::CacheRead { hit }) => if hit {
            (EnvLookupPhase::Done, EnvLookupAction::ReturnCached)
        } else {
            (EnvLookupPhase::LockedRead, EnvLookupAction::LockAndReadCache)
        },
        (EnvLookupPhase::LockedRead, EnvLookupEvent::CacheRead { hit }) => if hit {
            (EnvLookupPhase::Done, EnvLookupAction::ReturnCached)
        } else {
            (EnvLookupPhase::Refreshing, EnvLookupAction::CountMissAndRefresh)
        },
        (EnvLookupPhase::Refreshing, EnvLookupEvent::Refreshed { ok }) => if ok {
            (EnvLookupPhase::BuildingFilter, EnvLookupAction::BuildFilter)
        } else {
            (EnvLookupPhase::Done, EnvLookupAction::Fail)
        },
        (EnvLookupPhase::BuildingFilter, EnvLookupEvent::FilterBuilt { valid }) => (
            EnvLookupPhase::Searching,
            EnvLookupAction::Search { all_environments: !valid },
        ),
        (EnvLookupPhase::Searching, EnvLookupEvent::Searched { found }) => if found {
            (EnvLookupPhase::Done, EnvLookupAction::WriteBackAndReturn)
        } else {
            (EnvLookupPhase::Done, EnvLookupAction::ReportUnknownEnvironment)
        },
        _ => (EnvLookupPhase::Done, EnvLookupAction::Fail),
    }
}

/// Decides the next step of a lookup of an environment's configuration.
pub fn env_lookup_step(phase: EnvLookupPhase, event: EnvLookupEvent) -> (r: (
    EnvLookupPhase,
    EnvLookupAction,
))
    ensures
        r == env_lookup_spec(phase, event),
{
    match (phase, event) {
        (EnvLookupPhase::Start, EnvLookupEvent::Begin) => (EnvLookupPhase::FirstRead, EnvLookupAction::ReadCache),
        (EnvLookupPhase::FirstRead, EnvLookupEvent::CacheRead { hit }) => if hit {
            (EnvLookupPhase::Done, EnvLookupAction::ReturnCached)
        } else {
            (EnvLookupPhase::LockedRead, EnvLookupAction::LockAndReadCache)
        },
        (EnvLookupPhase::LockedRead, EnvLookupEvent::CacheRead { hit }) => if hit {
            (EnvLookupPhase::Done, EnvLookupAction::ReturnCached)
        } else {
            (EnvLookupPhase::Refreshing, EnvLookupAction::CountMissAndRefresh)
        },
        (EnvLookupPhase::Refreshing, EnvLookupEvent::Refreshed { ok }) => if ok {
            (EnvLookupPhase::BuildingFilter, EnvLookupAction::BuildFilter)
        } else {
            (EnvLookupPhase::Done, EnvLookupAction::Fail)
        },
        (EnvLookupPhase::BuildingFilter, EnvLookupEvent::FilterBuilt { valid }) => (
            EnvLookupPhase::Searching,
            EnvLookupAction::Search { all_environments: !valid },
        ),
        (EnvLookupPhase::Searching, EnvLookupEvent::Searched { found }) => if found {
            (EnvLookupPhase::Done, EnvLookupAction::WriteBackAndReturn)
        } else {
            (EnvLookupPhase::Done, EnvLookupAction::ReportUnknownEnvironment)
        },
        _ => (EnvLookupPhase::Done, EnvLookupAction::Fail),
    }
}

/// A lookup whose caches miss twice refreshes the repository exactly then,
/// and only a lookup that refreshed reaches the search; a hit on either read
/// answers at once without touching the repository.
pub proof fn law_env_lookup_refreshes_only_after_two_misses(hit_first: bool, hit_locked: bool)
    ensures
        hit_first ==> env_lookup_spec(EnvLookupPhase::FirstRead, EnvLookupEvent::CacheRead { hit: hit_first })
            == (EnvLookupPhase::Done, EnvLookupAction::ReturnCached),
        !hit_first ==> env_lookup_spec(EnvLookupPhase::FirstRead, EnvLookupEvent::CacheRead { hit: hit_first }).1
            == EnvLookupAction::LockAndReadCache,
        env_lookup_spec(EnvLookupPhase::LockedRead, EnvLookupEvent::CacheRead { hit: hit_locked }).1
            == (if hit_locked { EnvLookupAction::ReturnCached } else { EnvLookupAction::CountMissAndRefresh }),
        forall|p: EnvLookupPhase, e: EnvLookupEvent|
            #![trigger env_lookup_spec(p, e)]
            env_lookup_spec(p, e).0 == EnvLookupPhase::Searching ==> p == EnvLookupPhase::BuildingFilter,
        forall|p: EnvLookupPhase, e: EnvLookupEvent|
            #![trigger env_lookup_spec(p, e)]
            env_lookup_spec(p, e).0 == EnvLookupPhase::BuildingFilter ==> p == EnvLookupPhase::Refreshing
                && e == (EnvLookupEvent::Refreshed { ok: true }),
{
}

} // verus!
