//! The in-memory cache: the keys it stores environments under, and how a
//! lookup finds the entry of an environment at a (possibly abbreviated) SHA.

use vstd::prelude::*;
use std::sync::Arc;
use std::collections::hash_map::RandomState;
use super::{pair_key, join_key, CacheError};
use crate::assoc::{keys_unique, key_index, lemma_key_index};
use crate::config::{Environment, EnvironmentDescription};

verus! {

/// Whether the regular expression `pattern` matches `text` (`None` where the
/// pattern is not a regular expression), as the `regex` crate decides.
pub uninterp spec fn regex_match(pattern: Seq<char>, text: Seq<char>) -> Option<bool>;

/// A character that stands for itself in a regular expression: an ASCII
/// letter or digit, `_`, `-` or `:`.
pub open spec fn literal_char(c: char) -> bool {
    ('a' <= c && c <= 'z') || ('A' <= c && c <= 'Z') || ('0' <= c && c <= '9') || c == '_' || c
        == '-' || c == ':'
}

/// Every character of the text stands for itself in a regular expression.
pub open spec fn literal_text(s: Seq<char>) -> bool {
    forall|i: int| 0 <= i < s.len() ==> literal_char(#[trigger] s[i])
}

/// The pattern `^a.*b$`.
pub open spec fn wildcard_pattern(a: Seq<char>, b: Seq<char>) -> Seq<char> {
    "^"@ + a + ".*"@ + b + "$"@
}

/// `pattern` is `^a.*b$` for texts `a` and `b` (of at most 256 characters in
/// all) whose characters stand for themselves, and `text` starts with `a`,
/// ends with `b`, and holds no line break between them.
pub open spec fn wildcard_match(pattern: Seq<char>, text: Seq<char>) -> bool {
    exists|a: Seq<char>, b: Seq<char>|
        #![trigger wildcard_pattern(a, b)]
        literal_text(a) && literal_text(b) && a.len() + b.len() <= 256 && pattern == wildcard_pattern(
            a,
            b,
        ) && text.len() >= a.len() + b.len() && text.take(a.len() as int) == a && text.skip(
            text.len() - b.len(),
        ) == b && !text.subrange(a.len() as int, text.len() - b.len()).contains('\n')
}

/// Compiles `pattern` with `regex::Regex::new` and tests `text` with
/// `Regex::is_match`; `None` where the pattern does not compile. The outcome
/// is a function of the two texts. As the `regex` documentation gives it, `^`
/// and `$` (without the multi-line flag) match only at the start and the end
/// of the text, `.` matches any character but a line break, and ASCII letters,
/// digits, `_`, `-` and `:` match themselves; so a short pattern `^a.*b$` of
/// such characters compiles and matches every text made of `a`, characters
/// other than a line break, and `b`.
#[verifier::external_body]
pub(crate) fn regex_is_match(pattern: &str, text: &str) -> (r: Option<bool>)
    ensures
        r == regex_match(pattern@, text@),
        wildcard_match(pattern@, text@) ==> r == Some(true),
{
    match regex::Regex::new(pattern) {
        Ok(re) => Some(re.is_match(text)),
        Err(_) => None,
    }
}

/// The key of an environment at a SHA: `sha::env`.
pub fn gen_env_key(env: &str, sha: &str) -> (k: String)
    ensures
        k@ == pair_key(sha@, env@),
{
    join_key(sha, env)
}

/// The pattern of the keys of an environment at SHAs that start with `sha`: `^sha.*::env$`.
pub open spec fn env_pattern(env: Seq<char>, sha: Seq<char>) -> Seq<char> {
    "^"@ + sha + ".*::"@ + env + "$"@
}

/// The pattern of the keys of an environment at SHAs that start with `sha`.
pub fn gen_env_regex(env: &str, sha: &str) -> (p: String)
    ensures
        p@ == env_pattern(env@, sha@),
{
    let mut p = String::from_str("^");
    p.append(sha);
    p.append(".*::");
    p.append(env);
    p.append("$");
    p
}

/// The key of the environment listing at a SHA: the SHA itself.
pub fn gen_env_listing_key(sha: &str) -> (k: String)
    ensures
        k@ == sha@,
{
    sha.to_owned()
}

/// The pattern of the listing keys at SHAs that start with `sha`: `^sha.*$`.
pub open spec fn listing_pattern(sha: Seq<char>) -> Seq<char> {
    "^"@ + sha + ".*$"@
}

/// The pattern of the listing keys at SHAs that start with `sha`.
pub fn gen_env_listing_regex(sha: &str) -> (p: String)
    ensures
        p@ == listing_pattern(sha@),
{
    let mut p = String::from_str("^");
    p.append(sha);
    p.append(".*$");
    p
}

/// How a lookup of keys by pattern ends.
#[derive(Debug, PartialEq, Eq)]
pub enum KeySearch {
    /// The first key that matches.
    Found(usize),
    /// No key matches.
    NotFound,
    /// The pattern is not a regular expression.
    InvalidPattern,
}

/// `keys[i]` is the first key that `pattern` matches.
pub open spec fn first_match_at(keys: Seq<Seq<char>>, pattern: Seq<char>, i: int) -> bool {
    &&& 0 <= i < keys.len()
    &&& regex_match(pattern, keys[i]) == Some(true)
    &&& forall|j: int| 0 <= j < i ==> regex_match(pattern, #[trigger] keys[j]) == Some(false)
}

/// `pattern` matches none of `keys`.
pub open spec fn no_match(keys: Seq<Seq<char>>, pattern: Seq<char>) -> bool {
    forall|j: int| 0 <= j < keys.len() ==> regex_match(pattern, #[trigger] keys[j]) == Some(false)
}

/// Testing the keys in order, the one at `i` is the first that `pattern`
/// cannot be tested on (it is not a regular expression).
pub open spec fn invalid_at(keys: Seq<Seq<char>>, pattern: Seq<char>, i: int) -> bool {
    &&& 0 <= i < keys.len()
    &&& regex_match(pattern, keys[i]) is None
    &&& forall|j: int| 0 <= j < i ==> regex_match(pattern, #[trigger] keys[j]) == Some(false)
}

/// The texts of `keys`.
pub open spec fn key_texts(keys: Seq<String>) -> Seq<Seq<char>> {
    keys.map_values(|k: String| k@)
}

/// The position of the first key that `pattern` matches, in the order the
/// cache lists its keys.
pub fn find_matching_key(keys: &Vec<String>, pattern: &str) -> (r: KeySearch)
    ensures
        forall|i: int| first_match_at(key_texts(keys@), pattern@, i) ==> r == KeySearch::Found(i as usize),
        no_match(key_texts(keys@), pattern@) ==> r is NotFound,
        forall|i: int| invalid_at(key_texts(keys@), pattern@, i) ==> r is InvalidPattern,
        r matches KeySearch::Found(i) ==> first_match_at(key_texts(keys@), pattern@, i as int),
        r is NotFound ==> no_match(key_texts(keys@), pattern@),
        r is InvalidPattern ==> exists|i: int| invalid_at(key_texts(keys@), pattern@, i),
        forall|i: int|
            0 <= i < keys@.len() && wildcard_match(pattern@, keys@[i]@) && (forall|j: int|
                0 <= j < i ==> regex_match(pattern@, #[trigger] key_texts(keys@)[j]) == Some(false))
                ==> r == KeySearch::Found(i as usize),
{
    let ghost texts = key_texts(keys@);
    let mut i: usize = 0;
    while i < keys.len()
        invariant
            i <= keys@.len(),
            texts == key_texts(keys@),
            forall|j: int| 0 <= j < i ==> regex_match(pattern@, #[trigger] texts[j]) == Some(false),
            forall|k: int| 0 <= k < i ==> !wildcard_match(pattern@, #[trigger] keys@[k]@),
        decreases keys@.len() - i,
    {
        match regex_is_match(pattern, keys[i].as_str()) {
            Some(true) => {
                assert(first_match_at(texts, pattern@, i as int));
                proof { lemma_first_match_unique(texts, pattern@, i as int); }
                return KeySearch::Found(i);
            },
            Some(false) => {},
            None => {
                assert(invalid_at(texts, pattern@, i as int));
                proof { lemma_invalid_excludes(texts, pattern@, i as int); }
                return KeySearch::InvalidPattern;
            },
        }
        i = i + 1;
    }
    proof { lemma_no_match_excludes(texts, pattern@); }
    KeySearch::NotFound
}

proof fn lemma_first_match_unique(keys: Seq<Seq<char>>, pattern: Seq<char>, i: int)
    requires
        first_match_at(keys, pattern, i),
    ensures
        forall|j: int| first_match_at(keys, pattern, j) ==> j == i,
        forall|j: int| !invalid_at(keys, pattern, j),
        !no_match(keys, pattern),
{
    assert forall|j: int| first_match_at(keys, pattern, j) implies j == i by {
        if j < i {
            assert(regex_match(pattern, keys[j]) == Some(false));
        } else if i < j {
            assert(regex_match(pattern, keys[i]) == Some(false));
        }
    }
    assert forall|j: int| !invalid_at(keys, pattern, j) by {
        if invalid_at(keys, pattern, j) {
            if j < i {
                assert(regex_match(pattern, keys[j]) == Some(false));
            } else if i < j {
                assert(regex_match(pattern, keys[i]) == Some(false));
            }
        }
    }
    assert(regex_match(pattern, keys[i]) == Some(true));
}

proof fn lemma_invalid_excludes(keys: Seq<Seq<char>>, pattern: Seq<char>, i: int)
    requires
        invalid_at(keys, pattern, i),
    ensures
        forall|j: int| !first_match_at(keys, pattern, j),
        !no_match(keys, pattern),
{
    assert forall|j: int| !first_match_at(keys, pattern, j) by {
        if first_match_at(keys, pattern, j) {
            if j < i {
                assert(regex_match(pattern, keys[j]) == Some(false));
            } else if i < j {
                assert(regex_match(pattern, keys[i]) == Some(false));
            }
        }
    }
    assert(regex_match(pattern, keys[i]) is None);
}

proof fn lemma_no_match_excludes(keys: Seq<Seq<char>>, pattern: Seq<char>)
    requires
        no_match(keys, pattern),
    ensures
        forall|j: int| !first_match_at(keys, pattern, j),
        forall|j: int| !invalid_at(keys, pattern, j),
{
    assert forall|j: int| !first_match_at(keys, pattern, j) by {
        if 0 <= j < keys.len() {
            assert(regex_match(pattern, keys[j]) == Some(false));
        }
    }
    assert forall|j: int| !invalid_at(keys, pattern, j) by {
        if 0 <= j < keys.len() {
            assert(regex_match(pattern, keys[j]) == Some(false));
        }
    }
}

#[verifier::external_type_specification]
#[verifier::external_body]
#[verifier::reject_recursive_types(K)]
#[verifier::reject_recursive_types(V)]
#[verifier::reject_recursive_types(S)]
pub struct ExLruCache<K, V, S>(lru::LruCache<K, V, S>);

/// The entries of an `lru::LruCache` of environments, most recently used first.
pub uninterp spec fn env_lru_entries(cache: lru::LruCache<String, Arc<Environment>, RandomState>) -> Seq<(Seq<char>, Arc<Environment>)>;

/// The capacity an `lru::LruCache` of environments was made with.
pub uninterp spec fn env_lru_capacity(cache: lru::LruCache<String, Arc<Environment>, RandomState>) -> nat;

/// The entries of an `lru::LruCache` of environment listings, most recently used first.
pub uninterp spec fn listing_lru_entries(cache: lru::LruCache<String, Arc<Vec<EnvironmentDescription>>, RandomState>) -> Seq<(Seq<char>, Arc<Vec<EnvironmentDescription>>)>;

/// The capacity an `lru::LruCache` of environment listings was made with.
pub uninterp spec fn listing_lru_capacity(cache: lru::LruCache<String, Arc<Vec<EnvironmentDescription>>, RandomState>) -> nat;

/// The keys of entries, in order.
pub open spec fn entry_keys<V>(entries: Seq<(Seq<char>, V)>) -> Seq<Seq<char>> {
    entries.map_values(|e: (Seq<char>, V)| e.0)
}

/// What a least-recently-used store of capacity `cap` always satisfies:
/// no key twice, at most `cap` entries.
pub open spec fn lru_wf<V>(entries: Seq<(Seq<char>, V)>, cap: nat) -> bool {
    keys_unique(entries) && 0 < cap && entries.len() <= cap
}

/// The entries after storing `value` under `key`: the pair comes first; an
/// entry with the same key goes, and otherwise, in a full store, the least
/// recently used entry (the last) goes.
pub open spec fn lru_put<V>(entries: Seq<(Seq<char>, V)>, key: Seq<char>, value: V, cap: nat) -> Seq<(Seq<char>, V)> {
    match key_index(entries, key) {
        Some(i) => seq![(key, value)] + entries.remove(i),
        None => if entries.len() >= cap {
            seq![(key, value)] + entries.drop_last()
        } else {
            seq![(key, value)] + entries
        },
    }
}

/// The entries after a lookup of the entry at `i`: it becomes the most recently used.
pub open spec fn lru_touch<V>(entries: Seq<(Seq<char>, V)>, i: int) -> Seq<(Seq<char>, V)> {
    seq![entries[i]] + entries.remove(i)
}

/// `lru::LruCache::with_hasher` with capacity `cap` and std's `RandomState`:
/// an empty cache.
#[verifier::external_body]
fn new_env_lru(cap: usize) -> (c: lru::LruCache<String, Arc<Environment>, RandomState>)
    requires
        cap > 0,
    ensures
        env_lru_entries(c) == Seq::<(Seq<char>, Arc<Environment>)>::empty(),
        env_lru_capacity(c) == cap,
{
    lru::LruCache::with_hasher(std::num::NonZeroUsize::new(cap).unwrap(), RandomState::new())
}

/// `lru::LruCache::put`: the pair becomes the most recently used entry,
/// replacing the entry of the same key or, in a full cache, the least
/// recently used one.
#[verifier::external_body]
fn env_lru_put(c: &mut lru::LruCache<String, Arc<Environment>, RandomState>, key: String, value: Arc<Environment>)
    ensures
        env_lru_entries(*final(c)) == lru_put(env_lru_entries(*old(c)), key@, value, env_lru_capacity(*old(c))),
        env_lru_capacity(*final(c)) == env_lru_capacity(*old(c)),
{
    c.put(key, value);
}

/// `lru::LruCache::get`: the value under `key`, which becomes the most
/// recently used entry; `None` and no change where there is none.
#[verifier::external_body]
fn env_lru_get(c: &mut lru::LruCache<String, Arc<Environment>, RandomState>, key: &str) -> (r: Option<Arc<Environment>>)
    ensures
        env_lru_capacity(*final(c)) == env_lru_capacity(*old(c)),
        match key_index(env_lru_entries(*old(c)), key@) {
            Some(i) => r == Some(env_lru_entries(*old(c))[i].1)
                && env_lru_entries(*final(c)) == lru_touch(env_lru_entries(*old(c)), i),
            None => r is None && env_lru_entries(*final(c)) == env_lru_entries(*old(c)),
        },
{
    c.get(key).cloned()
}

/// The keys of `lru::LruCache::iter`, most recently used first.
#[verifier::external_body]
fn env_lru_keys(c: &lru::LruCache<String, Arc<Environment>, RandomState>) -> (keys: Vec<String>)
    ensures
        key_texts(keys@) == entry_keys(env_lru_entries(*c)),
{
    c.iter().map(|(k, _)| k.clone()).collect()
}

/// `lru::LruCache::with_hasher` with capacity `cap` and std's `RandomState`:
/// an empty cache.
#[verifier::external_body]
fn new_listing_lru(cap: usize) -> (c: lru::LruCache<String, Arc<Vec<EnvironmentDescription>>, RandomState>)
    requires
        cap > 0,
    ensures
        listing_lru_entries(c) == Seq::<(Seq<char>, Arc<Vec<EnvironmentDescription>>)>::empty(),
        listing_lru_capacity(c) == cap,
{
    lru::LruCache::with_hasher(std::num::NonZeroUsize::new(cap).unwrap(), RandomState::new())
}

/// `lru::LruCache::put`, as for environments.
#[verifier::external_body]
fn listing_lru_put(c: &mut lru::LruCache<String, Arc<Vec<EnvironmentDescription>>, RandomState>, key: String, value: Arc<Vec<EnvironmentDescription>>)
    ensures
        listing_lru_entries(*final(c)) == lru_put(listing_lru_entries(*old(c)), key@, value, listing_lru_capacity(*old(c))),
        listing_lru_capacity(*final(c)) == listing_lru_capacity(*old(c)),
{
    c.put(key, value);
}

/// `lru::LruCache::get`, as for environments.
#[verifier::external_body]
fn listing_lru_get(c: &mut lru::LruCache<String, Arc<Vec<EnvironmentDescription>>, RandomState>, key: &str) -> (r: Option<Arc<Vec<EnvironmentDescription>>>)
    ensures
        listing_lru_capacity(*final(c)) == listing_lru_capacity(*old(c)),
        match key_index(listing_lru_entries(*old(c)), key@) {
            Some(i) => r == Some(listing_lru_entries(*old(c))[i].1)
                && listing_lru_entries(*final(c)) == lru_touch(listing_lru_entries(*old(c)), i),
            None => r is None && listing_lru_entries(*final(c)) == listing_lru_entries(*old(c)),
        },
{
    c.get(key).cloned()
}

/// The keys of `lru::LruCache::iter`, most recently used first.
#[verifier::external_body]
fn listing_lru_keys(c: &lru::LruCache<String, Arc<Vec<EnvironmentDescription>>, RandomState>) -> (keys: Vec<String>)
    ensures
        key_texts(keys@) == entry_keys(listing_lru_entries(*c)),
{
    c.iter().map(|(k, _)| k.clone()).collect()
}

proof fn lemma_entry_key<V>(entries: Seq<(Seq<char>, V)>, i: int)
    requires
        keys_unique(entries),
        0 <= i < entries.len(),
    ensures
        entry_keys(entries)[i] == entries[i].0,
        entry_keys(entries).len() == entries.len(),
        key_index(entries, entries[i].0) == Some(i),
{
    lemma_key_index(entries, entries[i].0);
}

proof fn lemma_lru_touch_wf<V>(entries: Seq<(Seq<char>, V)>, cap: nat, i: int)
    requires
        lru_wf(entries, cap),
        0 <= i < entries.len(),
    ensures
        lru_wf(lru_touch(entries, i), cap),
        lru_touch(entries, i).len() == entries.len(),
{
    let t = lru_touch(entries, i);
    assert forall|a: int, b: int| 0 <= a < b < t.len() implies t[a].0 != t[b].0 by {
        let ia = if a == 0 { i } else if a - 1 < i { a - 1 } else { a };
        let ib = if b - 1 < i { b - 1 } else { b };
        assert(t[a] == entries[ia]);
        assert(t[b] == entries[ib]);
    }
}

proof fn lemma_lru_put_wf<V>(entries: Seq<(Seq<char>, V)>, cap: nat, key: Seq<char>, value: V)
    requires
        lru_wf(entries, cap),
    ensures
        lru_wf(lru_put(entries, key, value, cap), cap),
        lru_put(entries, key, value, cap)[0] == (key, value),
{
    lemma_key_index(entries, key);
    let t = lru_put(entries, key, value, cap);
    match key_index(entries, key) {
        Some(i) => {
            assert forall|a: int, b: int| 0 <= a < b < t.len() implies t[a].0 != t[b].0 by {
                let ib = if b - 1 < i { b - 1 } else { b };
                assert(t[b] == entries[ib]);
                if a > 0 {
                    let ia = if a - 1 < i { a - 1 } else { a };
                    assert(t[a] == entries[ia]);
                } else {
                    assert(entries[i].0 == key);
                }
            }
        },
        None => {
            assert forall|a: int, b: int| 0 <= a < b < t.len() implies t[a].0 != t[b].0 by {
                assert(t[b] == entries[b - 1]);
                if a > 0 {
                    assert(t[a] == entries[a - 1]);
                } else {
                    assert(entries[b - 1].0 != key);
                }
            }
        },
    }
}

/// What a lookup by `pattern` gives and does: the value of the first key
/// (most recently used first) that the pattern matches, which becomes the
/// most recently used entry; nothing where no key matches; an error where the
/// pattern is not a regular expression.
pub open spec fn lookup_outcome<V>(
    before: Seq<(Seq<char>, V)>,
    after: Seq<(Seq<char>, V)>,
    pattern: Seq<char>,
    r: Result<Option<V>, CacheError>,
) -> bool {
    let keys = entry_keys(before);
    &&& forall|i: int| first_match_at(keys, pattern, i) ==> (r matches Ok(Some(v)) && v == before[i].1
        && after == lru_touch(before, i))
    &&& no_match(keys, pattern) ==> (r matches Ok(None) && after == before)
    &&& forall|i: int| invalid_at(keys, pattern, i) ==> r is Err && after == before
}

/// Storing a value and then looking it up with a pattern that its key
/// matches finds that value, and the store keeps its capacity bound and
/// holds each key once.
pub proof fn law_lru_read_after_write<V>(
    entries: Seq<(Seq<char>, V)>,
    cap: nat,
    key: Seq<char>,
    value: V,
    pattern: Seq<char>,
)
    requires
        lru_wf(entries, cap),
        regex_match(pattern, key) == Some(true),
    ensures
        lru_wf(lru_put(entries, key, value, cap), cap),
        first_match_at(entry_keys(lru_put(entries, key, value, cap)), pattern, 0),
        lru_put(entries, key, value, cap)[0].1 == value,
        lru_touch(lru_put(entries, key, value, cap), 0) == lru_put(entries, key, value, cap),
{
    lemma_lru_put_wf(entries, cap, key, value);
    let t = lru_put(entries, key, value, cap);
    lemma_entry_key(t, 0);
    assert(lru_touch(t, 0) =~= t);
}

/// The stored key of an environment at a SHA matches the lookup pattern of
/// the environment at any prefix of that SHA, where the names are made of
/// characters that stand for themselves. With the `ensures` of
/// `EnvLru::read_env`, a lookup by the prefix answers with the stored entry
/// wherever no entry used more recently matches the pattern.
pub proof fn law_stored_key_matches_prefix_lookup(env: Seq<char>, sha: Seq<char>, prefix: Seq<char>)
    requires
        literal_text(env),
        literal_text(sha),
        prefix.len() <= sha.len(),
        sha.take(prefix.len() as int) == prefix,
        prefix.len() + env.len() + 2 <= 256,
    ensures
        wildcard_match(env_pattern(env, prefix), pair_key(sha, env)),
{
    reveal_strlit("^");
    reveal_strlit(".*");
    reveal_strlit(".*::");
    reveal_strlit("::");
    reveal_strlit("$");
    let a = prefix;
    let b = "::"@ + env;
    let text = pair_key(sha, env);
    assert(env_pattern(env, prefix) =~= wildcard_pattern(a, b));
    assert forall|i: int| 0 <= i < a.len() implies literal_char(#[trigger] a[i]) by {
        assert(a[i] == sha[i]);
    }
    assert forall|i: int| 0 <= i < b.len() implies literal_char(#[trigger] b[i]) by {
        if i >= 2 {
            assert(b[i] == env[i - 2]);
        }
    }
    assert(text.take(a.len() as int) =~= a);
    assert(text.skip(text.len() - b.len()) =~= b);
    let mid = text.subrange(a.len() as int, text.len() - b.len());
    assert forall|i: int| 0 <= i < mid.len() implies mid[i] != '\n' by {
        assert(mid[i] == sha[a.len() + i]);
        assert(literal_char(sha[a.len() + i]));
    }
    assert(!mid.contains('\n'));
}

/// The stored listing key at a SHA matches the listing lookup pattern at any
/// prefix of that SHA, where the SHA is made of characters that stand for
/// themselves.
pub proof fn law_stored_listing_key_matches_prefix_lookup(sha: Seq<char>, prefix: Seq<char>)
    requires
        literal_text(sha),
        prefix.len() <= sha.len(),
        sha.take(prefix.len() as int) == prefix,
        prefix.len() <= 256,
    ensures
        wildcard_match(listing_pattern(prefix), sha),
{
    reveal_strlit("^");
    reveal_strlit(".*");
    reveal_strlit(".*$");
    reveal_strlit("$");
    let a = prefix;
    let b = Seq::<char>::empty();
    assert(listing_pattern(prefix) =~= wildcard_pattern(a, b));
    assert forall|i: int| 0 <= i < a.len() implies literal_char(#[trigger] a[i]) by {
        assert(a[i] == sha[i]);
    }
    assert(sha.take(a.len() as int) =~= a);
    assert(sha.skip(sha.len() - b.len()) =~= b);
    let mid = sha.subrange(a.len() as int, sha.len() - b.len());
    assert forall|i: int| 0 <= i < mid.len() implies mid[i] != '\n' by {
        assert(mid[i] == sha[a.len() + i]);
        assert(literal_char(sha[a.len() + i]));
    }
    assert(!mid.contains('\n'));
}

/// After an environment is stored under a SHA, it is the most recently used
/// entry and its key matches the lookup pattern of the environment at any
/// prefix of the SHA (names made of characters that stand for themselves), so
/// a lookup by that prefix answers with it and leaves the store as it is.
pub proof fn law_lru_short_sha_finds_latest_write<V>(
    entries: Seq<(Seq<char>, V)>,
    cap: nat,
    env: Seq<char>,
    sha: Seq<char>,
    prefix: Seq<char>,
    value: V,
)
    requires
        lru_wf(entries, cap),
        literal_text(env),
        literal_text(sha),
        prefix.len() <= sha.len(),
        sha.take(prefix.len() as int) == prefix,
        prefix.len() + env.len() + 2 <= 256,
    ensures
        lru_wf(lru_put(entries, pair_key(sha, env), value, cap), cap),
        lru_put(entries, pair_key(sha, env), value, cap).len() > 0,
        lru_put(entries, pair_key(sha, env), value, cap)[0] == (pair_key(sha, env), value),
        wildcard_match(env_pattern(env, prefix), lru_put(entries, pair_key(sha, env), value, cap)[0].0),
{
    lemma_lru_put_wf(entries, cap, pair_key(sha, env), value);
    law_stored_key_matches_prefix_lookup(env, sha, prefix);
}

/// After a listing is stored under a SHA, a lookup by any prefix of the SHA
/// (made of characters that stand for themselves) answers with it.
pub proof fn law_lru_short_sha_finds_latest_listing<V>(
    entries: Seq<(Seq<char>, V)>,
    cap: nat,
    sha: Seq<char>,
    prefix: Seq<char>,
    value: V,
)
    requires
        lru_wf(entries, cap),
        literal_text(sha),
        prefix.len() <= sha.len(),
        sha.take(prefix.len() as int) == prefix,
        prefix.len() <= 256,
    ensures
        lru_wf(lru_put(entries, sha, value, cap), cap),
        lru_put(entries, sha, value, cap).len() > 0,
        lru_put(entries, sha, value, cap)[0] == (sha, value),
        wildcard_match(listing_pattern(prefix), lru_put(entries, sha, value, cap)[0].0),
{
    lemma_lru_put_wf(entries, cap, sha, value);
    law_stored_listing_key_matches_prefix_lookup(sha, prefix);
}

/// The environments held in memory, most recently used first.
pub struct EnvLru {
    cache: lru::LruCache<String, Arc<Environment>, RandomState>,
}

impl EnvLru {
    /// The stored entries, most recently used first.
    pub closed spec fn entries(&self) -> Seq<(Seq<char>, Arc<Environment>)> {
        env_lru_entries(self.cache)
    }

    /// How many entries the store keeps at most.
    pub closed spec fn capacity(&self) -> nat {
        env_lru_capacity(self.cache)
    }

    pub open spec fn wf(&self) -> bool {
        lru_wf(self.entries(), self.capacity())
    }

    /// A store for `cache_size` environments; an error where the size is 0.
    pub fn new(cache_size: usize) -> (r: Result<EnvLru, CacheError>)
        ensures
            match r {
                Ok(s) => cache_size > 0 && s.wf() && s.entries().len() == 0 && s.capacity() == cache_size,
                Err(e) => cache_size == 0 && e.message@ == "Cache size must be positive. Passed 0"@,
            },
    {
        if cache_size == 0 {
            return Err(CacheError { message: String::from_str("Cache size must be positive. Passed 0") });
        }
        Ok(EnvLru { cache: new_env_lru(cache_size) })
    }

    /// The environment `env` at the first stored SHA (most recently used
    /// first) that starts with `sha`.
    pub fn read_env(&mut self, env: &str, sha: &str) -> (r: Result<Option<Arc<Environment>>, CacheError>)
        requires
            old(self).wf(),
        ensures
            final(self).wf(),
            final(self).capacity() == old(self).capacity(),
            lookup_outcome(old(self).entries(), final(self).entries(), env_pattern(env@, sha@), r),
            forall|i: int|
                0 <= i < old(self).entries().len() && wildcard_match(env_pattern(env@, sha@), old(self).entries()[i].0)
                    && (forall|j: int|
                    0 <= j < i ==> regex_match(env_pattern(env@, sha@), #[trigger] entry_keys(old(self).entries())[j])
                        == Some(false)) ==> (r matches Ok(Some(v)) && v == old(self).entries()[i].1
                    && final(self).entries() == lru_touch(old(self).entries(), i)),
    {
        let pattern = gen_env_regex(env, sha);
        let keys = env_lru_keys(&self.cache);
        let ghost before = self.entries();
        proof {
            assert forall|i: int| 0 <= i < before.len() implies keys@[i]@ == before[i].0
                && key_texts(keys@)[i] == entry_keys(before)[i] by {
                lemma_entry_key(before, i);
                assert(keys@[i]@ == key_texts(keys@)[i]);
            }
        }
        let found = find_matching_key(&keys, pattern.as_str());
        proof {
            assert forall|i: int|
                0 <= i < before.len() && wildcard_match(env_pattern(env@, sha@), before[i].0) && (forall|j: int|
                    0 <= j < i ==> regex_match(env_pattern(env@, sha@), #[trigger] entry_keys(before)[j])
                        == Some(false)) implies found == KeySearch::Found(i as usize) by {
                lemma_entry_key(before, i);
                assert(keys@[i]@ == key_texts(keys@)[i]);
                assert(keys@[i]@ == before[i].0);
                assert forall|j: int| 0 <= j < i implies regex_match(pattern@, #[trigger] key_texts(keys@)[j])
                    == Some(false) by {
                    assert(key_texts(keys@)[j] == entry_keys(before)[j]);
                }
            }
        }
        match found {
            KeySearch::Found(i) => {
                proof {
                    lemma_entry_key(before, i as int);
                    lemma_lru_touch_wf(before, self.capacity(), i as int);
                    assert(keys@[i as int]@ == key_texts(keys@)[i as int]);
                    lemma_first_match_unique(entry_keys(before), pattern@, i as int);
                }
                let found = env_lru_get(&mut self.cache, keys[i].as_str());
                Ok(found)
            },
            KeySearch::NotFound => {
                proof { lemma_no_match_excludes(entry_keys(before), pattern@); }
                Ok(None)
            },
            KeySearch::InvalidPattern => {
                proof {
                    let j = choose|j: int| invalid_at(key_texts(keys@), pattern@, j);
                    lemma_invalid_excludes(entry_keys(before), pattern@, j);
                }
                Err(CacheError { message: String::from_str("The cache key pattern is not a regular expression") })
            },
        }
    }

    /// Stores `data` as the environment `env` at `sha`.
    pub fn write_env(&mut self, env: &str, sha: &str, data: Arc<Environment>)
        requires
            old(self).wf(),
        ensures
            final(self).wf(),
            final(self).capacity() == old(self).capacity(),
            final(self).entries() == lru_put(old(self).entries(), pair_key(sha@, env@), data, old(self).capacity()),
    {
        let key = gen_env_key(env, sha);
        proof { lemma_lru_put_wf(self.entries(), self.capacity(), key@, data); }
        env_lru_put(&mut self.cache, key, data);
    }
}

/// The environment listings held in memory, most recently used first.
pub struct ListingLru {
    cache: lru::LruCache<String, Arc<Vec<EnvironmentDescription>>, RandomState>,
}

impl ListingLru {
    /// The stored entries, most recently used first.
    pub closed spec fn entries(&self) -> Seq<(Seq<char>, Arc<Vec<EnvironmentDescription>>)> {
        listing_lru_entries(self.cache)
    }

    /// How many entries the store keeps at most.
    pub closed spec fn capacity(&self) -> nat {
        listing_lru_capacity(self.cache)
    }

    pub open spec fn wf(&self) -> bool {
        lru_wf(self.entries(), self.capacity())
    }

    /// A store for `cache_size` listings; an error where the size is 0.
    pub fn new(cache_size: usize) -> (r: Result<ListingLru, CacheError>)
        ensures
            match r {
                Ok(s) => cache_size > 0 && s.wf() && s.entries().len() == 0 && s.capacity() == cache_size,
                Err(e) => cache_size == 0 && e.message@ == "Cache size must be positive. Passed 0"@,
            },
    {
        if cache_size == 0 {
            return Err(CacheError { message: String::from_str("Cache size must be positive. Passed 0") });
        }
        Ok(ListingLru { cache: new_listing_lru(cache_size) })
    }

    /// The listing at the first stored SHA (most recently used first) that
    /// starts with `sha`.
    pub fn read_env_listing(&mut self, sha: &str) -> (r: Result<Option<Arc<Vec<EnvironmentDescription>>>, CacheError>)
        requires
            old(self).wf(),
        ensures
            final(self).wf(),
            final(self).capacity() == old(self).capacity(),
            lookup_outcome(old(self).entries(), final(self).entries(), listing_pattern(sha@), r),
            forall|i: int|
                0 <= i < old(self).entries().len() && wildcard_match(listing_pattern(sha@), old(self).entries()[i].0)
                    && (forall|j: int|
                    0 <= j < i ==> regex_match(listing_pattern(sha@), #[trigger] entry_keys(old(self).entries())[j])
                        == Some(false)) ==> (r matches Ok(Some(v)) && v == old(self).entries()[i].1
                    && final(self).entries() == lru_touch(old(self).entries(), i)),
    {
        let pattern = gen_env_listing_regex(sha);
        let keys = listing_lru_keys(&self.cache);
        let ghost before = self.entries();
        proof {
            assert forall|i: int| 0 <= i < before.len() implies keys@[i]@ == before[i].0
                && key_texts(keys@)[i] == entry_keys(before)[i] by {
                lemma_entry_key(before, i);
                assert(keys@[i]@ == key_texts(keys@)[i]);
            }
        }
        let found = find_matching_key(&keys, pattern.as_str());
        proof {
            assert forall|i: int|
                0 <= i < before.len() && wildcard_match(listing_pattern(sha@), before[i].0) && (forall|j: int|
                    0 <= j < i ==> regex_match(listing_pattern(sha@), #[trigger] entry_keys(before)[j])
                        == Some(false)) implies found == KeySearch::Found(i as usize) by {
                lemma_entry_key(before, i);
                assert(keys@[i]@ == key_texts(keys@)[i]);
                assert(keys@[i]@ == before[i].0);
                assert forall|j: int| 0 <= j < i implies regex_match(pattern@, #[trigger] key_texts(keys@)[j])
                    == Some(false) by {
                    assert(key_texts(keys@)[j] == entry_keys(before)[j]);
                }
            }
        }
        match found {
            KeySearch::Found(i) => {
                proof {
                    lemma_entry_key(before, i as int);
                    lemma_lru_touch_wf(before, self.capacity(), i as int);
                    assert(keys@[i as int]@ == key_texts(keys@)[i as int]);
                    lemma_first_match_unique(entry_keys(before), pattern@, i as int);
                }
                let found = listing_lru_get(&mut self.cache, keys[i].as_str());
                Ok(found)
            },
            KeySearch::NotFound => {
                proof { lemma_no_match_excludes(entry_keys(before), pattern@); }
                Ok(None)
            },
            KeySearch::InvalidPattern => {
                proof {
                    let j = choose|j: int| invalid_at(key_texts(keys@), pattern@, j);
                    lemma_invalid_excludes(entry_keys(before), pattern@, j);
                }
                Err(CacheError { message: String::from_str("The cache key pattern is not a regular expression") })
            },
        }
    }

    /// Stores `data` as the listing at `sha`.
    pub fn write_env_listing(&mut self, sha: &str, data: Arc<Vec<EnvironmentDescription>>)
        requires
            old(self).wf(),
        ensures
            final(self).wf(),
            final(self).capacity() == old(self).capacity(),
            final(self).entries() == lru_put(old(self).entries(), sha@, data, old(self).capacity()),
    {
        let key = gen_env_listing_key(sha);
        proof { lemma_lru_put_wf(self.entries(), self.capacity(), key@, data); }
        listing_lru_put(&mut self.cache, key, data);
    }
}

} // verus!
