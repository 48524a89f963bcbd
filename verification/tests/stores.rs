use hogan::config::{Environment, EnvironmentDescription};
use hogan::head::{plan_head_query, RefreshPlan};
use hogan::json::Json;
use hogan::server::{
    env_lookup_step, format_envs, EnvLookupAction as A, EnvLookupEvent as E, EnvLookupPhase as P,
};
use hogan::storage::cache::compress_data;
use hogan::storage::lru::{EnvLru, ListingLru};
use std::sync::Arc;

fn environment(name: &str, env_type: Option<&str>) -> Environment {
    Environment {
        environment: name.to_string(),
        environment_type: env_type.map(|t| t.to_string()),
        config_data: Json::String(format!("data of {}", name)),
    }
}

fn config_text(env: &Environment) -> String {
    match &env.config_data {
        Json::String(s) => s.clone(),
        _ => String::new(),
    }
}

#[test]
fn compression_makes_a_bzip2_stream() {
    let data = b"{\"Environment\":\"TEST\",\"ConfigData\":{\"a\":1}}".to_vec();
    let packed = compress_data(data.clone()).unwrap();
    assert_ne!(packed, data);
    assert_eq!(&packed[0..4], b"BZh6");
}

#[test]
fn compression_of_nothing() {
    let empty = compress_data(Vec::new()).unwrap();
    assert_eq!(&empty[0..4], b"BZh6");
}

#[test]
fn lru_store_needs_a_positive_size() {
    assert!(EnvLru::new(0).is_err());
    assert!(ListingLru::new(0).is_err());
    assert_eq!(
        EnvLru::new(0).err().unwrap().message,
        "Cache size must be positive. Passed 0"
    );
    assert!(EnvLru::new(3).is_ok());
}

#[test]
fn lru_read_after_write() {
    let mut store = EnvLru::new(2).unwrap();
    assert!(store.read_env("TEST", "abc1234").unwrap().is_none());
    store.write_env("TEST", "abc1234", Arc::new(environment("TEST", None)));
    let found = store.read_env("TEST", "abc").unwrap().unwrap();
    assert_eq!(found.environment, "TEST");
    assert_eq!(config_text(&found), "data of TEST");
    assert!(store.read_env("PROD", "abc").unwrap().is_none());
    assert!(store.read_env("TEST", "fff").unwrap().is_none());
}

#[test]
fn lru_evicts_the_least_recently_used() {
    let mut store = EnvLru::new(2).unwrap();
    store.write_env("A", "1111111", Arc::new(environment("A", None)));
    store.write_env("B", "1111111", Arc::new(environment("B", None)));
    // Reading A makes B the least recently used entry.
    assert!(store.read_env("A", "1111111").unwrap().is_some());
    store.write_env("C", "1111111", Arc::new(environment("C", None)));
    assert!(store.read_env("B", "1111111").unwrap().is_none());
    assert!(store.read_env("A", "1111111").unwrap().is_some());
    assert!(store.read_env("C", "1111111").unwrap().is_some());
}

#[test]
fn lru_overwrites_a_key() {
    let mut store = EnvLru::new(2).unwrap();
    store.write_env("A", "1111111", Arc::new(environment("A", None)));
    store.write_env("A", "1111111", Arc::new(environment("A", Some("prod"))));
    let found = store.read_env("A", "1111111").unwrap().unwrap();
    assert_eq!(found.environment_type, Some("prod".to_string()));
}

#[test]
fn lru_prefers_the_most_recent_match() {
    let mut store = EnvLru::new(3).unwrap();
    store.write_env("TEST", "abc0001", Arc::new(environment("TEST", Some("old"))));
    store.write_env("TEST", "abc0002", Arc::new(environment("TEST", Some("new"))));
    let found = store.read_env("TEST", "abc").unwrap().unwrap();
    assert_eq!(found.environment_type, Some("new".to_string()));
}

#[test]
fn lru_rejects_a_key_pattern_that_is_not_a_regex() {
    let mut store = EnvLru::new(2).unwrap();
    store.write_env("TEST", "abc1234", Arc::new(environment("TEST", None)));
    assert!(store.read_env("TEST", "(").is_err());
}

#[test]
fn lru_listings() {
    let mut store = ListingLru::new(1).unwrap();
    let envs = vec![environment("TEST", Some("dev")), environment("PROD", None)];
    store.write_env_listing("abc1234", Arc::new(format_envs(&envs)));
    let listing = store.read_env_listing("abc").unwrap().unwrap();
    assert_eq!(listing.len(), 2);
    assert_eq!(listing[0].environment_name, "TEST");
    assert_eq!(listing[0].environment_type, Some("dev".to_string()));
    assert_eq!(listing[1].environment_name, "PROD");
    assert_eq!(listing[1].environment_type, None);
    store.write_env_listing("fff0000", Arc::new(Vec::new()));
    assert!(store.read_env_listing("abc").unwrap().is_none());
}

#[test]
fn describe_an_environment() {
    let d = EnvironmentDescription::describe(&environment("TEST", Some("dev")));
    assert_eq!(d.environment_name, "TEST");
    assert_eq!(d.environment_type, Some("dev".to_string()));
}

#[test]
fn head_refresh_plan() {
    assert_eq!(
        plan_head_query(Some(10), true),
        RefreshPlan { refresh: true, fetch: true }
    );
    assert_eq!(
        plan_head_query(Some(9), true),
        RefreshPlan { refresh: false, fetch: false }
    );
    assert_eq!(
        plan_head_query(Some(60), false),
        RefreshPlan { refresh: true, fetch: false }
    );
    assert_eq!(
        plan_head_query(None, true),
        RefreshPlan { refresh: false, fetch: false }
    );
}

#[test]
fn env_lookup_steps() {
    assert_eq!(env_lookup_step(P::Start, E::Begin), (P::FirstRead, A::ReadCache));
    assert_eq!(
        env_lookup_step(P::FirstRead, E::CacheRead { hit: true }),
        (P::Done, A::ReturnCached)
    );
    assert_eq!(
        env_lookup_step(P::FirstRead, E::CacheRead { hit: false }),
        (P::LockedRead, A::LockAndReadCache)
    );
    assert_eq!(
        env_lookup_step(P::LockedRead, E::CacheRead { hit: false }),
        (P::Refreshing, A::CountMissAndRefresh)
    );
    assert_eq!(
        env_lookup_step(P::Refreshing, E::Refreshed { ok: false }),
        (P::Done, A::Fail)
    );
    assert_eq!(
        env_lookup_step(P::Refreshing, E::Refreshed { ok: true }),
        (P::BuildingFilter, A::BuildFilter)
    );
    assert_eq!(
        env_lookup_step(P::BuildingFilter, E::FilterBuilt { valid: false }),
        (P::Searching, A::Search { all_environments: true })
    );
    assert_eq!(
        env_lookup_step(P::Searching, E::Searched { found: true }),
        (P::Done, A::WriteBackAndReturn)
    );
    assert_eq!(
        env_lookup_step(P::Searching, E::Searched { found: false }),
        (P::Done, A::ReportUnknownEnvironment)
    );
    assert_eq!(env_lookup_step(P::Searching, E::Begin), (P::Done, A::Fail));
}
