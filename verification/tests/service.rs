use hogan::couchbase::{gen_cb_env_key, CbConn};
use hogan::datadogstatsd::CustomMetrics;
use hogan::error::{create_error_response, git_error, HoganError};
use hogan::git::{
    clone_credentials, fetch_credentials, find_ref_sha, remote_branch, reset_step,
    transfer_progress, Credentials, ProgressReport, ResetAction, ResetPhase,
};
use hogan::server::{
    contextualize_path, env_filter_pattern, find_environment, format_sha, has_environment,
    is_hex_sha,
};
use hogan::storage::lru::{find_matching_key, gen_env_regex, KeySearch};
use hogan::storage::multi::{cache_id, read_step, Lookup, ReadStep};
use hogan::storage::redis::RedisCache;
use hogan::storage::sqlite::SqliteCache;
use hogan::storage::{lru, redis, sqlite};
use hogan::template::{Template, TemplateDir};
use hogan::text::{replace, split_char, trim_start_matches};

#[test]
fn couchbase_connection_string() {
    let conn = CbConn::format("Host=cb.local;Bucket=configs;Password=pw;Username=me;Prefix=p");
    assert_eq!(conn.host, "cb.local");
    assert_eq!(conn.bucket, "configs");
    assert_eq!(conn.password, "pw");
    assert_eq!(conn.username, "me");
    assert_eq!(conn.prefix, Some("p".to_string()));

    let later_wins = CbConn::format("Host=a;Other=x;Host=b=c");
    assert_eq!(later_wins.host, "b");
    assert_eq!(later_wins.bucket, "");
    assert_eq!(later_wins.prefix, None);
}

#[test]
fn couchbase_keys() {
    assert_eq!(gen_cb_env_key(&Some("p".to_string()), "abc", "TEST"), "p::abc::TEST");
    assert_eq!(gen_cb_env_key(&None, "abc", "TEST"), "abc::TEST");
}

#[test]
fn cache_keys() {
    assert_eq!(sqlite::gen_env_key("abc1234", "TEST"), "TEST::abc1234");
    assert_eq!(sqlite::gen_env_listing_key("abc1234"), "!listing::abc1234");
    assert_eq!(redis::gen_env_key("abc1234", "TEST"), "env::abc1234::TEST");
    assert_eq!(redis::gen_env_listing_key("abc1234"), "listing::abc1234");
    assert_eq!(lru::gen_env_key("TEST", "abc1234"), "abc1234::TEST");
    assert_eq!(lru::gen_env_listing_key("abc1234"), "abc1234");
    assert_eq!(lru::gen_env_listing_regex("abc"), "^abc.*$");
}

#[test]
fn lru_lookup_by_sha_prefix() {
    let keys = vec![
        "fff0000::OTHER".to_string(),
        "abc1234::TEST".to_string(),
        "abc1234::TEST2".to_string(),
    ];
    let pattern = gen_env_regex("TEST", "abc");
    assert_eq!(pattern, "^abc.*::TEST$");
    assert_eq!(find_matching_key(&keys, &pattern), KeySearch::Found(1));
    assert_eq!(
        find_matching_key(&keys, &gen_env_regex("PROD", "abc")),
        KeySearch::NotFound
    );
    assert_eq!(find_matching_key(&keys, "("), KeySearch::InvalidPattern);
}

#[test]
fn sqlite_cache_is_named_by_path() {
    let cache = SqliteCache::new("hogan.db");
    assert_eq!(cache.id(), "hogan.db");
}

#[test]
fn redis_cache_needs_a_redis_url() {
    let cache = RedisCache::new("redis", "redis://127.0.0.1:6379", 60).unwrap();
    assert_eq!(cache.id, "redis");
    assert_eq!(cache.ttl, 60);
    assert!(RedisCache::new("redis", "http://127.0.0.1", 60).is_err());
}

#[test]
fn multi_cache_reads_until_an_answer() {
    assert_eq!(
        cache_id(&vec!["lru".to_string(), "hogan.db".to_string()]),
        "lru+hogan.db"
    );
    assert_eq!(read_step(0, 2, Lookup::Miss), ReadStep::Next);
    assert_eq!(read_step(1, 2, Lookup::Hit), ReadStep::WriteBack { count: 1 });
    assert_eq!(read_step(1, 2, Lookup::Miss), ReadStep::Absent);
    assert_eq!(read_step(0, 2, Lookup::Failed), ReadStep::Fail);
}

#[test]
fn error_responses() {
    let r = create_error_response(&HoganError::UnknownEnvironment {
        sha: "abc".to_string(),
        env: "TEST".to_string(),
    });
    assert_eq!(r.status, 404);
    assert_eq!(
        r.body,
        Some(vec![
            ("sha".to_string(), "abc".to_string()),
            ("environment".to_string(), "TEST".to_string()),
            ("message".to_string(), "Unknown Environment".to_string()),
        ])
    );
    assert_eq!(create_error_response(&HoganError::BadRequest).status, 502);
    assert_eq!(create_error_response(&HoganError::InternalTimeout).status, 503);
    assert_eq!(
        create_error_response(&HoganError::UnknownError { msg: "x".to_string() }).status,
        500
    );
    let git = create_error_response(&git_error("boom".to_string()));
    assert_eq!(git.status, 500);
    assert_eq!(
        git.body,
        Some(vec![("message".to_string(), "boom".to_string())])
    );
    let template = create_error_response(&HoganError::InvalidTemplate { msg: "bad".to_string() });
    assert_eq!(template.status, 400);
    let branch = create_error_response(&HoganError::UnknownBranch { branch: "b".to_string() });
    assert_eq!(branch.status, 404);
    let sha = create_error_response(&HoganError::UnknownSHA { sha: "s".to_string() });
    assert_eq!(
        sha.body,
        Some(vec![
            ("sha".to_string(), "s".to_string()),
            ("message".to_string(), "Unknown sha".to_string()),
        ])
    );
}

#[test]
fn metric_names() {
    assert_eq!(CustomMetrics::Cache.metric_name(), "hogan.cache");
    assert_eq!(CustomMetrics::RequestTime.metric_name(), "hogan.requests");
    assert_eq!(CustomMetrics::FetchTime.metric_name(), "hogan.fetch");
    assert_eq!(CustomMetrics::FetchCounter.metric_name(), "hogan.fetchcounter");
}

#[test]
fn git_credentials_and_progress() {
    assert_eq!(clone_credentials(true, true), Credentials::UserPassword);
    assert_eq!(clone_credentials(false, true), Credentials::SshKey);
    assert_eq!(fetch_credentials(true, true), Credentials::SshKey);
    assert_eq!(fetch_credentials(false, true), Credentials::UserPassword);
    assert_eq!(fetch_credentials(false, false), Credentials::Default);

    assert_eq!(transfer_progress(100, 100, 50), ProgressReport::ResolvingDeltas);
    assert_eq!(transfer_progress(100, 100, 55), ProgressReport::Quiet);
    assert_eq!(transfer_progress(30, 100, 0), ProgressReport::ReceivedObjects);
    assert_eq!(transfer_progress(31, 100, 0), ProgressReport::Quiet);
    assert_eq!(transfer_progress(3, 5, 0), ProgressReport::ReceivedObjects);
    assert_eq!(transfer_progress(0, 0, 0), ProgressReport::ResolvingDeltas);
}

#[test]
fn git_reset_steps() {
    assert_eq!(
        reset_step(ResetPhase::Start, true, true, true),
        (ResetPhase::ForcedFetch, ResetAction::Fetch)
    );
    assert_eq!(
        reset_step(ResetPhase::Start, false, true, true),
        (ResetPhase::FirstDetach, ResetAction::DetachHead)
    );
    assert_eq!(
        reset_step(ResetPhase::FirstDetach, false, true, false),
        (ResetPhase::RetryFetch, ResetAction::Fetch)
    );
    assert_eq!(
        reset_step(ResetPhase::SecondDetach, false, true, false).1,
        ResetAction::Fail
    );
    assert_eq!(
        reset_step(ResetPhase::Start, false, false, true).1,
        ResetAction::ReadHead
    );
}

#[test]
fn commit_names() {
    assert_eq!(
        find_ref_sha("0123456789abcdef0123456789abcdef01234567"),
        "0123456"
    );
    assert_eq!(format_sha("0123456789"), "0123456");
    assert_eq!(format_sha("abc"), "abc");
    assert_eq!(format_sha(format_sha("0123456789")), "0123456");
    assert!(is_hex_sha("deadbeef"));
    assert!(!is_hex_sha("master"));
    assert!(!is_hex_sha(""));
    assert_eq!(remote_branch("origin", "feature/x"), "origin/feature/x");
}

#[test]
fn request_paths_and_filters() {
    assert_eq!(contextualize_path("/configs/abc/TEST"), "configs");
    assert_eq!(contextualize_path("ok"), "route");
    assert_eq!(
        env_filter_pattern(r"^config\.{}\.json$", "TEST"),
        r"^config\.TEST\.json$"
    );
    let names = vec!["TEST".to_string(), "PROD".to_string()];
    assert!(has_environment(&names, "PROD"));
    assert!(!has_environment(&names, "DEV"));
    assert_eq!(find_environment(&Vec::new(), "TEST"), None);
}

#[test]
fn template_dir_and_rendered_names() {
    assert!(TemplateDir::new("templates".to_string(), true).is_ok());
    match TemplateDir::new("missing".to_string(), false) {
        Err(HoganError::UnknownError { msg }) => {
            assert_eq!(msg, "Unable to find the template path")
        }
        _ => panic!("a missing directory must be refused"),
    }
    let template = Template {
        path: "project/Web.template.config".to_string(),
        contents: String::new(),
    };
    let rendered = template.rendered("TEST", b"data".to_vec()).unwrap();
    assert_eq!(rendered.path, "project/Web.TEST.config");
    assert_eq!(rendered.contents, b"data".to_vec());
    let no_name = Template {
        path: "..".to_string(),
        contents: String::new(),
    };
    assert!(no_name.rendered("TEST", Vec::new()).is_none());
}

#[test]
fn text_operations() {
    assert_eq!(replace("a:b:c", ":", "/"), "a/b/c");
    assert_eq!(replace("aaa", "aa", "b"), "ba");
    assert_eq!(trim_start_matches("xxxy", "x"), "y");
    assert_eq!(split_char("a;;b", ';'), vec!["a", "", "b"]);
    assert_eq!(split_char("", ';'), vec![""]);
}

#[test]
fn replacing_the_empty_text_surrounds_every_character() {
    assert_eq!(replace("abc", "", "X"), "XaXbXcX");
    assert_eq!(replace("", "", "X"), "X");
    assert_eq!(replace("abc", "", "X"), "abc".replace("", "X"));
}

#[test]
fn config_file_pattern_of_environments() {
    assert_eq!(
        hogan::config::config_file_pattern(".+"),
        "config\\..+\\.json$"
    );
    assert_eq!(
        hogan::config::config_file_pattern("TEST"),
        "config\\.TEST\\.json$"
    );
}

#[test]
fn files_are_selected_by_name() {
    let names: Vec<String> = vec![
        "config.TEST.json",
        "config.test2.json",
        "readme.md",
        "config.PROD.json.bak",
        "Web.template.config",
    ]
    .into_iter()
    .map(String::from)
    .collect();
    assert_eq!(
        hogan::files::select_file_names(&names, "config\\..+\\.json$", true),
        Some(vec![0, 1])
    );
    assert_eq!(
        hogan::files::select_file_names(&names, r"config\.test\d?\.json", false),
        Some(vec![1])
    );
    assert_eq!(
        hogan::files::select_file_names(
            &names,
            "^[^.]*(\\w+\\.)*template([-.].+)?\\.(config|ya?ml|properties)",
            true
        ),
        Some(vec![4])
    );
    assert_eq!(hogan::files::select_file_names(&names, "(", true), None);
    assert_eq!(hogan::files::select_file_names(&Vec::new(), "(", true), None);
    assert_eq!(
        hogan::files::select_file_names(&Vec::new(), ".+", true),
        Some(Vec::new())
    );
}

#[test]
fn environment_types_are_named_after_their_file() {
    let t = hogan::config::EnvironmentType {
        environment_type: "ignored".to_string(),
        config_data: hogan::json::Json::Null,
    };
    let named = hogan::files::type_named_by_file(t, "configs/global.json").unwrap();
    assert_eq!(named.environment_type, "global");
}
