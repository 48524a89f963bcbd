use hogan::config::{ConfigUrl, ConfigUrlError};
use url::Url;

fn git(url: &str, branch: Option<&str>, internal_path: &str) -> ConfigUrl {
    ConfigUrl::Git {
        url: Url::parse(url).unwrap().to_string(),
        branch: branch.map(String::from),
        internal_path: String::from(internal_path),
    }
}

fn file(path: &str) -> ConfigUrl {
    ConfigUrl::File {
        path: String::from(path),
    }
}

#[test]
fn test_github_url() {
    assert_eq!(
        ConfigUrl::from_str("git@github.com:foo/bar.git").unwrap(),
        git("ssh://git@github.com/foo/bar.git", None, "")
    );

    assert_eq!(
        ConfigUrl::from_str("git@github.com:foo/bar.git/internal/path#branch").unwrap(),
        git("ssh://git@github.com/foo/bar.git", Some("branch"), "internal/path")
    );

    assert_eq!(
        ConfigUrl::from_str("https://github.com/foo/bar.git").unwrap(),
        git("https://github.com/foo/bar.git", None, "")
    );

    assert_eq!(
        ConfigUrl::from_str("https://github.com/foo/bar.git/internal/path#branch").unwrap(),
        git("https://github.com/foo/bar.git", Some("branch"), "internal/path")
    );
}

#[test]
fn test_bitbucket_git_url() {
    assert_eq!(
        ConfigUrl::from_str("ssh://git@bitbucket.org/foo/bar.git").unwrap(),
        git("ssh://git@bitbucket.org/foo/bar.git", None, "")
    );

    assert_eq!(
        ConfigUrl::from_str("ssh://git@bitbucket.org/foo/bar.git/internal/path#branch").unwrap(),
        git("ssh://git@bitbucket.org/foo/bar.git", Some("branch"), "internal/path")
    );

    assert_eq!(
        ConfigUrl::from_str("https://username@bitbucket.org/scm/foo/bar.git").unwrap(),
        git("https://username@bitbucket.org/scm/foo/bar.git", None, "")
    );

    assert_eq!(
        ConfigUrl::from_str("https://username@bitbucket.org/scm/foo/bar.git/internal/path#branch")
            .unwrap(),
        git(
            "https://username@bitbucket.org/scm/foo/bar.git",
            Some("branch"),
            "internal/path"
        )
    );
}

#[test]
fn test_local_path() {
    assert_eq!(ConfigUrl::from_str("foo/bar/baz").unwrap(), file("foo/bar/baz"));

    assert_eq!(ConfigUrl::from_str("/foo/bar/baz").unwrap(), file("/foo/bar/baz"));

    assert_eq!(
        ConfigUrl::from_str("foo/bar.git").unwrap(),
        git("ssh://foo/bar.git", None, "")
    );

    assert_eq!(
        ConfigUrl::from_str("foo/bar.git/baz").unwrap(),
        git("ssh://foo/bar.git", None, "baz")
    );

    assert_eq!(
        ConfigUrl::from_str("file://foo/bar/baz").unwrap(),
        file("foo/bar/baz")
    );

    assert_eq!(
        ConfigUrl::from_str("file://foo/bar.git/baz").unwrap(),
        file("foo/bar.git/baz")
    );
}

#[test]
fn non_git_url_is_refused() {
    let err = ConfigUrl::from_str("https://example.com/foo/bar").unwrap_err();
    assert_eq!(err, ConfigUrlError::NotGitOrFile);
    assert_eq!(
        err.message(),
        "Config Url not a file path, and not a .git URL"
    );
}

#[test]
fn cannot_be_a_base_url_is_refused() {
    let err = ConfigUrl::from_str("mailto:someone@example.com").unwrap_err();
    assert_eq!(err, ConfigUrlError::CannotBeABase);
    assert_eq!(err.message(), "Url cannot be a base");
}

#[test]
fn invalid_url_is_refused() {
    let err = ConfigUrl::from_str("http://[::1").unwrap_err();
    assert!(matches!(err, ConfigUrlError::InvalidUrl { .. }));
}
