//! URL parsing and rewriting, done by the `url` crate.
//!
//! URLs are handed in and out as text; what the `url` crate computes from a
//! text is named by the uninterpreted functions below.

use vstd::prelude::*;
use crate::text::starts_with;

verus! {

/// The parts of a parsed URL that this library reads.
pub struct UrlParts {
    /// Lower-cased scheme, without the `:`.
    pub scheme: String,
    /// The path segments, or `None` for a URL that cannot be a base.
    pub path_segments: Option<Vec<String>>,
    /// The fragment, without the `#`.
    pub fragment: Option<String>,
    /// The whole URL as the `url` crate writes it.
    pub serialization: String,
}

/// Why a text is not a URL.
pub enum UrlError {
    /// The text has no scheme.
    RelativeUrlWithoutBase,
    /// Any other failure, with the `url` crate's message.
    Invalid { message: String },
}

/// The parts of a parsed URL, as text.
pub struct UrlPartsView {
    pub scheme: Seq<char>,
    pub path_segments: Option<Seq<Seq<char>>>,
    pub fragment: Option<Seq<char>>,
    pub serialization: Seq<char>,
}

/// The outcome of parsing a text as a URL.
pub enum UrlParse {
    Parsed(UrlPartsView),
    RelativeUrlWithoutBase,
    Invalid(Seq<char>),
}

/// The texts of a list of strings.
pub open spec fn texts(v: Seq<String>) -> Seq<Seq<char>> {
    v.map_values(|s: String| s@)
}

pub open spec fn option_text(o: Option<String>) -> Option<Seq<char>> {
    match o {
        Some(s) => Some(s@),
        None => None,
    }
}

/// The view of a parse outcome.
pub open spec fn parse_view(r: Result<UrlParts, UrlError>) -> UrlParse {
    match r {
        Ok(p) => UrlParse::Parsed(
            UrlPartsView {
                scheme: p.scheme@,
                path_segments: match p.path_segments {
                    Some(v) => Some(texts(v@)),
                    None => None,
                },
                fragment: option_text(p.fragment),
                serialization: p.serialization@,
            },
        ),
        Err(UrlError::RelativeUrlWithoutBase) => UrlParse::RelativeUrlWithoutBase,
        Err(UrlError::Invalid { message }) => UrlParse::Invalid(message@),
    }
}

/// A URL that can be a base can always be re-based: its serialization parses
/// again, and its path can be replaced by any segments.
pub open spec fn rebases_always(v: UrlPartsView) -> bool {
    v.path_segments is Some ==> forall|segs: Seq<Seq<char>>|
        #[trigger] url_rebased(v.serialization, segs) is Some
}

/// What `url::Url::parse` makes of a text.
pub uninterp spec fn url_parse(input: Seq<char>) -> UrlParse;

/// The serialization of the URL serialized as `serialization`, with its
/// fragment removed and its path replaced by `segments`; `None` where the
/// `url` crate refuses.
pub uninterp spec fn url_rebased(serialization: Seq<char>, segments: Seq<Seq<char>>) -> Option<
    Seq<char>,
>;

/// The serialization of the URL parsed from `input` after its last path
/// segment is removed (unchanged for a URL that cannot be a base).
pub uninterp spec fn url_popped(input: Seq<char>) -> Seq<char>;

/// Parses `input` with `url::Url::parse` and reads its scheme, path segments,
/// fragment and serialization (`Url::scheme`, `Url::path_segments`,
/// `Url::fragment`, `Url::as_str`). The outcome is what the `url` crate
/// computes from the text. The `url` parser reports a missing base only when it
/// finds no scheme, so a text that starts with `ssh://` or `file://` never
/// gets that error. A parsed URL's serialization parses again to the same URL
/// (the invariant that `Url::check_invariants` tests), and
/// `Url::path_segments_mut` fails only for a URL that cannot be a base, so a
/// URL with path segments can always be re-based.
#[verifier::external_body]
pub(crate) fn parse_url(input: &str) -> (r: Result<UrlParts, UrlError>)
    ensures
        parse_view(r) == url_parse(input@),
        parse_view(r) matches UrlParse::Parsed(v) ==> rebases_always(v),
        starts_with(input@, "ssh://"@) || starts_with(input@, "file://"@) ==> !(r is Err
            && r->Err_0 is RelativeUrlWithoutBase),
{
    match url::Url::parse(input) {
        Ok(u) => Ok(UrlParts {
            scheme: String::from(u.scheme()),
            path_segments: u.path_segments().map(|segments| segments.map(String::from).collect()),
            fragment: u.fragment().map(String::from),
            serialization: String::from(u.as_str()),
        }),
        Err(url::ParseError::RelativeUrlWithoutBase) => Err(UrlError::RelativeUrlWithoutBase),
        Err(e) => Err(UrlError::Invalid { message: e.to_string() }),
    }
}

/// Parses `serialization` with `url::Url::parse`, clears its fragment
/// (`Url::set_fragment(None)`) and replaces its path by `segments`
/// (`Url::path_segments_mut`, `clear`, `extend`), then returns the
/// serialization. The result is what the `url` crate computes from the two
/// arguments; `None` where it refuses the text or the URL cannot be a base.
#[verifier::external_body]
pub(crate) fn rebase_url(serialization: &str, segments: &Vec<String>) -> (r: Option<String>)
    ensures
        option_text(r) == url_rebased(serialization@, texts(segments@)),
{
    let mut url = url::Url::parse(serialization).ok()?;
    url.set_fragment(None);
    url.path_segments_mut().ok()?.clear().extend(segments);
    Some(String::from(url.as_str()))
}

/// Parses `input` with `url::Url::parse`, removes the last path segment
/// (`Url::path_segments_mut`, `pop`) where the URL can be a base, and returns
/// the serialization (`Url::as_str`); `None` exactly where the text does not
/// parse.
#[verifier::external_body]
pub(crate) fn pop_url_segment(input: &str) -> (r: Option<String>)
    ensures
        r is Some <==> url_parse(input@) is Parsed,
        r matches Some(t) ==> t@ == url_popped(input@),
{
    let mut url = url::Url::parse(input).ok()?;
    if let Ok(mut segments) = url.path_segments_mut() {
        segments.pop();
    }
    Some(String::from(url.as_str()))
}

} // verus!
