//! `url-add-slash`: adds a trailing slash to an endpoint that is a URL.

use vstd::prelude::*;
use crate::json::Json;
use crate::text::{ends_with, ends_with_char, push_char};
use crate::urls::{url_parse, parse_url, UrlParse};
use super::{HelperError, string_param, string_helper_output, output_view, deref_param};

verus! {

/// The `url-add-slash` helper.
#[derive(Clone, Copy, Debug)]
pub struct UrlAddSlashHelper;

/// A text that parses as a URL and does not end in `/` gets a `/` appended;
/// any other text is kept.
pub open spec fn with_trailing_slash(s: Seq<char>) -> Seq<char> {
    if url_parse(s) is Parsed && !ends_with(s, seq!['/']) {
        s.push('/')
    } else {
        s
    }
}

/// Appends `/` to a URL that does not end in one.
pub fn url_add_slash(s: &str) -> (r: String)
    ensures
        r@ == with_trailing_slash(s@),
{
    let parses = match parse_url(s) {
        Ok(_) => true,
        Err(_) => false,
    };
    let mut r = s.to_owned();
    if parses && !ends_with_char(s, '/') {
        push_char(&mut r, '/');
    }
    r
}

impl UrlAddSlashHelper {
    /// Writes a string parameter with a trailing `/` if it is a URL without
    /// one, unchanged otherwise; writes nothing for null.
    pub fn render(&self, param: Option<&Json>) -> (r: Result<String, HelperError>)
        ensures
            output_view(r) == string_helper_output(
                "url-add-slash"@,
                deref_param(param),
                |s: Seq<char>| with_trailing_slash(s),
            ),
    {
        match string_param("url-add-slash", param) {
            Err(e) => Err(e),
            Ok(None) => Ok(String::new()),
            Ok(Some(s)) => Ok(url_add_slash(s.as_str())),
        }
    }
}

} // verus!

verus! {

use super::helper_url_rm_slash::without_trailing_slash;

/// Removing the trailing slash undoes adding it: for a URL without a trailing
/// slash, `url-rm-slash` of `url-add-slash` gives the URL back.
pub proof fn law_rm_slash_undoes_add_slash(s: Seq<char>)
    requires
        url_parse(s) is Parsed,
        !ends_with(s, seq!['/']),
    ensures
        without_trailing_slash(with_trailing_slash(s)) == s,
{
    let t = s.push('/');
    assert(t.skip(t.len() - 1) =~= seq!['/']);
    assert(t.drop_last() =~= s);
}

/// After `url-add-slash`, a text ends with `/` exactly when it is a URL or
/// already ended with one.
pub proof fn law_add_slash_ends_with_slash(s: Seq<char>)
    ensures
        ends_with(with_trailing_slash(s), seq!['/']) <==> (url_parse(s) is Parsed || ends_with(
            s,
            seq!['/'],
        )),
{
    if url_parse(s) is Parsed && !ends_with(s, seq!['/']) {
        let t = s.push('/');
        assert(t.skip(t.len() - 1) =~= seq!['/']);
    }
}

} // verus!

verus! {

/// `url-add-slash` changes only a URL that does not end in `/`, and then only
/// by appending one `/`: a text that already ends in `/`, or is not a URL,
/// is kept as it is.
pub proof fn law_add_slash_cases(s: Seq<char>)
    ensures
        ends_with(s, seq!['/']) ==> with_trailing_slash(s) == s,
        !(url_parse(s) is Parsed) ==> with_trailing_slash(s) == s,
        url_parse(s) is Parsed && !ends_with(s, seq!['/']) ==> with_trailing_slash(s) == s + seq!['/'],
{
    assert(s.push('/') =~= s + seq!['/']);
}

} // verus!
