//! `url-rm-path`: removes the last path segment of an endpoint.

use vstd::prelude::*;
use crate::json::Json;
use crate::urls::{url_parse, url_popped, pop_url_segment};
use super::{HelperError, string_param, string_helper_output, output_view, deref_param};
use super::helper_url_rm_slash::{without_trailing_slash, url_rm_slash};

verus! {

/// The `url-rm-path` helper.
#[derive(Clone, Copy, Debug)]
pub struct UrlRmPathHelper;

/// The text without a trailing `/` is parsed as a URL; if it parses, its last
/// path segment is removed and so is a trailing `/` of the result; a text that
/// does not parse is kept as it is.
pub open spec fn without_last_segment(s: Seq<char>) -> Seq<char> {
    let u = without_trailing_slash(s);
    if url_parse(u) is Parsed {
        without_trailing_slash(url_popped(u))
    } else {
        s
    }
}

/// Removes the last `/` and what follows it from a URL.
pub fn url_rm_path(s: &str) -> (r: String)
    ensures
        r@ == without_last_segment(s@),
{
    let u = url_rm_slash(s);
    match pop_url_segment(u.as_str()) {
        Some(popped) => url_rm_slash(popped.as_str()),
        None => s.to_owned(),
    }
}

impl UrlRmPathHelper {
    /// Writes a string parameter without its last path segment; writes
    /// nothing for null.
    pub fn render(&self, param: Option<&Json>) -> (r: Result<String, HelperError>)
        ensures
            output_view(r) == string_helper_output(
                "url-rm-path"@,
                deref_param(param),
                |s: Seq<char>| without_last_segment(s),
            ),
    {
        match string_param("url-rm-path", param) {
            Err(e) => Err(e),
            Ok(None) => Ok(String::new()),
            Ok(Some(s)) => Ok(url_rm_path(s.as_str())),
        }
    }
}

} // verus!
