//! `url-rm-slash`: removes the trailing slash of an endpoint.

use vstd::prelude::*;
use crate::json::Json;
use crate::text::{ends_with, chars_of, string_of_range};
use super::{HelperError, string_param, string_helper_output, output_view, deref_param};

verus! {

/// The `url-rm-slash` helper.
#[derive(Clone, Copy, Debug)]
pub struct UrlRmSlashHelper;

/// The text without its final `/`, if it ends with one.
pub open spec fn without_trailing_slash(s: Seq<char>) -> Seq<char> {
    if ends_with(s, seq!['/']) {
        s.drop_last()
    } else {
        s
    }
}

/// Removes one trailing `/`.
pub fn url_rm_slash(s: &str) -> (r: String)
    ensures
        r@ == without_trailing_slash(s@),
{
    let v = chars_of(s);
    if v.len() > 0 && v[v.len() - 1] == '/' {
        assert(v@.skip(v@.len() - 1) =~= seq!['/']);
        let r = string_of_range(&v, 0, v.len() - 1);
        assert(v@.subrange(0, v@.len() - 1) =~= v@.drop_last());
        r
    } else {
        proof {
            if v@.len() > 0 {
                assert(v@.skip(v@.len() - 1)[0] != seq!['/'][0]);
            }
        }
        let r = string_of_range(&v, 0, v.len());
        assert(v@.subrange(0, v@.len() as int) =~= v@);
        r
    }
}

impl UrlRmSlashHelper {
    /// Writes a string parameter without its trailing `/`; writes nothing for null.
    pub fn render(&self, param: Option<&Json>) -> (r: Result<String, HelperError>)
        ensures
            output_view(r) == string_helper_output(
                "url-rm-slash"@,
                deref_param(param),
                |s: Seq<char>| without_trailing_slash(s),
            ),
    {
        match string_param("url-rm-slash", param) {
            Err(e) => Err(e),
            Ok(None) => Ok(String::new()),
            Ok(Some(s)) => Ok(url_rm_slash(s.as_str())),
        }
    }
}

} // verus!
