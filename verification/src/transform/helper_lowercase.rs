//! `lowercase`: writes a string in lower case.

use vstd::prelude::*;
use crate::json::Json;
use super::{HelperError, string_param, string_helper_output, output_view, deref_param};

verus! {

/// The `lowercase` helper.
#[derive(Clone, Copy, Debug)]
pub struct LowercaseHelper;

/// The lower-case form of a text, as `str::to_lowercase` computes it.
pub uninterp spec fn lowercase_text(s: Seq<char>) -> Seq<char>;

/// The lower-case form of `s` (`str::to_lowercase`, by the Unicode
/// `Lowercase` property); the result is a function of the text alone.
#[verifier::external_body]
pub(crate) fn to_lowercase(s: &str) -> (r: String)
    ensures
        r@ == lowercase_text(s@),
{
    s.to_lowercase()
}

impl LowercaseHelper {
    /// Writes a string parameter in lower case; writes nothing for null.
    pub fn render(&self, param: Option<&Json>) -> (r: Result<String, HelperError>)
        ensures
            output_view(r) == string_helper_output(
                "lowercase"@,
                deref_param(param),
                |s: Seq<char>| lowercase_text(s),
            ),
    {
        match string_param("lowercase", param) {
            Err(e) => Err(e),
            Ok(None) => Ok(String::new()),
            Ok(Some(s)) => Ok(to_lowercase(s.as_str())),
        }
    }
}

} // verus!
