//! Template helpers: what each helper writes for the parameters it is given.
//! The template engine hands a helper its parameters as JSON values and
//! writes or renders what the helper decides.

pub mod helper_comma_delimited_list;
pub mod helper_equal;
pub mod helper_lowercase;
pub mod helper_or;
pub mod helper_url_add_slash;
pub mod helper_url_rm_path;
pub mod helper_url_rm_slash;
pub mod helper_yaml_string;

pub use self::helper_comma_delimited_list::CommaDelimitedListHelper;
pub use self::helper_equal::EqualHelper;
pub use self::helper_lowercase::LowercaseHelper;
pub use self::helper_or::OrHelper;
pub use self::helper_url_add_slash::UrlAddSlashHelper;
pub use self::helper_url_rm_path::UrlRmPathHelper;
pub use self::helper_url_rm_slash::UrlRmSlashHelper;
pub use self::helper_yaml_string::YamlStringHelper;

use vstd::prelude::*;
use crate::json::Json;
use crate::text::{chars_of, push_char};

verus! {

/// Why a helper refuses its parameters. The message is the start of the
/// engine's error text; for a parameter of the wrong type the engine appends
/// a description of the parameter.
#[derive(Debug, PartialEq, Eq)]
pub enum HelperError {
    MissingParam { message: String },
    WrongParamType { message: String },
}

/// A helper error, as text.
pub enum HelperErrorView {
    MissingParam(Seq<char>),
    WrongParamType(Seq<char>),
}

impl HelperError {
    pub open spec fn view(self) -> HelperErrorView {
        match self {
            HelperError::MissingParam { message } => HelperErrorView::MissingParam(message@),
            HelperError::WrongParamType { message } => HelperErrorView::WrongParamType(message@),
        }
    }
}

/// What a block helper has the engine do.
#[derive(Debug, PartialEq, Eq)]
pub enum HelperAction {
    /// Render the block's template.
    RenderTemplate,
    /// Render the block's `else` part.
    RenderInverse,
    /// Write this text.
    Write(String),
    /// Write nothing.
    Nothing,
}

/// `prefix`, the helper's name, and a closing quote.
pub open spec fn quoted(prefix: Seq<char>, name: Seq<char>) -> Seq<char> {
    prefix + name + seq!['"']
}

/// The message for a missing parameter.
pub open spec fn missing_param(name: Seq<char>) -> HelperErrorView {
    HelperErrorView::MissingParam(quoted("Param not found for helper \""@, name))
}

/// The message for a parameter that is not a string.
pub open spec fn not_a_string(name: Seq<char>) -> HelperErrorView {
    HelperErrorView::WrongParamType(quoted("Param type is not string for helper \""@, name))
}

/// The text a string helper writes: its transformation of a string
/// parameter, nothing for null, and an error for a missing parameter or one
/// of another type.
pub open spec fn string_helper_output(
    name: Seq<char>,
    param: Option<Json>,
    out: spec_fn(Seq<char>) -> Seq<char>,
) -> Result<Seq<char>, HelperErrorView> {
    match param {
        None => Err(missing_param(name)),
        Some(Json::String(s)) => Ok(out(s@)),
        Some(Json::Null) => Ok(Seq::empty()),
        Some(_) => Err(not_a_string(name)),
    }
}

pub open spec fn output_view(r: Result<String, HelperError>) -> Result<Seq<char>, HelperErrorView> {
    match r {
        Ok(s) => Ok(s@),
        Err(e) => Err(e.view()),
    }
}

pub open spec fn deref_param(p: Option<&Json>) -> Option<Json> {
    match p {
        Some(j) => Some(*j),
        None => None,
    }
}

/// `prefix` followed by `name` and a closing quote.
pub fn quoted_message(prefix: &str, name: &str) -> (m: String)
    ensures
        m@ == quoted(prefix@, name@),
{
    let mut m = String::from_str(prefix);
    m.append(name);
    push_char(&mut m, '"');
    m
}

/// The string parameter of a string helper: `Ok(Some(..))` for a string,
/// `Ok(None)` for null, and the helper's error otherwise.
pub fn string_param<'a>(name: &str, param: Option<&'a Json>) -> (r: Result<Option<&'a String>, HelperError>)
    ensures
        match deref_param(param) {
            None => r matches Err(e) && e.view() == missing_param(name@),
            Some(Json::String(s)) => r matches Ok(Some(t)) && t@ == s@,
            Some(Json::Null) => r matches Ok(None),
            Some(_) => r matches Err(e) && e.view() == not_a_string(name@),
        },
{
    match param {
        None => Err(HelperError::MissingParam {
            message: quoted_message("Param not found for helper \"", name),
        }),
        Some(Json::String(s)) => Ok(Some(s)),
        Some(Json::Null) => Ok(None),
        Some(_) => Err(HelperError::WrongParamType {
            message: quoted_message("Param type is not string for helper \"", name),
        }),
    }
}

/// The escaped form of one character, as earlier handlebars versions escaped HTML.
pub open spec fn escaped_char(c: char) -> Seq<char> {
    if c == '<' {
        "&lt;"@
    } else if c == '>' {
        "&gt;"@
    } else if c == '"' {
        "&quot;"@
    } else if c == '&' {
        "&amp;"@
    } else {
        seq![c]
    }
}

/// The text with each character escaped.
pub open spec fn escaped_html(s: Seq<char>) -> Seq<char>
    decreases s.len(),
{
    if s.len() == 0 {
        Seq::empty()
    } else {
        escaped_html(s.drop_last()) + escaped_char(s.last())
    }
}

/// Escapes `<`, `>`, `"` and `&` as HTML entities and keeps every other
/// character.
pub fn old_escape_html(s: &str) -> (output: String)
    ensures
        output@ == escaped_html(s@),
{
    let chars = chars_of(s);
    let mut output = String::new();
    let mut i: usize = 0;
    while i < chars.len()
        invariant
            i <= chars@.len(),
            chars@ == s@,
            output@ == escaped_html(chars@.take(i as int)),
        decreases chars@.len() - i,
    {
        let c = chars[i];
        let ghost before = output@;
        if c == '<' {
            output.append("&lt;");
        } else if c == '>' {
            output.append("&gt;");
        } else if c == '"' {
            output.append("&quot;");
        } else if c == '&' {
            output.append("&amp;");
        } else {
            push_char(&mut output, c);
        }
        assert(chars@.take(i + 1).drop_last() =~= chars@.take(i as int));
        assert(chars@.take(i + 1).last() == c);
        assert(output@ =~= before + escaped_char(c));
        i = i + 1;
    }
    assert(chars@.take(chars@.len() as int) =~= chars@);
    output
}

/// Escaping changes nothing in a text without `<`, `>`, `"` or `&`.
pub proof fn law_escape_plain_text_unchanged(s: Seq<char>)
    requires
        forall|i: int| 0 <= i < s.len() ==> s[i] != '<' && s[i] != '>' && s[i] != '"' && s[i] != '&',
    ensures
        escaped_html(s) == s,
    decreases s.len(),
{
    if s.len() > 0 {
        law_escape_plain_text_unchanged(s.drop_last());
        assert(s.drop_last().push(s.last()) =~= s);
    }
}

/// The escaped text holds none of the characters `<`, `>` and `"`.
pub proof fn law_escape_removes_markup(s: Seq<char>)
    ensures
        forall|i: int|
            0 <= i < escaped_html(s).len() ==> escaped_html(s)[i] != '<' && escaped_html(s)[i] != '>'
                && escaped_html(s)[i] != '"',
    decreases s.len(),
{
    reveal_strlit("&lt;");
    reveal_strlit("&gt;");
    reveal_strlit("&quot;");
    reveal_strlit("&amp;");
    if s.len() > 0 {
        law_escape_removes_markup(s.drop_last());
        let a = escaped_html(s.drop_last());
        let b = escaped_char(s.last());
        assert forall|i: int| 0 <= i < (a + b).len() implies (a + b)[i] != '<' && (a + b)[i] != '>'
            && (a + b)[i] != '"' by {
            if i >= a.len() {
                assert((a + b)[i] == b[i - a.len()]);
            } else {
                assert((a + b)[i] == a[i]);
            }
        }
    }
}

} // verus!
