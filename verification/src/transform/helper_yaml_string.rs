//! `yaml-string`: escapes a string for a double-quoted YAML (or JSON) string.

use vstd::prelude::*;
use crate::json::Json;
use crate::text::{chars_of, string_of_range};
use super::{HelperError, string_param, string_helper_output, output_view, deref_param};

verus! {

/// The `yaml-string` helper.
#[derive(Clone, Copy, Debug)]
pub struct YamlStringHelper;

/// The lower-case hexadecimal digit of a value below 16.
pub open spec fn hex_digit(d: int) -> char {
    if d < 10 {
        (('0' as int) + d) as char
    } else {
        (('a' as int) + d - 10) as char
    }
}

/// How a JSON string writes one character.
pub open spec fn json_escaped_char(c: char) -> Seq<char> {
    if c == '"' {
        seq!['\\', '"']
    } else if c == '\\' {
        seq!['\\', '\\']
    } else if c == '\u{8}' {
        seq!['\\', 'b']
    } else if c == '\t' {
        seq!['\\', 't']
    } else if c == '\n' {
        seq!['\\', 'n']
    } else if c == '\u{c}' {
        seq!['\\', 'f']
    } else if c == '\r' {
        seq!['\\', 'r']
    } else if (c as int) < 0x20 {
        seq!['\\', 'u', '0', '0', hex_digit((c as int) / 16), hex_digit((c as int) % 16)]
    } else {
        seq![c]
    }
}

/// The contents of a JSON string literal for a text.
pub open spec fn json_escaped(s: Seq<char>) -> Seq<char>
    decreases s.len(),
{
    if s.len() == 0 {
        Seq::empty()
    } else {
        json_escaped(s.drop_last()) + json_escaped_char(s.last())
    }
}

/// The JSON text of the string `s` (`serde_json::to_string` of
/// `serde_json::Value::String`): a quote, each character escaped as
/// `serde_json` escapes it, and a quote. Writing into a `Vec` cannot fail, so
/// the serialization always succeeds.
#[verifier::external_body]
pub(crate) fn json_string_literal(s: &str) -> (r: String)
    ensures
        r@ == seq!['"'] + json_escaped(s@) + seq!['"'],
{
    serde_json::to_string(&serde_json::Value::String(s.to_string())).unwrap_or_default()
}

/// The text escaped for use inside double quotes.
pub fn yaml_string(s: &str) -> (r: String)
    ensures
        r@ == json_escaped(s@),
{
    let quoted = json_string_literal(s);
    let v = chars_of(quoted.as_str());
    let ghost e = json_escaped(s@);
    assert(v@ == seq!['"'] + e + seq!['"']);
    assert(v@[0] == '"');
    let mut from: usize = 0;
    if v.len() > 0 && v[0] == '"' {
        from = 1;
    }
    let mut to: usize = v.len();
    if to > from && v[to - 1] == '"' {
        to = to - 1;
    }
    assert(v@[v@.len() - 1] == '"');
    let r = string_of_range(&v, from, to);
    assert(v@.subrange(1, v@.len() - 1) =~= e);
    r
}

impl YamlStringHelper {
    /// Writes a string parameter escaped as in a JSON string literal;
    /// writes nothing for null.
    pub fn render(&self, param: Option<&Json>) -> (r: Result<String, HelperError>)
        ensures
            output_view(r) == string_helper_output(
                "yaml-string"@,
                deref_param(param),
                |s: Seq<char>| json_escaped(s),
            ),
    {
        match string_param("yaml-string", param) {
            Err(e) => Err(e),
            Ok(None) => Ok(String::new()),
            Ok(Some(s)) => Ok(yaml_string(s.as_str())),
        }
    }
}

/// The value of a hexadecimal digit (`-1` for any other character).
pub open spec fn hex_value(c: char) -> int {
    if '0' <= c && c <= '9' {
        (c as int) - ('0' as int)
    } else if 'a' <= c && c <= 'f' {
        (c as int) - ('a' as int) + 10
    } else if 'A' <= c && c <= 'F' {
        (c as int) - ('A' as int) + 10
    } else {
        -1
    }
}

/// The character that a two-character escape `\e` of a JSON string stands for.
pub open spec fn unescaped_char(e: char) -> char {
    if e == 'b' {
        '\u{8}'
    } else if e == 't' {
        '\t'
    } else if e == 'n' {
        '\n'
    } else if e == 'f' {
        '\u{c}'
    } else if e == 'r' {
        '\r'
    } else {
        e
    }
}

/// What the contents of a JSON string literal stand for (RFC 8259): each
/// escape `\"`, `\\`, `\/`, `\b`, `\f`, `\n`, `\r`, `\t` or `\uXXXX` (a
/// character below U+D800) is read as the character it names, and any other
/// character as itself.
pub open spec fn json_unescaped(t: Seq<char>) -> Seq<char>
    decreases t.len(),
{
    if t.len() == 0 {
        Seq::empty()
    } else if t[0] == '\\' && t.len() >= 6 && t[1] == 'u' {
        seq![
            ((hex_value(t[2]) * 4096 + hex_value(t[3]) * 256 + hex_value(t[4]) * 16 + hex_value(
                t[5],
            )) as char),
        ] + json_unescaped(t.skip(6))
    } else if t[0] == '\\' && t.len() >= 2 {
        seq![unescaped_char(t[1])] + json_unescaped(t.skip(2))
    } else {
        seq![t[0]] + json_unescaped(t.skip(1))
    }
}

proof fn lemma_hex_digit_value(d: int)
    requires
        0 <= d < 16,
    ensures
        hex_value(hex_digit(d)) == d,
{
    if d < 10 {
        assert((('0' as int) + d) as char as int == ('0' as int) + d);
    } else {
        assert((('a' as int) + d - 10) as char as int == ('a' as int) + d - 10);
    }
}

proof fn lemma_unescape_char_then(c: char, rest: Seq<char>)
    ensures
        json_unescaped(json_escaped_char(c) + rest) == seq![c] + json_unescaped(rest),
{
    let t = json_escaped_char(c) + rest;
    if c == '"' || c == '\\' || c == '\u{8}' || c == '\t' || c == '\n' || c == '\u{c}' || c == '\r' {
        assert(t.skip(2) =~= rest);
    } else if (c as int) < 0x20 {
        let hi = (c as int) / 16;
        let lo = (c as int) % 16;
        lemma_hex_digit_value(hi);
        lemma_hex_digit_value(lo);
        assert(t[2] == '0' && t[3] == '0');
        assert(t[4] == hex_digit(hi) && t[5] == hex_digit(lo));
        assert(hex_value(t[2]) == 0 && hex_value(t[3]) == 0);
        assert(hi * 16 + lo == c as int);
        assert(((c as int) as char) == c);
        assert(t.skip(6) =~= rest);
    } else {
        assert(t[0] == c);
        assert(t.skip(1) =~= rest);
    }
}

proof fn lemma_escaped_front(s: Seq<char>)
    requires
        s.len() > 0,
    ensures
        json_escaped(s) == json_escaped_char(s[0]) + json_escaped(s.skip(1)),
    decreases s.len(),
{
    if s.len() == 1 {
        assert(s.drop_last() =~= Seq::<char>::empty());
        assert(s.skip(1) =~= Seq::<char>::empty());
        assert(json_escaped_char(s[0]) + Seq::<char>::empty() =~= json_escaped_char(s[0]));
    } else {
        lemma_escaped_front(s.drop_last());
        assert(s.drop_last().skip(1) =~= s.skip(1).drop_last());
        assert(s.skip(1).last() == s.last());
        assert(s.drop_last()[0] == s[0]);
        assert(json_escaped(s.skip(1)) == json_escaped(s.skip(1).drop_last()) + json_escaped_char(
            s.skip(1).last(),
        ));
        assert(json_escaped(s) =~= json_escaped_char(s[0]) + json_escaped(s.skip(1)));
    }
}

/// Reading the escaped text back as the contents of a JSON string gives the
/// text: the quoted output of `yaml-string` is a JSON string literal of its input.
pub proof fn law_yaml_string_reads_back(s: Seq<char>)
    ensures
        json_unescaped(json_escaped(s)) == s,
    decreases s.len(),
{
    if s.len() > 0 {
        lemma_escaped_front(s);
        law_yaml_string_reads_back(s.skip(1));
        lemma_unescape_char_then(s[0], json_escaped(s.skip(1)));
        assert(seq![s[0]] + s.skip(1) =~= s);
    }
}

} // verus!
