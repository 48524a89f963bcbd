//! Choosing files by name: the configuration and template files are those
//! whose names a filter (a regular expression) matches, and an environment
//! type is named after the file that defines it.

use vstd::prelude::*;
use crate::urls::texts;
use crate::config::EnvironmentType;

verus! {

/// Whether `regex::RegexBuilder` builds a regular expression from `pattern`
/// (case-insensitive where `case_insensitive` is set).
pub uninterp spec fn regex_compiles_with(pattern: Seq<char>, case_insensitive: bool) -> bool;

/// Whether the regular expression built from `pattern` (case-insensitive
/// where `case_insensitive` is set) matches `text`, as `Regex::is_match` decides.
pub uninterp spec fn regex_match_with(pattern: Seq<char>, case_insensitive: bool, text: Seq<char>) -> bool;

/// Builds a regular expression from `pattern` with
/// `regex::RegexBuilder::new(pattern).case_insensitive(case_insensitive).build()`
/// and tests `text` with `Regex::is_match`; `None` where the build fails.
/// Whether the build fails depends on the pattern and the flag alone; the
/// match on those and the text.
#[verifier::external_body]
pub(crate) fn regex_is_match_with(pattern: &str, case_insensitive: bool, text: &str) -> (r: Option<bool>)
    ensures
        match r {
            None => !regex_compiles_with(pattern@, case_insensitive),
            Some(b) => regex_compiles_with(pattern@, case_insensitive) && b == regex_match_with(
                pattern@,
                case_insensitive,
                text@,
            ),
        },
{
    match regex::RegexBuilder::new(pattern).case_insensitive(case_insensitive).build() {
        Ok(re) => Some(re.is_match(text)),
        Err(_) => None,
    }
}

/// The positions, in ascending order, of the names that the filter matches.
pub open spec fn selected_indices(names: Seq<Seq<char>>, pattern: Seq<char>, case_insensitive: bool) -> Seq<int>
    decreases names.len(),
{
    if names.len() == 0 {
        Seq::empty()
    } else {
        let before = selected_indices(names.drop_last(), pattern, case_insensitive);
        if regex_match_with(pattern, case_insensitive, names.last()) {
            before.push(names.len() - 1)
        } else {
            before
        }
    }
}

/// The positions (ascending) of the file names that the filter `pattern`
/// matches; `None` exactly where the pattern is not a regular expression.
pub fn select_file_names(names: &Vec<String>, pattern: &str, case_insensitive: bool) -> (r: Option<Vec<usize>>)
    ensures
        r is None <==> !regex_compiles_with(pattern@, case_insensitive),
        r matches Some(ix) ==> ix@.map_values(|i: usize| i as int) == selected_indices(
            texts(names@),
            pattern@,
            case_insensitive,
        ),
{
    if regex_is_match_with(pattern, case_insensitive, "").is_none() {
        return None;
    }
    let ghost all = texts(names@);
    let mut out: Vec<usize> = Vec::new();
    let mut i: usize = 0;
    assert(all.take(0) =~= Seq::<Seq<char>>::empty());
    while i < names.len()
        invariant
            i <= names@.len(),
            all == texts(names@),
            regex_compiles_with(pattern@, case_insensitive),
            out@.map_values(|k: usize| k as int) == selected_indices(
                all.take(i as int),
                pattern@,
                case_insensitive,
            ),
        decreases names@.len() - i,
    {
        let found = regex_is_match_with(pattern, case_insensitive, names[i].as_str());
        let ghost prev = out@;
        assert(all.take(i + 1).drop_last() =~= all.take(i as int));
        assert(all.take(i + 1).last() == names@[i as int]@);
        match found {
            Some(true) => {
                out.push(i);
                assert(out@.map_values(|k: usize| k as int) =~= prev.map_values(|k: usize| k as int).push(
                    i as int,
                ));
            },
            _ => {},
        }
        i = i + 1;
    }
    assert(all.take(names@.len() as int) =~= all);
    Some(out)
}

/// The file stem of a path (`std::path::Path::file_stem`), if it has one.
pub uninterp spec fn path_file_stem(path: Seq<char>) -> Option<Seq<char>>;

/// The file stem of `path` (`Path::file_stem`, as lossy UTF-8), as a function
/// of the text.
#[verifier::external_body]
fn file_stem(path: &str) -> (r: Option<String>)
    ensures
        match r {
            Some(s) => path_file_stem(path@) == Some(s@),
            None => path_file_stem(path@) is None,
        },
{
    std::path::Path::new(path).file_stem().map(|s| s.to_string_lossy().into_owned())
}

/// An environment type read from the file at `path` is named after the
/// file's stem; a path without a stem gives none.
pub fn type_named_by_file(t: EnvironmentType, path: &str) -> (r: Option<EnvironmentType>)
    ensures
        match path_file_stem(path@) {
            Some(stem) => r matches Some(x) && x.environment_type@ == stem && x.config_data
                == t.config_data,
            None => r is None,
        },
{
    match file_stem(path) {
        Some(stem) => Some(EnvironmentType { environment_type: stem, config_data: t.config_data }),
        None => None,
    }
}

} // verus!
