//! Template files and the files they are rendered to.

use vstd::prelude::*;
use crate::error::HoganError;
use crate::text::{replace_all, replace, starts_with};
use crate::urls::option_text;

verus! {

/// A directory of templates.
#[derive(Debug)]
pub struct TemplateDir {
    pub directory: String,
}

impl TemplateDir {
    /// A template directory at `path`, which must be a directory (`is_dir`
    /// tells whether it is one).
    pub fn new(path: String, is_dir: bool) -> (r: Result<TemplateDir, HoganError>)
        ensures
            is_dir ==> (r matches Ok(d) && d.directory@ == path@),
            !is_dir ==> (r matches Err(HoganError::UnknownError { msg }) && msg@
                == "Unable to find the template path"@),
    {
        if !is_dir {
            Err(HoganError::UnknownError { msg: String::from_str("Unable to find the template path") })
        } else {
            Ok(TemplateDir { directory: path })
        }
    }
}

/// A template file and its contents.
#[derive(Debug)]
pub struct Template {
    pub path: String,
    pub contents: String,
}

/// A rendered template: where it is written and what.
#[derive(Debug)]
pub struct Rendered {
    pub path: String,
    pub contents: Vec<u8>,
}

/// The file name of a path (`std::path::Path::file_name`), if it has one.
pub uninterp spec fn path_file_name(path: Seq<char>) -> Option<Seq<char>>;

/// The path with its file name replaced (`std::path::Path::with_file_name`).
pub uninterp spec fn path_with_file_name(path: Seq<char>, name: Seq<char>) -> Seq<char>;

/// The file name of `path` (`Path::file_name`), as a function of the text.
#[verifier::external_body]
pub(crate) fn file_name(path: &str) -> (r: Option<String>)
    ensures
        option_text(r) == path_file_name(path@),
{
    std::path::Path::new(path).file_name().map(|n| n.to_string_lossy().into_owned())
}

/// `path` with its file name replaced by `name` (`Path::with_file_name`).
#[verifier::external_body]
pub(crate) fn with_file_name(path: &str, name: &str) -> (r: String)
    ensures
        r@ == path_with_file_name(path@, name@),
{
    std::path::Path::new(path).with_file_name(name).to_string_lossy().into_owned()
}

/// Where a template is rendered for an environment: beside the template,
/// under its file name with every `template` replaced by the environment's name.
pub open spec fn rendered_path(path: Seq<char>, environment: Seq<char>) -> Option<Seq<char>> {
    match path_file_name(path) {
        Some(name) => Some(
            path_with_file_name(path, replace_all(name, "template"@, environment)),
        ),
        None => None,
    }
}

impl Template {
    /// The rendered file for an environment, given what the template rendered
    /// to; `None` for a template path without a file name.
    pub fn rendered(&self, environment: &str, contents: Vec<u8>) -> (r: Option<Rendered>)
        ensures
            match rendered_path(self.path@, environment@) {
                Some(p) => r matches Some(x) && x.path@ == p && x.contents@ == contents@,
                None => r is None,
            },
    {
        proof {
            reveal_strlit("template");
        }
        match file_name(self.path.as_str()) {
            Some(name) => {
                let renamed = replace(name.as_str(), "template", environment);
                let path = with_file_name(self.path.as_str(), renamed.as_str());
                Some(Rendered { path, contents })
            },
            None => None,
        }
    }
}

/// The rendered file sits beside the template, named after the template's
/// file name with every occurrence of `template` replaced by the
/// environment's name; a file name that starts with `template` therefore
/// renders to one that starts with the environment's name.
pub proof fn law_rendered_file_name(path: Seq<char>, environment: Seq<char>)
    ensures
        rendered_path(path, environment) == match path_file_name(path) {
            Some(name) => Some(
                path_with_file_name(path, replace_all(name, "template"@, environment)),
            ),
            None => None,
        },
        match path_file_name(path) {
            Some(name) => starts_with(name, "template"@) ==> rendered_path(path, environment)
                == Some(
                path_with_file_name(
                    path,
                    environment + replace_all(name.skip(8), "template"@, environment),
                ),
            ),
            None => true,
        },
{
    reveal_strlit("template");
}

} // verus!
