//! The errors of the library, and how the service answers each of them.

use vstd::prelude::*;

verus! {

/// What can go wrong while serving configuration.
#[derive(Debug)]
pub enum HoganError {
    GitError { msg: String },
    UnknownSHA { sha: String },
    UnknownBranch { branch: String },
    UnknownEnvironment { sha: String, env: String },
    InvalidTemplate { msg: String },
    BadRequest,
    InternalTimeout,
    InvalidConfiguration { param: String, msg: String },
    UnknownError { msg: String },
}

/// The HTTP answer to an error: a status code and, for some errors, a JSON
/// object body given as its key/value pairs.
#[derive(Debug)]
pub struct ErrorResponse {
    pub status: u16,
    pub body: Option<Vec<(String, String)>>,
}

/// The status code that answers an error.
pub open spec fn error_status(e: HoganError) -> u16 {
    match e {
        HoganError::BadRequest => 502,
        HoganError::GitError { .. } => 500,
        HoganError::UnknownBranch { .. } => 404,
        HoganError::UnknownSHA { .. } => 404,
        HoganError::InvalidTemplate { .. } => 400,
        HoganError::UnknownEnvironment { .. } => 404,
        HoganError::InternalTimeout => 503,
        _ => 500,
    }
}

/// The body that answers an error, as key/value texts.
pub open spec fn error_body(e: HoganError) -> Option<Seq<(Seq<char>, Seq<char>)>> {
    match e {
        HoganError::GitError { msg } => Some(seq![("message"@, msg@)]),
        HoganError::UnknownBranch { branch } => Some(
            seq![("branch"@, branch@), ("message"@, "Unknown branch"@)],
        ),
        HoganError::UnknownSHA { sha } => Some(seq![("sha"@, sha@), ("message"@, "Unknown sha"@)]),
        HoganError::InvalidTemplate { msg } => Some(seq![("message"@, msg@)]),
        HoganError::UnknownEnvironment { sha, env } => Some(
            seq![("sha"@, sha@), ("environment"@, env@), ("message"@, "Unknown Environment"@)],
        ),
        _ => None,
    }
}

/// The texts of a body.
pub open spec fn body_texts(b: Option<Vec<(String, String)>>) -> Option<Seq<(Seq<char>, Seq<char>)>> {
    match b {
        Some(v) => Some(v@.map_values(|p: (String, String)| (p.0@, p.1@))),
        None => None,
    }
}

fn pair(k: &str, v: &str) -> (p: (String, String))
    ensures
        p.0@ == k@,
        p.1@ == v@,
{
    (k.to_owned(), v.to_owned())
}

/// The answer to an error: a bad request is answered as a bad gateway; git
/// errors and invalid templates carry their message; unknown branches, SHAs
/// and environments are not found and name what was asked for; a timeout
/// means the service is unavailable; anything else is an internal error.
pub fn create_error_response(e: &HoganError) -> (r: ErrorResponse)
    ensures
        r.status == error_status(*e),
        body_texts(r.body) == error_body(*e),
{
    let (status, body): (u16, Option<Vec<(String, String)>>) = match e {
        HoganError::BadRequest => (502, None),
        HoganError::GitError { msg } => {
            let mut body = Vec::new();
            body.push(pair("message", msg.as_str()));
            (500, Some(body))
        },
        HoganError::UnknownBranch { branch } => {
            let mut body = Vec::new();
            body.push(pair("branch", branch.as_str()));
            body.push(pair("message", "Unknown branch"));
            (404, Some(body))
        },
        HoganError::UnknownSHA { sha } => {
            let mut body = Vec::new();
            body.push(pair("sha", sha.as_str()));
            body.push(pair("message", "Unknown sha"));
            (404, Some(body))
        },
        HoganError::InvalidTemplate { msg } => {
            let mut body = Vec::new();
            body.push(pair("message", msg.as_str()));
            (400, Some(body))
        },
        HoganError::UnknownEnvironment { sha, env } => {
            let mut body = Vec::new();
            body.push(pair("sha", sha.as_str()));
            body.push(pair("environment", env.as_str()));
            body.push(pair("message", "Unknown Environment"));
            (404, Some(body))
        },
        HoganError::InternalTimeout => (503, None),
        _ => (500, None),
    };
    let r = ErrorResponse { status, body };
    proof {
        if r.body is Some {
            assert(body_texts(r.body)->0 =~= error_body(*e)->0);
        }
    }
    r
}

/// The error for a failure of the git library, with its message.
pub fn git_error(message: String) -> (e: HoganError)
    ensures
        e == (HoganError::GitError { msg: message }),
{
    HoganError::GitError { msg: message }
}

} // verus!
