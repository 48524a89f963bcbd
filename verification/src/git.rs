//! The decisions around git operations: which credentials to offer, when to
//! report transfer progress, the steps of a reset, and how commits are named.

use vstd::prelude::*;
use vstd::utf8::{is_char_boundary, encode_utf8};
use crate::text::starts_with;

verus! {

/// The credentials offered to a git remote.
#[derive(Debug, Clone, Copy, PartialEq, Eq, Structural)]
pub enum Credentials {
    /// The user name and password of the URL.
    UserPassword,
    /// The SSH key.
    SshKey,
    /// None besides git's defaults.
    Default,
}

/// For a clone, a password in the URL wins over an SSH key.
pub fn clone_credentials(url_has_password: bool, has_ssh_key: bool) -> (c: Credentials)
    ensures
        url_has_password ==> c == Credentials::UserPassword,
        !url_has_password && has_ssh_key ==> c == Credentials::SshKey,
        !url_has_password && !has_ssh_key ==> c == Credentials::Default,
{
    if url_has_password {
        Credentials::UserPassword
    } else if has_ssh_key {
        Credentials::SshKey
    } else {
        Credentials::Default
    }
}

/// For a fetch, an SSH key wins over the password of a known URL.
pub fn fetch_credentials(has_ssh_key: bool, url_has_password: bool) -> (c: Credentials)
    ensures
        has_ssh_key ==> c == Credentials::SshKey,
        !has_ssh_key && url_has_password ==> c == Credentials::UserPassword,
        !has_ssh_key && !url_has_password ==> c == Credentials::Default,
{
    if has_ssh_key {
        Credentials::SshKey
    } else if url_has_password {
        Credentials::UserPassword
    } else {
        Credentials::Default
    }
}

/// Which transfer progress to report.
#[derive(Debug, Clone, Copy, PartialEq, Eq, Structural)]
pub enum ProgressReport {
    ResolvingDeltas,
    ReceivedObjects,
    Quiet,
}

/// `count` is a multiple of a tenth of `total` (every count is, where the
/// tenth is zero), or has reached `total`.
pub open spec fn at_tenth(count: int, total: int) -> bool {
    total / 10 == 0 || count % (total / 10) == 0 || count == total
}

/// The progress to report: once every object is received, the indexing
/// progress at each tenth; before that, the receiving progress at each tenth.
pub open spec fn progress_spec(received: int, total: int, indexed: int) -> ProgressReport {
    if received == total {
        if at_tenth(indexed, total) {
            ProgressReport::ResolvingDeltas
        } else {
            ProgressReport::Quiet
        }
    } else if total > 0 && at_tenth(received, total) {
        ProgressReport::ReceivedObjects
    } else {
        ProgressReport::Quiet
    }
}

/// Decides which transfer progress to report.
pub fn transfer_progress(received: usize, total: usize, indexed: usize) -> (r: ProgressReport)
    ensures
        r == progress_spec(received as int, total as int, indexed as int),
{
    let step = total / 10;
    if received == total {
        if step == 0 || indexed % step == 0 || total == indexed {
            ProgressReport::ResolvingDeltas
        } else {
            ProgressReport::Quiet
        }
    } else if total > 0 {
        if step == 0 || received % step == 0 || total == received {
            ProgressReport::ReceivedObjects
        } else {
            ProgressReport::Quiet
        }
    } else {
        ProgressReport::Quiet
    }
}

/// Where a reset of the repository stands.
#[derive(Debug, Clone, Copy, PartialEq, Eq, Structural)]
pub enum ResetPhase {
    Start,
    ForcedFetch,
    FirstDetach,
    RetryFetch,
    SecondDetach,
}

/// The next step of a reset.
#[derive(Debug, Clone, Copy, PartialEq, Eq, Structural)]
pub enum ResetAction {
    /// Fetch from the remote.
    Fetch,
    /// Point the head at the requested revision.
    DetachHead,
    /// Read the commit of the head, which ends the reset.
    ReadHead,
    /// Report the failure of the last step, which ends the reset.
    Fail,
}

/// The phase after the head is moved, or the head read where no revision is requested.
pub open spec fn after_fetch(has_sha: bool) -> (ResetPhase, ResetAction) {
    if has_sha {
        (ResetPhase::FirstDetach, ResetAction::DetachHead)
    } else {
        (ResetPhase::Start, ResetAction::ReadHead)
    }
}

/// The next phase and step of a reset: a forced refresh fetches first; a
/// requested revision is checked out, and if it is unknown the remote is
/// fetched once and the checkout tried again; the reset ends by reading the
/// head, or with the failure of a fetch or of the second checkout.
pub open spec fn reset_spec(phase: ResetPhase, force_refresh: bool, has_sha: bool, last_ok: bool) -> (
    ResetPhase,
    ResetAction,
) {
    match phase {
        ResetPhase::Start => if force_refresh {
            (ResetPhase::ForcedFetch, ResetAction::Fetch)
        } else {
            after_fetch(has_sha)
        },
        ResetPhase::ForcedFetch => if last_ok {
            after_fetch(has_sha)
        } else {
            (ResetPhase::ForcedFetch, ResetAction::Fail)
        },
        ResetPhase::FirstDetach => if last_ok {
            (ResetPhase::FirstDetach, ResetAction::ReadHead)
        } else {
            (ResetPhase::RetryFetch, ResetAction::Fetch)
        },
        ResetPhase::RetryFetch => if last_ok {
            (ResetPhase::SecondDetach, ResetAction::DetachHead)
        } else {
            (ResetPhase::RetryFetch, ResetAction::Fail)
        },
        ResetPhase::SecondDetach => if last_ok {
            (ResetPhase::SecondDetach, ResetAction::ReadHead)
        } else {
            (ResetPhase::SecondDetach, ResetAction::Fail)
        },
    }
}

/// Decides the next step of a reset from its phase and whether the last step
/// succeeded (ignored at the start).
pub fn reset_step(phase: ResetPhase, force_refresh: bool, has_sha: bool, last_ok: bool) -> (r: (
    ResetPhase,
    ResetAction,
))
    ensures
        r == reset_spec(phase, force_refresh, has_sha, last_ok),
{
    match phase {
        ResetPhase::Start => if force_refresh {
            (ResetPhase::ForcedFetch, ResetAction::Fetch)
        } else if has_sha {
            (ResetPhase::FirstDetach, ResetAction::DetachHead)
        } else {
            (ResetPhase::Start, ResetAction::ReadHead)
        },
        ResetPhase::ForcedFetch => if !last_ok {
            (ResetPhase::ForcedFetch, ResetAction::Fail)
        } else if has_sha {
            (ResetPhase::FirstDetach, ResetAction::DetachHead)
        } else {
            (ResetPhase::Start, ResetAction::ReadHead)
        },
        ResetPhase::FirstDetach => if last_ok {
            (ResetPhase::FirstDetach, ResetAction::ReadHead)
        } else {
            (ResetPhase::RetryFetch, ResetAction::Fetch)
        },
        ResetPhase::RetryFetch => if last_ok {
            (ResetPhase::SecondDetach, ResetAction::DetachHead)
        } else {
            (ResetPhase::RetryFetch, ResetAction::Fail)
        },
        ResetPhase::SecondDetach => if last_ok {
            (ResetPhase::SecondDetach, ResetAction::ReadHead)
        } else {
            (ResetPhase::SecondDetach, ResetAction::Fail)
        },
    }
}

/// A reset that is not forced and whose revision is found at once reads the
/// head right after the checkout, without fetching; one whose revision is
/// unknown fetches exactly once more and then checks out again.
pub proof fn law_reset_fetches_only_when_needed(has_sha: bool)
    ensures
        reset_spec(ResetPhase::Start, false, has_sha, true) == after_fetch(has_sha),
        reset_spec(ResetPhase::FirstDetach, false, has_sha, true).1 == ResetAction::ReadHead,
        reset_spec(ResetPhase::FirstDetach, false, has_sha, false) == (
            ResetPhase::RetryFetch,
            ResetAction::Fetch,
        ),
        reset_spec(ResetPhase::RetryFetch, false, has_sha, true) == (
            ResetPhase::SecondDetach,
            ResetAction::DetachHead,
        ),
        reset_spec(ResetPhase::SecondDetach, false, has_sha, false).1 == ResetAction::Fail,
{
}

/// The bytes of a short commit name: the first seven bytes of the full name.
pub open spec fn short_sha_bytes(b: Seq<u8>) -> Seq<u8> {
    b.take(7)
}

/// The first seven characters of a full commit name (a hexadecimal object id).
pub fn find_ref_sha(full: &str) -> (r: String)
    requires
        encode_utf8(full@).len() >= 7,
        is_char_boundary(encode_utf8(full@), 7),
    ensures
        encode_utf8(r@) == short_sha_bytes(encode_utf8(full@)),
{
    let (head, _) = full.split_at(7);
    assert(encode_utf8(full@).subrange(0, 7) =~= encode_utf8(full@).take(7));
    head.to_owned()
}

/// The name of a remote branch: `remote/branch`.
pub fn remote_branch(remote: &str, branch: &str) -> (r: String)
    ensures
        r@ == remote@ + seq!['/'] + branch@,
{
    let mut r = remote.to_owned();
    crate::text::push_char(&mut r, '/');
    r.append(branch);
    r
}

/// Every reset ends by reading the head once its last step succeeded: a
/// successful checkout (first or second, whether or not forced) and, without
/// a requested revision, a successful forced fetch both lead to reading the
/// head; a fetch after a failed first checkout is followed by a second
/// checkout. A reset fails only right after a failed fetch or a failed second
/// checkout, and never at its start or after a failed first checkout.
pub proof fn law_reset_fails_only_on_failed_fetch_or_retry(
    phase: ResetPhase,
    force_refresh: bool,
    has_sha: bool,
    last_ok: bool,
)
    ensures
        reset_spec(ResetPhase::FirstDetach, force_refresh, has_sha, true).1 == ResetAction::ReadHead,
        reset_spec(ResetPhase::SecondDetach, force_refresh, has_sha, true).1 == ResetAction::ReadHead,
        reset_spec(ResetPhase::RetryFetch, force_refresh, has_sha, true).1 == ResetAction::DetachHead,
        reset_spec(ResetPhase::FirstDetach, force_refresh, has_sha, false).1 == ResetAction::Fetch,
        reset_spec(ResetPhase::ForcedFetch, force_refresh, false, true).1 == ResetAction::ReadHead,
        reset_spec(ResetPhase::ForcedFetch, force_refresh, true, true).1 == ResetAction::DetachHead,
        reset_spec(ResetPhase::Start, false, false, last_ok).1 == ResetAction::ReadHead,
        reset_spec(ResetPhase::Start, false, true, last_ok).1 == ResetAction::DetachHead,
        reset_spec(ResetPhase::Start, true, has_sha, last_ok).1 == ResetAction::Fetch,
        reset_spec(phase, force_refresh, has_sha, last_ok).1 == ResetAction::Fail ==> !last_ok && (
        phase == ResetPhase::ForcedFetch || phase == ResetPhase::RetryFetch || phase
            == ResetPhase::SecondDetach),
{
}

} // verus!
