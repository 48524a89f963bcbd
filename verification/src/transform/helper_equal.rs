//! `equal` (also registered as `eq`): compares two parameters.

use vstd::prelude::*;
use crate::json::{Json, json_eq};
use super::{HelperError, HelperErrorView, HelperAction, quoted, quoted_message, deref_param};

verus! {

/// The `equal` helper.
#[derive(Clone, Copy, Debug)]
pub struct EqualHelper;

/// What a comparison helper does with the outcome of its comparison: as a
/// block it renders its template when the outcome holds and its `else` part
/// otherwise; inline it writes `true` when the outcome holds and nothing otherwise.
pub open spec fn action_matches(a: HelperAction, outcome: bool, is_block: bool) -> bool {
    if is_block {
        if outcome {
            a == HelperAction::RenderTemplate
        } else {
            a == HelperAction::RenderInverse
        }
    } else if outcome {
        a matches HelperAction::Write(t) && t@ == "true"@
    } else {
        a == HelperAction::Nothing
    }
}

/// The error of a comparison helper named `name` for missing parameters.
pub open spec fn missing_side(left: bool, name: Seq<char>) -> HelperErrorView {
    if left {
        HelperErrorView::MissingParam(quoted("Left param not found for helper \""@, name))
    } else {
        HelperErrorView::MissingParam(quoted("Right param not found for helper \""@, name))
    }
}

/// The action for a computed outcome.
pub fn comparison_result(outcome: bool, is_block: bool) -> (a: HelperAction)
    ensures
        action_matches(a, outcome, is_block),
{
    if is_block {
        if outcome {
            HelperAction::RenderTemplate
        } else {
            HelperAction::RenderInverse
        }
    } else if outcome {
        HelperAction::Write(String::from_str("true"))
    } else {
        HelperAction::Nothing
    }
}

/// The parameters of a comparison helper, or the error for the first missing one.
pub fn both_params<'a>(name: &str, left: Option<&'a Json>, right: Option<&'a Json>) -> (r: Result<
    (&'a Json, &'a Json),
    HelperError,
>)
    ensures
        left is None ==> (r matches Err(e) && e.view() == missing_side(true, name@)),
        left is Some && right is None ==> (r matches Err(e) && e.view() == missing_side(false, name@)),
        left is Some && right is Some ==> (r matches Ok(p) && *p.0 == *left->0 && *p.1 == *right->0),
{
    match (left, right) {
        (None, _) => Err(HelperError::MissingParam {
            message: quoted_message("Left param not found for helper \"", name),
        }),
        (Some(_), None) => Err(HelperError::MissingParam {
            message: quoted_message("Right param not found for helper \"", name),
        }),
        (Some(l), Some(r)) => Ok((l, r)),
    }
}

impl EqualHelper {
    /// Compares the two parameters as JSON values. Missing parameters are
    /// reported, the left one first.
    pub fn evaluate(&self, left: Option<&Json>, right: Option<&Json>, is_block: bool) -> (r: Result<
        HelperAction,
        HelperError,
    >)
        requires
            left matches Some(l) ==> l.wf(),
            right matches Some(x) ==> x.wf(),
        ensures
            left is None ==> (r matches Err(e) && e.view() == missing_side(true, "equal"@)),
            left is Some && right is None ==> (r matches Err(e) && e.view() == missing_side(
                false,
                "equal"@,
            )),
            left is Some && right is Some ==> (r matches Ok(a) && action_matches(
                a,
                left->0.view() == right->0.view(),
                is_block,
            )),
    {
        match both_params("equal", left, right) {
            Err(e) => Err(e),
            Ok((l, x)) => {
                let outcome = json_eq(l, x);
                Ok(comparison_result(outcome, is_block))
            },
        }
    }
}

} // verus!
