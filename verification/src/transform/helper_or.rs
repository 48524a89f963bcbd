//! `or`: holds when either parameter is a non-empty string.

use vstd::prelude::*;
use crate::json::Json;
use super::{HelperError, HelperAction, deref_param};
use super::helper_equal::{both_params, comparison_result, action_matches, missing_side};

verus! {

/// The `or` helper.
#[derive(Clone, Copy, Debug)]
pub struct OrHelper;

/// The value is a string with at least one character.
pub open spec fn is_nonempty_string(j: Json) -> bool {
    j matches Json::String(s) && s@.len() > 0
}

/// Whether `j` is a non-empty string.
pub fn nonempty_string(j: &Json) -> (b: bool)
    ensures
        b == is_nonempty_string(*j),
{
    match j {
        Json::String(s) => !s.as_str().is_empty(),
        _ => false,
    }
}

impl OrHelper {
    /// Holds when the left or the right parameter is a non-empty string.
    /// Missing parameters are reported, the left one first.
    pub fn evaluate(&self, left: Option<&Json>, right: Option<&Json>, is_block: bool) -> (r: Result<
        HelperAction,
        HelperError,
    >)
        ensures
            left is None ==> (r matches Err(e) && e.view() == missing_side(true, "or"@)),
            left is Some && right is None ==> (r matches Err(e) && e.view() == missing_side(
                false,
                "or"@,
            )),
            left is Some && right is Some ==> (r matches Ok(a) && action_matches(
                a,
                is_nonempty_string(*left->0) || is_nonempty_string(*right->0),
                is_block,
            )),
    {
        match both_params("or", left, right) {
            Err(e) => Err(e),
            Ok((l, x)) => {
                let outcome = nonempty_string(l) || nonempty_string(x);
                Ok(comparison_result(outcome, is_block))
            },
        }
    }
}

} // verus!
