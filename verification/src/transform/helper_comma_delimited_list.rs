//! `comma-list`: renders its block once per element of an array and joins
//! the renderings with commas.

use vstd::prelude::*;
use crate::json::Json;
use crate::text::join_with;
use super::{HelperError, HelperErrorView, quoted, quoted_message, missing_param, deref_param};

verus! {

/// The `comma-list` helper.
#[derive(Clone, Copy, Debug)]
pub struct CommaDelimitedListHelper;

/// What the `comma-list` helper has the engine do.
#[derive(Debug, PartialEq, Eq)]
pub enum ListPlan {
    /// Render the block once for each of this many elements, then join.
    RenderEach { count: usize },
    /// Write nothing.
    Nothing,
}

/// The error for a parameter that is not an array.
pub open spec fn not_an_array() -> HelperErrorView {
    HelperErrorView::WrongParamType(
        quoted("Param type is not array for helper \""@, "comma-list"@),
    )
}

/// The texts of a list of renderings.
pub open spec fn rendered_texts(v: Seq<String>) -> Seq<Seq<char>> {
    v.map_values(|s: String| s@)
}

impl CommaDelimitedListHelper {
    /// Decides what to render: a missing parameter is an error; a block
    /// without a template renders nothing; an array is rendered element by
    /// element, null renders nothing, and any other value is an error.
    pub fn plan(&self, param: Option<&Json>, has_template: bool) -> (r: Result<ListPlan, HelperError>)
        ensures
            match deref_param(param) {
                None => r matches Err(e) && e.view() == missing_param("comma-list"@),
                Some(j) => if !has_template {
                    r == Ok::<ListPlan, HelperError>(ListPlan::Nothing)
                } else {
                    match j {
                        Json::Array(v) => r == Ok::<ListPlan, HelperError>(
                            ListPlan::RenderEach { count: v@.len() as usize },
                        ),
                        Json::Null => r == Ok::<ListPlan, HelperError>(ListPlan::Nothing),
                        _ => r matches Err(e) && e.view() == not_an_array(),
                    }
                },
            },
    {
        match param {
            None => Err(HelperError::MissingParam {
                message: quoted_message("Param not found for helper \"", "comma-list"),
            }),
            Some(j) => {
                if !has_template {
                    return Ok(ListPlan::Nothing);
                }
                match j {
                    Json::Array(v) => Ok(ListPlan::RenderEach { count: v.len() }),
                    Json::Null => Ok(ListPlan::Nothing),
                    _ => Err(HelperError::WrongParamType {
                        message: quoted_message("Param type is not array for helper \"", "comma-list"),
                    }),
                }
            },
        }
    }

    /// The renderings of the elements joined with commas.
    pub fn join(&self, rendered: &Vec<String>) -> (r: String)
        ensures
            r@ == join_with(rendered_texts(rendered@), seq![',']),
    {
        let mut r = String::new();
        let mut i: usize = 0;
        let ghost texts = rendered_texts(rendered@);
        while i < rendered.len()
            invariant
                i <= rendered@.len(),
                texts == rendered_texts(rendered@),
                r@ == join_with(texts.take(i as int), seq![',']),
            decreases rendered@.len() - i,
        {
            assert(texts.take(i + 1).drop_last() =~= texts.take(i as int));
            assert(texts[i as int] == rendered@[i as int]@);
            if i > 0 {
                crate::text::push_char(&mut r, ',');
            } else {
                assert(texts.take(0) =~= Seq::<Seq<char>>::empty());
            }
            r.append(rendered[i].as_str());
            i = i + 1;
        }
        assert(texts.take(rendered@.len() as int) =~= texts);
        r
    }
}

} // verus!

verus! {

/// The renderings are joined as they are, in order, with one comma between
/// consecutive renderings and none elsewhere: no rendering gives the empty
/// text, one gives that rendering, and each further rendering adds a comma
/// and itself.
pub proof fn law_comma_list_joins(v: Seq<String>)
    ensures
        rendered_texts(v) == v.map_values(|s: String| s@),
        v.len() == 0 ==> join_with(rendered_texts(v), seq![',']) == Seq::<char>::empty(),
        v.len() == 1 ==> join_with(rendered_texts(v), seq![',']) == v[0]@,
        v.len() >= 2 ==> join_with(rendered_texts(v), seq![',']) == join_with(
            rendered_texts(v.drop_last()),
            seq![','],
        ) + seq![','] + v.last()@,
{
    if v.len() >= 2 {
        assert(rendered_texts(v).drop_last() =~= rendered_texts(v.drop_last()));
        assert(rendered_texts(v).last() == v.last()@);
    }
    if v.len() == 1 {
        assert(rendered_texts(v)[0] == v[0]@);
    }
}

} // verus!
