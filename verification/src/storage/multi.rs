//! A chain of caches read in order: a hit in a later cache is written back
//! to the caches before it, which missed.

use vstd::prelude::*;
use crate::text::{join_with, string_texts};

verus! {

/// The name of a chain of caches: the names of its caches joined with `+`.
pub fn cache_id(ids: &Vec<String>) -> (r: String)
    ensures
        r@ == join_with(string_texts(ids@), seq!['+']),
{
    let mut r = String::new();
    let mut i: usize = 0;
    let ghost texts = string_texts(ids@);
    while i < ids.len()
        invariant
            i <= ids@.len(),
            texts == string_texts(ids@),
            r@ == join_with(texts.take(i as int), seq!['+']),
        decreases ids@.len() - i,
    {
        assert(texts.take(i + 1).drop_last() =~= texts.take(i as int));
        assert(texts[i as int] == ids@[i as int]@);
        if i > 0 {
            crate::text::push_char(&mut r, '+');
        } else {
            assert(texts.take(0) =~= Seq::<Seq<char>>::empty());
        }
        r.append(ids[i].as_str());
        i = i + 1;
    }
    assert(texts.take(ids@.len() as int) =~= texts);
    r
}

/// What one cache of the chain answered.
#[derive(Debug, PartialEq, Eq, Clone, Copy, Structural)]
pub enum Lookup {
    Hit,
    Miss,
    Failed,
}

/// What the chain does after the answer of cache `index`.
#[derive(Debug, PartialEq, Eq, Clone, Copy, Structural)]
pub enum ReadStep {
    /// Ask the next cache.
    Next,
    /// Write the value back to the first `count` caches, then return it.
    WriteBack { count: usize },
    /// Return the failure.
    Fail,
    /// No cache has the value.
    Absent,
}

/// The step after cache `index` of `count` caches answered `lookup`.
pub open spec fn read_step_spec(index: nat, count: nat, lookup: Lookup) -> ReadStep {
    match lookup {
        Lookup::Hit => ReadStep::WriteBack { count: index as usize },
        Lookup::Failed => ReadStep::Fail,
        Lookup::Miss => if index + 1 < count {
            ReadStep::Next
        } else {
            ReadStep::Absent
        },
    }
}

/// Decides what the chain does after cache `index` answered: a hit is
/// written back to the caches before it (all of which missed) and returned,
/// a failure is returned, and a miss moves on to the next cache, or ends the
/// read when it was the last.
pub fn read_step(index: usize, count: usize, lookup: Lookup) -> (s: ReadStep)
    requires
        index < count,
    ensures
        s == read_step_spec(index as nat, count as nat, lookup),
{
    match lookup {
        Lookup::Hit => ReadStep::WriteBack { count: index },
        Lookup::Failed => ReadStep::Fail,
        Lookup::Miss => if index + 1 < count {
            ReadStep::Next
        } else {
            ReadStep::Absent
        },
    }
}

/// Running the steps over the answers of all caches in order reaches, at the
/// first cache that does not miss, a write-back to exactly the caches before
/// it (for a hit) or the failure; when every cache misses, the read ends with
/// nothing found at the last cache.
pub proof fn law_read_stops_at_first_answer(answers: Seq<Lookup>, i: int)
    requires
        0 <= i < answers.len(),
        forall|j: int| 0 <= j < i ==> answers[j] == Lookup::Miss,
    ensures
        forall|j: int|
            0 <= j < i ==> read_step_spec(j as nat, answers.len(), #[trigger] answers[j])
                == ReadStep::Next,
        answers[i] == Lookup::Hit ==> read_step_spec(i as nat, answers.len(), answers[i])
            == (ReadStep::WriteBack { count: i as usize }),
        answers[i] == Lookup::Failed ==> read_step_spec(i as nat, answers.len(), answers[i])
            == ReadStep::Fail,
        answers[i] == Lookup::Miss && i == answers.len() - 1 ==> read_step_spec(
            i as nat,
            answers.len(),
            answers[i],
        ) == ReadStep::Absent,
{
}

} // verus!
