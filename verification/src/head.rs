//! Bookkeeping of branch-head lookups: concurrent requests for the same
//! branch share one lookup, and every requester is answered once when the
//! lookup (or its timeout) reports back.

use vstd::prelude::*;
use crate::assoc::{keys_unique, pairs_map, key_index, lemma_key_index, lemma_pairs_map_push,
    lemma_pairs_map_update, lemma_pairs_map_remove};

verus! {

/// What is known of one pending lookup: the id it was started under and the
/// requesters waiting for it, in arrival order.
pub struct PendingQuery {
    pub request_id: u128,
    pub waiting: Seq<u64>,
}

/// What a new request for a branch head leads to.
#[derive(PartialEq, Eq, Structural, Debug)]
pub enum QueryOutcome {
    /// A lookup for the branch is already running; the requester waits for it.
    Joined,
    /// No lookup was running; one has to be started under this id.
    Started { request_id: u128 },
}

struct PendingEntry {
    branch: String,
    request_id: u128,
    waiting: Vec<u64>,
}

/// Pending branch-head lookups, keyed by branch name.
pub struct HeadRequestHolder {
    entries: Vec<PendingEntry>,
}

/// The state after a request of `requester` for `branch`, with `fresh_id` used
/// if a lookup has to be started, and what the request leads to.
pub open spec fn query_step(
    m: Map<Seq<char>, PendingQuery>,
    branch: Seq<char>,
    requester: u64,
    fresh_id: u128,
) -> (Map<Seq<char>, PendingQuery>, QueryOutcome) {
    if m.contains_key(branch) {
        (
            m.insert(
                branch,
                PendingQuery {
                    request_id: m[branch].request_id,
                    waiting: m[branch].waiting.push(requester),
                },
            ),
            QueryOutcome::Joined,
        )
    } else {
        (
            m.insert(branch, PendingQuery { request_id: fresh_id, waiting: seq![requester] }),
            QueryOutcome::Started { request_id: fresh_id },
        )
    }
}

/// A lookup result (or timeout) for `branch` carrying `id` is the current one.
pub open spec fn is_current(m: Map<Seq<char>, PendingQuery>, branch: Seq<char>, id: u128) -> bool {
    m.contains_key(branch) && m[branch].request_id == id
}

/// The state after a result for `branch` under `id`, and the requesters answered.
pub open spec fn complete_step(m: Map<Seq<char>, PendingQuery>, branch: Seq<char>, id: u128) -> (
    Map<Seq<char>, PendingQuery>,
    Option<Seq<u64>>,
) {
    if is_current(m, branch, id) {
        (m.remove(branch), Some(m[branch].waiting))
    } else {
        (m, None)
    }
}

/// The state after the requests `requesters` for `branch`, one after the other,
/// where the k-th request may start a lookup under `ids[k]`.
pub open spec fn queries_step(
    m: Map<Seq<char>, PendingQuery>,
    branch: Seq<char>,
    requesters: Seq<u64>,
    ids: Seq<u128>,
) -> Map<Seq<char>, PendingQuery>
    decreases requesters.len(),
{
    if requesters.len() == 0 || ids.len() < requesters.len() {
        m
    } else {
        query_step(
            queries_step(m, branch, requesters.drop_last(), ids.drop_last()),
            branch,
            requesters.last(),
            ids[requesters.len() - 1],
        ).0
    }
}

impl PendingEntry {
    spec fn pair(&self) -> (Seq<char>, PendingQuery) {
        (self.branch@, PendingQuery { request_id: self.request_id, waiting: self.waiting@ })
    }
}

impl HeadRequestHolder {
    spec fn pairs(&self) -> Seq<(Seq<char>, PendingQuery)> {
        Seq::new(self.entries@.len(), |i: int| self.entries@[i].pair())
    }

    /// Pending lookups by branch.
    pub closed spec fn view(&self) -> Map<Seq<char>, PendingQuery> {
        pairs_map(self.pairs())
    }

    /// Each branch is pending at most once, and a pending lookup has a requester.
    pub closed spec fn wf(&self) -> bool {
        &&& keys_unique(self.pairs())
        &&& forall|i: int| 0 <= i < self.entries@.len() ==> self.entries@[i].waiting@.len() > 0
    }

    /// Every pending lookup has at least one waiting requester.
    pub proof fn lemma_waiting_nonempty(&self, branch: Seq<char>)
        requires
            self.wf(),
            self.view().contains_key(branch),
        ensures
            self.view()[branch].waiting.len() > 0,
    {
        lemma_key_index(self.pairs(), branch);
        let i = key_index(self.pairs(), branch)->0;
        assert(self.pairs()[i] == self.entries@[i].pair());
    }

    /// No lookup pending.
    pub fn new() -> (h: Self)
        ensures
            h.wf(),
            h.view() == Map::<Seq<char>, PendingQuery>::empty(),
    {
        let h = HeadRequestHolder { entries: Vec::new() };
        assert(h.pairs() =~= Seq::<(Seq<char>, PendingQuery)>::empty());
        h
    }

    fn find(&self, branch: &str) -> (r: Option<usize>)
        requires
            self.wf(),
        ensures
            r matches Some(i) ==> i < self.entries@.len() && key_index(self.pairs(), branch@) == Some(
                i as int,
            ),
            r is None ==> key_index(self.pairs(), branch@) is None,
    {
        let key = branch.to_owned();
        let mut i: usize = 0;
        proof {
            lemma_key_index(self.pairs(), branch@);
        }
        while i < self.entries.len()
            invariant
                i <= self.entries@.len(),
                key@ == branch@,
                keys_unique(self.pairs()),
                forall|j: int| 0 <= j < i ==> self.pairs()[j].0 != branch@,
                forall|j: int|
                    0 <= j < self.pairs().len() && self.pairs()[j].0 == branch@ ==> key_index(
                        self.pairs(),
                        branch@,
                    ) == Some(j),
            decreases self.entries@.len() - i,
        {
            if self.entries[i].branch == key {
                assert(self.pairs()[i as int].0 == branch@);
                return Some(i);
            }
            assert(self.pairs()[i as int].0 != branch@);
            i = i + 1;
        }
        assert(!(exists|j: int| 0 <= j < self.pairs().len() && self.pairs()[j].0 == branch@));
        None
    }

    /// Records a request of `requester` for the head of `branch`. If no lookup
    /// for the branch is pending, one is registered under `fresh_id` and the
    /// caller has to start it; otherwise the requester joins the pending one.
    pub fn query(&mut self, branch: &str, requester: u64, fresh_id: u128) -> (o: QueryOutcome)
        requires
            old(self).wf(),
        ensures
            final(self).wf(),
            (final(self).view(), o) == query_step(old(self).view(), branch@, requester, fresh_id),
    {
        proof {
            lemma_key_index(self.pairs(), branch@);
        }
        match self.find(branch) {
            Some(i) => {
                let ghost old_pairs = self.pairs();
                let mut entry = self.entries.remove(i);
                entry.waiting.push(requester);
                self.entries.insert(i, entry);
                proof {
                    let upd = PendingQuery {
                        request_id: old_pairs[i as int].1.request_id,
                        waiting: old_pairs[i as int].1.waiting.push(requester),
                    };
                    lemma_pairs_map_update(old_pairs, i as int, upd);
                    assert(self.pairs() =~= old_pairs.update(i as int, (old_pairs[i as int].0, upd)));
                    assert forall|j: int| 0 <= j < self.entries@.len() implies self.entries@[j].waiting@.len() > 0 by {
                        if j != i {
                            assert(self.entries@[j] == old(self).entries@[j]);
                        }
                    }
                }
                QueryOutcome::Joined
            },
            None => {
                let ghost old_pairs = self.pairs();
                let mut waiting = Vec::new();
                waiting.push(requester);
                self.entries.push(PendingEntry { branch: branch.to_owned(), request_id: fresh_id, waiting });
                proof {
                    let p = PendingQuery { request_id: fresh_id, waiting: seq![requester] };
                    lemma_pairs_map_push(old_pairs, branch@, p);
                    assert(self.pairs() =~= old_pairs.push((branch@, p)));
                    assert forall|j: int| 0 <= j < self.entries@.len() implies self.entries@[j].waiting@.len() > 0 by {
                        if j < old_pairs.len() {
                            assert(self.entries@[j] == old(self).entries@[j]);
                        }
                    }
                }
                QueryOutcome::Started { request_id: fresh_id }
            },
        }
    }

    /// Whether a result or timeout for `branch` under `id` belongs to the pending lookup.
    pub fn check_request_id(&self, branch: &str, id: u128) -> (b: bool)
        requires
            self.wf(),
        ensures
            b == is_current(self.view(), branch@, id),
    {
        proof {
            lemma_key_index(self.pairs(), branch@);
        }
        match self.find(branch) {
            Some(i) => {
                assert(self.pairs()[i as int] == self.entries@[i as int].pair());
                self.entries[i].request_id == id
            },
            None => false,
        }
    }

    /// Delivers a lookup result for `branch` under `id`: if it belongs to the
    /// pending lookup, the waiting requesters are returned and the branch is no
    /// longer pending; an outdated or unknown result changes nothing.
    pub fn complete(&mut self, branch: &str, id: u128) -> (r: Option<Vec<u64>>)
        requires
            old(self).wf(),
        ensures
            final(self).wf(),
            (final(self).view(), match r {
                Some(v) => Some(v@),
                None => None,
            }) == complete_step(old(self).view(), branch@, id),
    {
        proof {
            lemma_key_index(self.pairs(), branch@);
        }
        match self.find(branch) {
            Some(i) => {
                assert(self.pairs()[i as int] == self.entries@[i as int].pair());
                if self.entries[i].request_id != id {
                    return None;
                }
                let ghost old_pairs = self.pairs();
                let entry = self.entries.remove(i);
                proof {
                    lemma_pairs_map_remove(old_pairs, i as int);
                    assert(self.pairs() =~= old_pairs.remove(i as int));
                    assert forall|j: int| 0 <= j < self.entries@.len() implies self.entries@[j].waiting@.len() > 0 by {
                        if j < i {
                            assert(self.entries@[j] == old(self).entries@[j]);
                        } else {
                            assert(self.entries@[j] == old(self).entries@[j + 1]);
                        }
                    }
                }
                Some(entry.waiting)
            },
            None => None,
        }
    }

    /// Delivers a lookup result for `branch` whatever id it was started under.
    pub fn complete_any(&mut self, branch: &str) -> (r: Option<Vec<u64>>)
        requires
            old(self).wf(),
        ensures
            final(self).wf(),
            old(self).view().contains_key(branch@) ==> (r matches Some(v) && v@ == old(
                self,
            ).view()[branch@].waiting && final(self).view() == old(self).view().remove(branch@)),
            !old(self).view().contains_key(branch@) ==> r is None && final(self).view() == old(
                self,
            ).view(),
    {
        proof {
            lemma_key_index(self.pairs(), branch@);
        }
        match self.find(branch) {
            Some(i) => {
                assert(self.pairs()[i as int] == self.entries@[i as int].pair());
                let id = self.entries[i].request_id;
                self.complete(branch, id)
            },
            None => None,
        }
    }
}

/// A run of requests for one branch that is not pending starts exactly one
/// lookup (under the first id), and the result of that lookup answers every
/// requester of the run, in arrival order, leaving the other branches as they were.
pub proof fn law_requests_share_one_lookup(
    m: Map<Seq<char>, PendingQuery>,
    branch: Seq<char>,
    requesters: Seq<u64>,
    ids: Seq<u128>,
)
    requires
        !m.contains_key(branch),
        requesters.len() > 0,
        ids.len() == requesters.len(),
    ensures
        queries_step(m, branch, requesters, ids).contains_key(branch),
        queries_step(m, branch, requesters, ids)[branch] == (PendingQuery {
            request_id: ids[0],
            waiting: requesters,
        }),
        queries_step(m, branch, requesters, ids).remove(branch) == m.remove(branch),
        complete_step(queries_step(m, branch, requesters, ids), branch, ids[0]) == (
            m,
            Some(requesters),
        ),
    decreases requesters.len(),
{
    let q = queries_step(m, branch, requesters, ids);
    if requesters.len() == 1 {
        assert(requesters.drop_last() =~= Seq::<u64>::empty());
        assert(queries_step(m, branch, requesters.drop_last(), ids.drop_last()) == m);
        assert(seq![requesters[0]] =~= requesters);
    } else {
        law_requests_share_one_lookup(m, branch, requesters.drop_last(), ids.drop_last());
        assert(requesters.drop_last().push(requesters.last()) =~= requesters);
        assert(q.remove(branch) =~= m.remove(branch));
    }
    assert(q.remove(branch) =~= m.remove(branch));
    assert(q.remove(branch) =~= m);
}

/// Only the lookup that is pending can answer: a result under any other id
/// leaves the pending requests untouched.
pub proof fn law_outdated_result_ignored(
    m: Map<Seq<char>, PendingQuery>,
    branch: Seq<char>,
    id: u128,
)
    requires
        !is_current(m, branch, id),
    ensures
        complete_step(m, branch, id) == (m, None::<Seq<u64>>),
{
}

/// How many seconds must pass after a head lookup that fetched before the
/// next one fetches again.
pub const HEAD_REFRESH_SECONDS: u64 = 10;

/// What a head query worker does for one lookup.
#[derive(Debug, PartialEq, Eq)]
pub struct RefreshPlan {
    /// The lookup is a refresh: the clock of the last refresh restarts.
    pub refresh: bool,
    /// The repository is fetched before the branch head is read.
    pub fetch: bool,
}

/// The plan of a head lookup, given the whole seconds since the last refresh
/// (`None` where the clock went backwards) and whether fetching is allowed:
/// a refresh is due once ten seconds have passed, and it fetches only where
/// fetching is allowed.
pub fn plan_head_query(seconds_since_refresh: Option<u64>, allow_fetch: bool) -> (p: RefreshPlan)
    ensures
        p.refresh == (seconds_since_refresh matches Some(s) && s >= HEAD_REFRESH_SECONDS),
        p.fetch == (p.refresh && allow_fetch),
{
    let refresh = match seconds_since_refresh {
        Some(s) => s >= HEAD_REFRESH_SECONDS,
        None => false,
    };
    RefreshPlan { refresh, fetch: refresh && allow_fetch }
}

} // verus!
