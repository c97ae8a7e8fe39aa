//! Endpoint selection. An explicit override wins unconditionally and
//! unchecked; otherwise the ordered candidates are probed one at a time,
//! each within a fixed time budget, and the first healthy one is taken; if
//! none is healthy the designated default stands in. Selection therefore
//! always yields exactly one URL, never raises, and probes each candidate
//! at most once. A probe that errors or times out counts as unhealthy.

use vstd::prelude::*;

verus! {

/// Per-candidate health-probe time budget, in seconds.
pub const PROBE_TIMEOUT_SECS: u64 = 8;

/// The index of the first healthy outcome at or after `from`, if any.
pub open spec fn first_healthy_from(outcomes: Seq<bool>, from: int) -> Option<int>
    decreases outcomes.len() - from,
{
    if from < 0 || from >= outcomes.len() {
        None
    } else if outcomes[from] {
        Some(from)
    } else {
        first_healthy_from(outcomes, from + 1)
    }
}

/// The views of a list of URLs.
pub open spec fn url_views(v: Seq<String>) -> Seq<Seq<char>> {
    Seq::new(v.len(), |i: int| v[i]@)
}

/// The view of an optional URL.
pub open spec fn opt_url_view(o: Option<String>) -> Option<Seq<char>> {
    match o {
        Some(u) => Some(u@),
        None => None,
    }
}

/// The URL selection settles on, given each candidate's probe outcome: the
/// override when present, else the first healthy candidate, else the
/// default.
pub open spec fn selected_url(
    override_url: Option<Seq<char>>,
    candidates: Seq<Seq<char>>,
    outcomes: Seq<bool>,
    default_url: Seq<char>,
) -> Seq<char> {
    match override_url {
        Some(u) => u,
        None => match first_healthy_from(outcomes, 0) {
            Some(i) => candidates[i],
            None => default_url,
        },
    }
}

/// Sequential probing state over an ordered candidate list: every candidate
/// before `next_idx` has already probed unhealthy.
pub struct EndpointSelector {
    candidates: Vec<String>,
    default_url: String,
    next_idx: usize,
}

impl EndpointSelector {
    /// The candidate URLs, in probe order.
    pub closed spec fn candidates_view(&self) -> Seq<Seq<char>> {
        url_views(self.candidates@)
    }

    /// The fallback URL.
    pub closed spec fn default_view(&self) -> Seq<char> {
        self.default_url@
    }

    /// How many candidates have been probed so far.
    pub closed spec fn probed(&self) -> int {
        self.next_idx as int
    }

    /// The probe position never passes the end of the candidate list.
    pub closed spec fn wf(&self) -> bool {
        self.next_idx <= self.candidates@.len()
    }

    /// A fresh selector that has probed nothing.
    pub fn new(candidates: Vec<String>, default_url: String) -> (s: Self)
        ensures
            s.wf(),
            s.candidates_view() == url_views(candidates@),
            s.default_view() == default_url@,
            s.probed() == 0,
    {
        EndpointSelector { candidates, default_url, next_idx: 0 }
    }

    /// The URL to probe next, or `None` once every candidate was probed.
    pub fn next_to_probe(&self) -> (r: Option<String>)
        requires
            self.wf(),
        ensures
            r is Some <==> self.probed() < self.candidates_view().len(),
            r matches Some(u) ==> u@ == self.candidates_view()[self.probed()],
    {
        if self.next_idx < self.candidates.len() {
            Some(self.candidates[self.next_idx].clone())
        } else {
            None
        }
    }

    /// Records the outcome of probing the current candidate. A healthy
    /// probe settles the selection on that candidate; an unhealthy one
    /// (including an error or a timeout) moves past it, never escalating.
    pub fn record_probe(&mut self, healthy: bool) -> (r: Option<String>)
        requires
            old(self).wf(),
            old(self).probed() < old(self).candidates_view().len(),
        ensures
            final(self).wf(),
            final(self).candidates_view() == old(self).candidates_view(),
            final(self).default_view() == old(self).default_view(),
            healthy ==> (r matches Some(u) && u@ == old(self).candidates_view()[old(self).probed()]
                && final(self).probed() == old(self).probed()),
            !healthy ==> r is None && final(self).probed() == old(self).probed() + 1,
    {
        let n = self.candidates.len();
        proof {
            assert(self.next_idx < n);
        }
        if healthy {
            Some(self.candidates[self.next_idx].clone())
        } else {
            self.next_idx = self.next_idx + 1;
            None
        }
    }

    /// The configured default, the fallback when no candidate is healthy.
    pub fn fallback(&self) -> (r: String)
        ensures
            r@ == self.default_view(),
    {
        self.default_url.clone()
    }

    /// How many candidates remain to probe; selection never probes more, so
    /// with a per-probe budget of `PROBE_TIMEOUT_SECS` the whole scan is
    /// bounded by `remaining * PROBE_TIMEOUT_SECS` seconds.
    pub fn remaining(&self) -> (r: usize)
        requires
            self.wf(),
        ensures
            r == self.candidates_view().len() - self.probed(),
    {
        self.candidates.len() - self.next_idx
    }
}

/// Selection over a recorded outcome table, one outcome per candidate. The
/// loop drives `EndpointSelector` exactly as a live prober would: it stops
/// at the first healthy candidate and falls back to the default when every
/// candidate probed unhealthy.
pub fn select_endpoint(
    override_url: Option<String>,
    candidates: Vec<String>,
    outcomes: &Vec<bool>,
    default_url: String,
) -> (r: String)
    requires
        outcomes@.len() == candidates@.len(),
    ensures
        r@ == selected_url(
            opt_url_view(override_url),
            url_views(candidates@),
            outcomes@,
            default_url@,
        ),
{
    match override_url {
        Some(u) => u,
        None => {
            let ghost cviews = url_views(candidates@);
            let ghost dview = default_url@;
            let mut sel = EndpointSelector::new(candidates, default_url);
            let mut i: usize = 0;
            while i < outcomes.len()
                invariant
                    override_url is None,
                    cviews == url_views(candidates@),
                    dview == default_url@,
                    sel.wf(),
                    sel.candidates_view() == cviews,
                    sel.default_view() == dview,
                    outcomes@.len() == cviews.len(),
                    0 <= i <= outcomes@.len(),
                    sel.probed() == i as int,
                    first_healthy_from(outcomes@, 0) == first_healthy_from(outcomes@, i as int),
                decreases outcomes@.len() - i,
            {
                let healthy = outcomes[i];
                match sel.record_probe(healthy) {
                    Some(u) => {
                        proof {
                            assert(first_healthy_from(outcomes@, i as int) == Some(i as int));
                        }
                        return u;
                    },
                    None => {
                        i += 1;
                    },
                }
            }
            sel.fallback()
        },
    }
}

/// Law: with no override and every candidate failing its probe, selection
/// returns the configured default.
pub proof fn lemma_all_unhealthy_selects_default(
    candidates: Seq<Seq<char>>,
    outcomes: Seq<bool>,
    default_url: Seq<char>,
)
    requires
        outcomes.len() == candidates.len(),
        forall|i: int| 0 <= i < outcomes.len() ==> !outcomes[i],
    ensures
        selected_url(None, candidates, outcomes, default_url) == default_url,
{
    lemma_no_healthy(outcomes, 0);
}

proof fn lemma_no_healthy(outcomes: Seq<bool>, from: int)
    requires
        forall|i: int| 0 <= i < outcomes.len() ==> !outcomes[i],
    ensures
        first_healthy_from(outcomes, from) is None,
    decreases outcomes.len() - from,
{
    if 0 <= from && from < outcomes.len() {
        lemma_no_healthy(outcomes, from + 1);
    }
}

} // verus!
