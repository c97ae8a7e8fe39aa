//! The confirmation-tracking contract that every transfer flow honors. A
//! poller fetches the on-chain status at roughly the policy's cadence and
//! asks `decide` after each fetch: a revert settles Failed at once and
//! irrevocably; enough confirmations settle Confirmed; otherwise polling
//! goes on until the timeout elapses, at which point the outcome is
//! Pending. Pending is terminal here: it means the timeout was exhausted,
//! never "still polling". The tracker never retries the broadcast step.

use vstd::prelude::*;

verus! {

/// Terminal outcome of tracking a transaction.
#[derive(Debug, Clone, Copy, PartialEq, Eq, Structural)]
pub enum ConfirmationOutcome {
    /// Included and confirmed by at least the policy's block count.
    Confirmed,
    /// Reverted or failed on chain.
    Failed,
    /// The timeout elapsed with neither terminal chain state.
    Pending,
}

/// What one on-chain status fetch observed.
#[derive(Debug, Clone, Copy, PartialEq, Eq, Structural)]
pub enum ChainObservation {
    /// Not yet included in a block.
    NotSeen,
    /// Included, with this many blocks on top of the including block.
    Included { confirmations: u64 },
    /// Reverted or failed on chain.
    Reverted,
}

/// What the poller must do after an observation.
#[derive(Debug, Clone, Copy, PartialEq, Eq, Structural)]
pub enum PollDecision {
    /// Stop polling and report the outcome.
    Settled(ConfirmationOutcome),
    /// Fetch the status again after the poll interval.
    KeepPolling,
}

/// Timeout, polling cadence and confirmation threshold for one flow
/// invocation; fixed at construction and discarded after the flow.
#[derive(Debug, Clone, Copy, PartialEq, Eq, Structural)]
pub struct ConfirmationPolicy {
    /// Overall budget, in milliseconds.
    pub timeout_ms: u64,
    /// Approximate pause between status fetches, in milliseconds.
    pub poll_interval_ms: u64,
    /// Blocks past inclusion required before the transaction counts as
    /// confirmed.
    pub min_confirmations: u32,
}

/// The observation alone settles the run, whatever the clock says.
pub open spec fn observation_terminal(p: ConfirmationPolicy, obs: ChainObservation) -> bool {
    match obs {
        ChainObservation::Reverted => true,
        ChainObservation::Included { confirmations } => confirmations
            >= p.min_confirmations as u64,
        ChainObservation::NotSeen => false,
    }
}

/// The decision after one observation: revert settles Failed, enough
/// confirmations settle Confirmed, an exhausted timeout settles Pending,
/// anything else keeps polling.
pub open spec fn decide_spec(
    p: ConfirmationPolicy,
    elapsed_ms: u64,
    obs: ChainObservation,
) -> PollDecision {
    match obs {
        ChainObservation::Reverted => PollDecision::Settled(ConfirmationOutcome::Failed),
        ChainObservation::Included { confirmations } => if confirmations
            >= p.min_confirmations as u64 {
            PollDecision::Settled(ConfirmationOutcome::Confirmed)
        } else if elapsed_ms >= p.timeout_ms {
            PollDecision::Settled(ConfirmationOutcome::Pending)
        } else {
            PollDecision::KeepPolling
        },
        ChainObservation::NotSeen => if elapsed_ms >= p.timeout_ms {
            PollDecision::Settled(ConfirmationOutcome::Pending)
        } else {
            PollDecision::KeepPolling
        },
    }
}

impl ConfirmationPolicy {
    /// A policy from the caller's units: timeout in seconds, poll interval
    /// in milliseconds, minimum confirmations. A timeout too large for
    /// milliseconds saturates.
    pub fn new(timeout_secs: u64, poll_interval_ms: u64, min_confirmations: u32) -> (r: Self)
        ensures
            timeout_secs * 1000 <= u64::MAX ==> r.timeout_ms == timeout_secs * 1000,
            timeout_secs * 1000 > u64::MAX ==> r.timeout_ms == u64::MAX,
            r.poll_interval_ms == poll_interval_ms,
            r.min_confirmations == min_confirmations,
    {
        let timeout_ms = match timeout_secs.checked_mul(1000) {
            Some(v) => v,
            None => u64::MAX,
        };
        ConfirmationPolicy { timeout_ms, poll_interval_ms, min_confirmations }
    }

    /// The decision after one observation, `elapsed_ms` after tracking
    /// began. A revert settles Failed immediately and irrevocably, at any
    /// elapsed time; reaching the confirmation threshold settles Confirmed;
    /// with neither, the run keeps polling strictly before the timeout and
    /// settles Pending exactly once the timeout has elapsed.
    pub fn decide(&self, elapsed_ms: u64, obs: &ChainObservation) -> (r: PollDecision)
        ensures
            r == decide_spec(*self, elapsed_ms, *obs),
            obs is Reverted ==> r == PollDecision::Settled(ConfirmationOutcome::Failed),
            (obs matches ChainObservation::Included { confirmations } && confirmations
                >= self.min_confirmations as u64) ==> r == PollDecision::Settled(
                ConfirmationOutcome::Confirmed,
            ),
            !observation_terminal(*self, *obs) && elapsed_ms < self.timeout_ms ==> r
                == PollDecision::KeepPolling,
            !observation_terminal(*self, *obs) && elapsed_ms >= self.timeout_ms ==> r
                == PollDecision::Settled(ConfirmationOutcome::Pending),
    {
        match obs {
            ChainObservation::Reverted => PollDecision::Settled(ConfirmationOutcome::Failed),
            ChainObservation::Included { confirmations } => {
                if *confirmations >= self.min_confirmations as u64 {
                    PollDecision::Settled(ConfirmationOutcome::Confirmed)
                } else if elapsed_ms >= self.timeout_ms {
                    PollDecision::Settled(ConfirmationOutcome::Pending)
                } else {
                    PollDecision::KeepPolling
                }
            },
            ChainObservation::NotSeen => {
                if elapsed_ms >= self.timeout_ms {
                    PollDecision::Settled(ConfirmationOutcome::Pending)
                } else {
                    PollDecision::KeepPolling
                }
            },
        }
    }
}

/// The clock reading of poll number `k` under policy `p`: k times the poll
/// interval, saturating at the largest millisecond count.
pub open spec fn elapsed_at(p: ConfirmationPolicy, k: int) -> u64 {
    if k * p.poll_interval_ms <= u64::MAX {
        (k * p.poll_interval_ms) as u64
    } else {
        u64::MAX
    }
}

/// The outcome of replaying observations from poll `k` on: the first
/// settling decision wins; a run that exhausts its observations reports
/// Pending, the poller having given up.
pub open spec fn run_outcome_from(
    p: ConfirmationPolicy,
    obs: Seq<ChainObservation>,
    k: int,
) -> ConfirmationOutcome
    decreases obs.len() - k,
{
    if k < 0 || k >= obs.len() {
        ConfirmationOutcome::Pending
    } else {
        match decide_spec(p, elapsed_at(p, k), obs[k]) {
            PollDecision::Settled(o) => o,
            PollDecision::KeepPolling => run_outcome_from(p, obs, k + 1),
        }
    }
}

/// Replays a recorded run of status observations, poll `k` happening at
/// clock reading `k * poll_interval_ms`.
pub fn track_outcome(p: &ConfirmationPolicy, observations: &Vec<ChainObservation>) -> (r:
    ConfirmationOutcome)
    ensures
        r == run_outcome_from(*p, observations@, 0),
{
    let mut k: usize = 0;
    while k < observations.len()
        invariant
            0 <= k <= observations@.len(),
            run_outcome_from(*p, observations@, 0) == run_outcome_from(*p, observations@, k as int),
        decreases observations@.len() - k,
    {
        let elapsed = match (k as u64).checked_mul(p.poll_interval_ms) {
            Some(v) => v,
            None => u64::MAX,
        };
        proof {
            assert(elapsed == elapsed_at(*p, k as int));
        }
        match p.decide(elapsed, &observations[k]) {
            PollDecision::Settled(o) => {
                return o;
            },
            PollDecision::KeepPolling => {
                k += 1;
            },
        }
    }
    ConfirmationOutcome::Pending
}

/// Law: a run whose observations never revert and never reach the
/// confirmation threshold ends Pending, whether the timeout elapsed or the
/// observations ran out first.
pub proof fn lemma_no_terminal_observation_means_pending(
    p: ConfirmationPolicy,
    obs: Seq<ChainObservation>,
)
    requires
        forall|k: int| 0 <= k < obs.len() ==> !observation_terminal(p, obs[k]),
    ensures
        run_outcome_from(p, obs, 0) == ConfirmationOutcome::Pending,
{
    lemma_no_terminal_from(p, obs, 0);
}

proof fn lemma_no_terminal_from(p: ConfirmationPolicy, obs: Seq<ChainObservation>, k: int)
    requires
        forall|j: int| 0 <= j < obs.len() ==> !observation_terminal(p, obs[j]),
    ensures
        run_outcome_from(p, obs, k) == ConfirmationOutcome::Pending,
    decreases obs.len() - k,
{
    if 0 <= k && k < obs.len() {
        lemma_no_terminal_from(p, obs, k + 1);
    }
}

/// Law: a revert observed at any poll before anything settled ends the run
/// Failed at that very poll; no later observation is consulted.
pub proof fn lemma_revert_settles_failed(
    p: ConfirmationPolicy,
    obs: Seq<ChainObservation>,
    k: int,
)
    requires
        0 <= k < obs.len(),
        obs[k] is Reverted,
        forall|j: int| 0 <= j < k ==> decide_spec(p, elapsed_at(p, j), obs[j])
            == PollDecision::KeepPolling,
    ensures
        run_outcome_from(p, obs, 0) == ConfirmationOutcome::Failed,
{
    lemma_settles_at(p, obs, 0, k);
}

proof fn lemma_settles_at(p: ConfirmationPolicy, obs: Seq<ChainObservation>, from: int, k: int)
    requires
        0 <= from <= k < obs.len(),
        obs[k] is Reverted,
        forall|j: int| 0 <= j < k ==> decide_spec(p, elapsed_at(p, j), obs[j])
            == PollDecision::KeepPolling,
    ensures
        run_outcome_from(p, obs, from) == ConfirmationOutcome::Failed,
    decreases k - from,
{
    if from < k {
        lemma_settles_at(p, obs, from + 1, k);
    }
}

} // verus!
