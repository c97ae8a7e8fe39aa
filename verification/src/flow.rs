//! The transfer-flow orchestrator as a state machine: build, sign,
//! broadcast, confirm. External collaborators (the transaction builder, the
//! broadcaster, the status poller) report what happened as events, and
//! `flow_step` decides the next state. Signing happens inside the step; a
//! finished flow absorbs every further event, so a rejected broadcast is
//! never retried. The advisory sender check (`addresses_match`) and the
//! broadcast-message classification live here too.

use vstd::prelude::*;
use vstd::string::StrSliceExecFns;
use crate::confirm::ChainObservation;
use crate::confirm::ConfirmationOutcome;
use crate::confirm::ConfirmationPolicy;
use crate::confirm::PollDecision;
use crate::confirm::decide_spec;
use crate::errors::TxError;
use crate::signer::digest_ok;
use crate::signer::key_ok;
use crate::signer::sign_transaction;
use crate::signer::signature_hex_for;
use crate::signer::with_signature;

verus! {

/// ASCII lowercase of one character; anything but 'A'-'Z' stays as it is.
pub open spec fn lower_char(c: char) -> char {
    if 65 <= c as u32 && c as u32 <= 90 {
        ((c as u32 + 32) as u32) as char
    } else {
        c
    }
}

/// The address with one leading "0x" or "0X" removed.
pub open spec fn stripped_addr(s: Seq<char>) -> Seq<char> {
    if s.len() >= 2 && s[0] == '0' && (s[1] == 'x' || s[1] == 'X') {
        s.subrange(2, s.len() as int)
    } else {
        s
    }
}

/// The canonical form addresses are compared in: prefix-agnostic and
/// case-insensitive (ASCII).
pub open spec fn canon_addr(s: Seq<char>) -> Seq<char> {
    Seq::new(stripped_addr(s).len(), |i: int| lower_char(stripped_addr(s)[i]))
}

/// ASCII-lowercased code point of a character.
fn lower_code(c: char) -> (r: u32)
    ensures
        r == lower_char(c) as u32,
{
    let u: u32 = c as u32;
    if 65 <= u && u <= 90 {
        u + 32
    } else {
        u
    }
}

/// Whether two addresses match once compared prefix-agnostically and
/// case-insensitively. A mismatch against the key-derived sender is an
/// advisory warning for the caller, never a hard failure: the chain itself
/// enforces which address pays.
pub fn addresses_match(a: &str, b: &str) -> (r: bool)
    ensures
        r == (canon_addr(a@) == canon_addr(b@)),
{
    let an = a.unicode_len();
    let bn = b.unicode_len();
    let astart: usize = if an >= 2 && a.get_char(0) == '0' && (a.get_char(1) == 'x' || a.get_char(1)
        == 'X') {
        2
    } else {
        0
    };
    let bstart: usize = if bn >= 2 && b.get_char(0) == '0' && (b.get_char(1) == 'x' || b.get_char(1)
        == 'X') {
        2
    } else {
        0
    };
    if an - astart != bn - bstart {
        proof {
            assert(canon_addr(a@).len() != canon_addr(b@).len());
        }
        return false;
    }
    let len = an - astart;
    let mut i: usize = 0;
    while i < len
        invariant
            an == a@.len(),
            bn == b@.len(),
            astart <= an,
            bstart <= bn,
            len == an - astart == bn - bstart,
            canon_addr(a@).len() == len,
            canon_addr(b@).len() == len,
            0 <= i <= len,
            forall|j: int| 0 <= j < len ==> canon_addr(a@)[j] == lower_char(a@[astart + j]),
            forall|j: int| 0 <= j < len ==> canon_addr(b@)[j] == lower_char(b@[bstart + j]),
            forall|j: int| 0 <= j < i ==> canon_addr(a@)[j] == canon_addr(b@)[j],
        decreases len - i,
    {
        if lower_code(a.get_char(astart + i)) != lower_code(b.get_char(bstart + i)) {
            proof {
                assert(canon_addr(a@)[i as int] != canon_addr(b@)[i as int]);
            }
            return false;
        }
        i += 1;
    }
    proof {
        assert(canon_addr(a@) =~= canon_addr(b@));
    }
    true
}

/// The needle occupies `h[i .. i + needle.len())`.
pub open spec fn contains_at(h: Seq<char>, needle: Seq<char>, i: int) -> bool {
    0 <= i && i + needle.len() <= h.len() && h.subrange(i, i + needle.len() as int) == needle
}

/// The needle occurs somewhere in `h`.
pub open spec fn contains_seq(h: Seq<char>, needle: Seq<char>) -> bool {
    exists|i: int| contains_at(h, needle, i)
}

fn match_at(h: &str, needle: &str, at: usize) -> (r: bool)
    requires
        at + needle@.len() <= h@.len(),
    ensures
        r == contains_at(h@, needle@, at as int),
{
    let hn = h.unicode_len();
    let nn = needle.unicode_len();
    let mut j: usize = 0;
    while j < nn
        invariant
            hn == h@.len(),
            nn == needle@.len(),
            at + nn <= hn,
            0 <= j <= nn,
            forall|q: int| 0 <= q < j ==> h@[at + q] == needle@[q],
        decreases nn - j,
    {
        if h.get_char(at + j) != needle.get_char(j) {
            proof {
                assert(h@.subrange(at as int, at as int + nn as int)[j as int] != needle@[j as int]);
            }
            return false;
        }
        j += 1;
    }
    proof {
        assert(h@.subrange(at as int, at as int + nn as int) =~= needle@);
    }
    true
}

/// Whether `needle` occurs in `h`, by direct scan.
pub fn contains_sub(h: &str, needle: &str) -> (r: bool)
    ensures
        r == contains_seq(h@, needle@),
{
    let hn = h.unicode_len();
    let nn = needle.unicode_len();
    if nn > hn {
        proof {
            assert forall|q: int| !contains_at(h@, needle@, q) by {}
        }
        return false;
    }
    if nn == 0 {
        proof {
            assert(h@.subrange(0, 0) =~= needle@);
            assert(contains_at(h@, needle@, 0));
        }
        return true;
    }
    let mut i: usize = 0;
    while i <= hn - nn
        invariant
            hn == h@.len(),
            nn == needle@.len(),
            0 < nn <= hn,
            0 <= i <= hn - nn + 1,
            forall|q: int| 0 <= q < i ==> !contains_at(h@, needle@, q),
        decreases hn - nn - i + 1,
    {
        if match_at(h, needle, i) {
            proof {
                assert(contains_at(h@, needle@, i as int));
            }
            return true;
        }
        i += 1;
    }
    proof {
        assert forall|q: int| !contains_at(h@, needle@, q) by {
            if 0 <= q && q + nn <= hn {
                assert(q < i);
            }
        }
    }
    false
}

/// The node messages that signal missing funds for fees.
pub open spec fn insufficient_funds_hint_of(msg: Seq<char>) -> bool {
    contains_seq(msg, "insufficient funds"@) || contains_seq(msg, "balance 0"@)
}

/// Classifies a node's broadcast-rejection message: whether it names the
/// known insufficient-funds conditions. The hint may trigger extra caller
/// guidance but must not change control flow.
pub fn is_insufficient_funds_message(msg: &str) -> (r: bool)
    ensures
        r == insufficient_funds_hint_of(msg@),
{
    contains_sub(msg, "insufficient funds") || contains_sub(msg, "balance 0")
}

/// How a flow run ended, with enough context to say which step failed.
#[derive(Debug, Clone, PartialEq, Eq)]
pub enum FlowOutcome {
    /// Broadcast succeeded and tracking settled on this status.
    Completed { status: ConfirmationOutcome },
    /// The external builder reported failure; nothing was signed or sent.
    BuildRejected { message: String },
    /// The signer rejected the document or the key; nothing was sent.
    SignRejected { error: TxError },
    /// The node rejected the signed transaction; the flow stops, without
    /// retrying. The hint flags known insufficient-funds messages.
    BroadcastRejected { message: String, insufficient_funds_hint: bool },
}

/// Where a flow stands between events.
#[derive(Debug, Clone, PartialEq, Eq)]
pub enum FlowState {
    /// Waiting for the external builder's unsigned transaction.
    AwaitingBuild,
    /// Holding the signed transaction, waiting for the broadcast result.
    AwaitingBroadcast { signed_tx: String },
    /// Broadcast accepted; waiting for status observations.
    AwaitingConfirmation { tx_hash: String },
    /// Terminal.
    Finished { outcome: FlowOutcome },
}

/// What an external collaborator reports back to the flow.
#[derive(Debug, Clone, PartialEq, Eq)]
pub enum FlowEvent {
    /// The builder produced an unsigned transaction document.
    Built { tx_json: String },
    /// The builder failed.
    BuildFailed { message: String },
    /// The node accepted the transaction under this identifier.
    Broadcasted { tx_hash: String },
    /// The node rejected the transaction with this message.
    BroadcastFailed { message: String },
    /// The poller observed this chain status at this clock reading.
    StatusObserved { elapsed_ms: u64, observation: ChainObservation },
}

/// The state-event pairs that advance a flow; every other pair leaves the
/// state as it is.
pub open spec fn flow_event_applies(state: FlowState, event: FlowEvent) -> bool {
    match (state, event) {
        (FlowState::AwaitingBuild, FlowEvent::Built { .. }) => true,
        (FlowState::AwaitingBuild, FlowEvent::BuildFailed { .. }) => true,
        (FlowState::AwaitingBroadcast { .. }, FlowEvent::Broadcasted { .. }) => true,
        (FlowState::AwaitingBroadcast { .. }, FlowEvent::BroadcastFailed { .. }) => true,
        (FlowState::AwaitingConfirmation { .. }, FlowEvent::StatusObserved { .. }) => true,
        _ => false,
    }
}

/// Advances a flow by one event. A built document is signed at once with
/// the supplied key, which is not retained; broadcast acceptance moves to
/// confirmation tracking; the policy decides each observation; a finished
/// flow absorbs everything, so nothing is ever re-broadcast.
pub fn flow_step(
    state: FlowState,
    event: FlowEvent,
    policy: &ConfirmationPolicy,
    private_key_hex: &str,
) -> (r: FlowState)
    ensures
        state is AwaitingBuild ==> (event matches FlowEvent::Built { tx_json } ==> {
            &&& (digest_ok(tx_json@) && key_ok(private_key_hex@)) ==> (r matches
                FlowState::AwaitingBroadcast { signed_tx } && signed_tx@ == with_signature(
                tx_json@,
                signature_hex_for(tx_json@, private_key_hex@),
            ))
            &&& !digest_ok(tx_json@) ==> r == (FlowState::Finished {
                outcome: FlowOutcome::SignRejected { error: TxError::MalformedTransaction },
            })
            &&& (digest_ok(tx_json@) && !key_ok(private_key_hex@)) ==> r == (FlowState::Finished {
                outcome: FlowOutcome::SignRejected { error: TxError::InvalidKey },
            })
        }),
        state is AwaitingBuild ==> (event matches FlowEvent::BuildFailed { message } ==> r == (
        FlowState::Finished { outcome: FlowOutcome::BuildRejected { message } })),
        state is AwaitingBroadcast ==> (event matches FlowEvent::Broadcasted { tx_hash } ==> r == (
        FlowState::AwaitingConfirmation { tx_hash })),
        state is AwaitingBroadcast ==> (event matches FlowEvent::BroadcastFailed { message } ==> r
            == (FlowState::Finished {
            outcome: FlowOutcome::BroadcastRejected {
                message,
                insufficient_funds_hint: insufficient_funds_hint_of(message@),
            },
        })),
        state matches FlowState::AwaitingConfirmation { tx_hash } ==> (event matches
            FlowEvent::StatusObserved { elapsed_ms, observation } ==> {
            &&& (decide_spec(*policy, elapsed_ms, observation) matches PollDecision::Settled(status)
                ==> r == (FlowState::Finished { outcome: FlowOutcome::Completed { status } }))
            &&& decide_spec(*policy, elapsed_ms, observation) is KeepPolling ==> r == (
            FlowState::AwaitingConfirmation { tx_hash })
        }),
        state is Finished ==> r == state,
        !flow_event_applies(state, event) ==> r == state,
{
    match (state, event) {
        (FlowState::AwaitingBuild, FlowEvent::Built { tx_json }) => {
            match sign_transaction(tx_json.as_str(), private_key_hex) {
                Ok(signed_tx) => FlowState::AwaitingBroadcast { signed_tx },
                Err(error) => FlowState::Finished { outcome: FlowOutcome::SignRejected { error } },
            }
        },
        (FlowState::AwaitingBuild, FlowEvent::BuildFailed { message }) => {
            FlowState::Finished { outcome: FlowOutcome::BuildRejected { message } }
        },
        (FlowState::AwaitingBroadcast { .. }, FlowEvent::Broadcasted { tx_hash }) => {
            FlowState::AwaitingConfirmation { tx_hash }
        },
        (FlowState::AwaitingBroadcast { .. }, FlowEvent::BroadcastFailed { message }) => {
            let insufficient_funds_hint = is_insufficient_funds_message(message.as_str());
            FlowState::Finished {
                outcome: FlowOutcome::BroadcastRejected { message, insufficient_funds_hint },
            }
        },
        (
            FlowState::AwaitingConfirmation { tx_hash },
            FlowEvent::StatusObserved { elapsed_ms, observation },
        ) => {
            match policy.decide(elapsed_ms, &observation) {
                PollDecision::Settled(status) => {
                    FlowState::Finished { outcome: FlowOutcome::Completed { status } }
                },
                PollDecision::KeepPolling => FlowState::AwaitingConfirmation { tx_hash },
            }
        },
        (s, _) => s,
    }
}

} // verus!
