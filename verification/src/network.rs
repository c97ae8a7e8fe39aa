//! Network targets: a chain family plus the ordered candidate RPC URLs of
//! one environment, resolved once per process invocation and threaded
//! through every call rather than stored in process-wide state. The
//! per-family confirmation policy lives here too, so thresholds and
//! timeouts are not scattered as literals over the call sites.

use vstd::prelude::*;
use crate::confirm::ConfirmationPolicy;
use crate::text::str_eq;

verus! {

/// The two chain families the pipeline serves.
#[derive(Debug, Clone, Copy, PartialEq, Eq, Structural)]
pub enum ChainFamily {
    /// The account/resource-model chain.
    Tron,
    /// The EVM-compatible chain.
    Evm,
}

/// Environments of the account/resource-model chain.
#[derive(Debug, Clone, Copy, PartialEq, Eq, Structural)]
pub enum TronNetwork {
    Nile,
    Shasta,
    Mainnet,
}

/// Environments of the EVM chain.
#[derive(Debug, Clone, Copy, PartialEq, Eq, Structural)]
pub enum EvmNetwork {
    Sepolia,
    ArbitrumSepolia,
    ArbitrumOne,
    Mainnet,
}

/// Resolves an account-chain environment name; any unrecognized name falls
/// back to the Nile test network.
pub fn tron_network_from_name(name: &str) -> (r: TronNetwork)
    ensures
        r == (if name@ == "mainnet"@ {
            TronNetwork::Mainnet
        } else if name@ == "shasta"@ {
            TronNetwork::Shasta
        } else {
            TronNetwork::Nile
        }),
{
    if str_eq(name, "mainnet") {
        TronNetwork::Mainnet
    } else if str_eq(name, "shasta") {
        TronNetwork::Shasta
    } else {
        TronNetwork::Nile
    }
}

/// Resolves an EVM environment name; any unrecognized name falls back to
/// the Sepolia test network.
pub fn evm_network_from_name(name: &str) -> (r: EvmNetwork)
    ensures
        r == (if name@ == "arbitrum-sepolia"@ {
            EvmNetwork::ArbitrumSepolia
        } else if name@ == "arbitrum-one"@ {
            EvmNetwork::ArbitrumOne
        } else if name@ == "mainnet"@ {
            EvmNetwork::Mainnet
        } else {
            EvmNetwork::Sepolia
        }),
{
    if str_eq(name, "arbitrum-sepolia") {
        EvmNetwork::ArbitrumSepolia
    } else if str_eq(name, "arbitrum-one") {
        EvmNetwork::ArbitrumOne
    } else if str_eq(name, "mainnet") {
        EvmNetwork::Mainnet
    } else {
        EvmNetwork::Sepolia
    }
}

/// A chain family with the ordered candidate RPC URLs of one environment
/// and its designated default; immutable once resolved.
pub struct NetworkTarget {
    pub family: ChainFamily,
    pub candidates: Vec<String>,
    pub default_url: String,
}

impl NetworkTarget {
    /// Bundles a resolved target.
    pub fn new(family: ChainFamily, candidates: Vec<String>, default_url: String) -> (r: Self)
        ensures
            r.family == family,
            r.candidates == candidates,
            r.default_url == default_url,
    {
        NetworkTarget { family, candidates, default_url }
    }

    /// The confirmation policy a value transfer on this target uses: the
    /// account/resource chain treats 19 confirmations as practically
    /// irreversible, the EVM chain takes 1 as sufficient for routine
    /// transfers; both poll every 3 s within a 120 s budget. These are
    /// policy values, not protocol constants, and callers may override them
    /// by building their own `ConfirmationPolicy`.
    pub fn transfer_policy(&self) -> (r: ConfirmationPolicy)
        ensures
            self.family == ChainFamily::Tron ==> r == (ConfirmationPolicy {
                timeout_ms: 120_000,
                poll_interval_ms: 3000,
                min_confirmations: 19,
            }),
            self.family == ChainFamily::Evm ==> r == (ConfirmationPolicy {
                timeout_ms: 120_000,
                poll_interval_ms: 3000,
                min_confirmations: 1,
            }),
    {
        match self.family {
            ChainFamily::Tron => ConfirmationPolicy::new(120, 3000, 19),
            ChainFamily::Evm => ConfirmationPolicy::new(120, 3000, 1),
        }
    }
}

} // verus!
