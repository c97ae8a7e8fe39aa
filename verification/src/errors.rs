//! Error taxonomy shared by the lifecycle components.

use vstd::prelude::*;

verus! {

/// Every failure a lifecycle component reports. Each component returns only
/// the variants its contract names; none of them panics on any input.
#[derive(Debug, Clone, PartialEq, Eq)]
pub enum TxError {
    /// No usable RPC endpoint could be resolved, even after falling back.
    ConfigurationError,
    /// The transaction document lacks a digest field, or the field is not
    /// exactly 64 hexadecimal characters.
    MalformedTransaction,
    /// The private key is not 64 hexadecimal characters after normalization,
    /// or does not decode to a valid secp256k1 scalar.
    InvalidKey,
    /// The amount string is not a non-negative decimal number.
    InvalidAmount,
    /// The node rejected the signed transaction; carries the node's message.
    BroadcastError { message: String },
}

impl TxError {
    /// Short diagnostic label for reporting which step failed.
    pub fn label(&self) -> (r: &'static str)
        ensures
            r@ == match self {
                TxError::ConfigurationError => "configuration error"@,
                TxError::MalformedTransaction => "malformed transaction"@,
                TxError::InvalidKey => "invalid key"@,
                TxError::InvalidAmount => "invalid amount"@,
                TxError::BroadcastError { .. } => "broadcast error"@,
            },
    {
        match self {
            TxError::ConfigurationError => "configuration error",
            TxError::MalformedTransaction => "malformed transaction",
            TxError::InvalidKey => "invalid key",
            TxError::InvalidAmount => "invalid amount",
            TxError::BroadcastError { .. } => "broadcast error",
        }
    }
}

} // verus!
