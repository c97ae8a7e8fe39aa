//! Core of a multi-network transaction lifecycle pipeline: endpoint
//! selection, recoverable transaction signing, human-to-minor-unit amount
//! conversion, and the confirmation-tracking contract, with machine-checked
//! specifications for each piece.

pub mod amount;
pub mod confirm;
pub mod endpoint;
pub mod errors;
pub mod flow;
pub mod hexcode;
pub mod network;
pub mod signer;
pub mod text;
