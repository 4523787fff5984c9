//! Deterministic chain specifications for a parachain network: derivation of
//! account identities from human-readable seeds, assembly of the genesis
//! document, and the strict document form of the bootstrap metadata.

use vstd::prelude::*;

pub mod chain_spec;
pub mod genesis;
pub mod json;
pub mod keys;

verus! {

/// The local parachain id of this network.
pub const PARA_ID: u32 = 9090;

/// The default cross-chain-messaging protocol version set in the genesis
/// document, so that the chain does not implicitly accept an untested newer
/// version at genesis.
pub const SAFE_XCM_VERSION: u32 = 4;

/// Smallest balance an account may hold on this network.
pub const EXISTENTIAL_DEPOSIT: u128 = 1_000_000_000;

/// The two fatal error classes of specification construction: a seed whose
/// derivation path cannot be parsed, and a missing compiled runtime blob.
#[derive(Clone, Copy, Debug, PartialEq, Eq, Structural)]
pub enum ChainSpecError {
    InvalidSeed,
    MissingRuntimeCode,
}

} // verus!
