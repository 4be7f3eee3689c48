//! A constant-product automated-market-maker liquidity pool between two
//! fungible tokens, together with the fungible-token ledger the pool and its
//! liquidity shares are accounted on.
//!
//! Host-ledger primitives (the caller's identity, the current block timestamp,
//! account identities) are modelled as plain values handed in by the caller;
//! every piece of pool logic operating on them is verified here.
#![allow(unused_imports)]

use vstd::prelude::*;

pub mod erc20;
pub mod fund_me;
pub mod ledger;
pub mod math;
pub mod pair;

verus! {

/// Identity of an account on the host ledger, modelled as a plain integer.
pub type AccountId = u128;

/// An amount of some fungible token.
pub type Balance = u128;

/// A host-ledger block timestamp.
pub type Timestamp = u64;

} // verus!
