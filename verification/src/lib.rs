//! Secure message relay and cross-chain atomic-swap engine for a wallet.
//!
//! The crate has two halves. The first is an authenticated, self-reconnecting
//! pub/sub message channel (the broker) that carries encrypted slate and swap
//! messages between mutually distrusting peers over an unreliable network.
//! The second is the swap orchestration engine that interprets exchanged
//! messages and drives an atomic swap to completion or to a waiting state.
//!
//! The address-book storage, the generic wallet ledger, the chain-query
//! client, the on-disk key-value store and the per-currency swap
//! implementations are external collaborators, reached through the trait
//! ports declared here. Network transport and clocks live outside the
//! library: the broker is an explicit state machine that consumes transport
//! events and emits transport actions, and the surrounding program performs
//! them.

use vstd::prelude::*;

pub mod adapter;
pub mod address;
pub mod broker;
pub mod contacts;
pub mod container;
pub mod controller;
pub mod crypto;
pub mod encoding;
pub mod error;
pub mod foreign;
pub mod payload;
pub mod protocol;
pub mod swap;
pub mod swapflow;
pub mod swaptypes;
pub mod types;

verus! {

/// The protocol-defined default relay port, used when an address does not
/// carry an explicit one.
pub const DEFAULT_GRINBOX_PORT: u16 = 443;

} // verus!
