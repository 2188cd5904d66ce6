//! A semi-fungible-token ledger engine: a transactional state machine over
//! tokens, holders and delegated-spending approvals, recording every mutation
//! in a hash-chained, append-only block log.
//!
//! The ledger state lives in an explicit [`ledger::Ledger`] value; the host
//! environment (clock, caller identity, persistence) stays outside and hands
//! plain values in.

pub mod assoc;
pub mod bytesutil;
pub mod challenge;
pub mod collection;
pub mod crypto;
pub mod ids;
pub mod ledger;
pub mod settings;
pub mod standards;
pub mod tx;
pub mod types;
pub mod val;

use vstd::prelude::*;

verus! {

/// Nanoseconds per second: call timestamps arrive in nanoseconds and are
/// compared in seconds.
pub const SECOND: u64 = 1_000_000_000;

} // verus!
