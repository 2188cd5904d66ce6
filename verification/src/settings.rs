//! The operator-tunable bounds that the validation layer and the batch
//! operations enforce.

use vstd::prelude::*;

verus! {

/// Batch-size caps, pagination bounds, the memo size limit, the atomicity
/// flag, the deduplication window and the approval caps. Windows and drift
/// are in seconds.
#[derive(Clone, Copy, PartialEq, Eq, Structural, Debug)]
pub struct Settings {
    pub max_query_batch_size: u16,
    pub max_update_batch_size: u16,
    pub default_take_value: u16,
    pub max_take_value: u16,
    pub max_memo_size: u16,
    pub atomic_batch_transfers: bool,
    pub tx_window: u64,
    pub permitted_drift: u64,
    pub max_approvals_per_token_or_collection: u16,
    pub max_revoke_approvals: u16,
}

impl Settings {
    /// The bounds a fresh collection starts with, before the initialization
    /// argument overrides any of them.
    pub fn initial() -> (r: Settings)
        ensures
            r == (Settings {
                max_query_batch_size: 100u16,
                max_update_batch_size: 20u16,
                default_take_value: 10u16,
                max_take_value: 100u16,
                max_memo_size: 32u16,
                atomic_batch_transfers: false,
                tx_window: 7200u64,
                permitted_drift: 120u64,
                max_approvals_per_token_or_collection: 10u16,
                max_revoke_approvals: 10u16,
            }),
    {
        Settings {
            max_query_batch_size: 100,
            max_update_batch_size: 20,
            default_take_value: 10,
            max_take_value: 100,
            max_memo_size: 32,
            atomic_batch_transfers: false,
            tx_window: 7200,
            permitted_drift: 120,
            max_approvals_per_token_or_collection: 10,
            max_revoke_approvals: 10,
        }
    }
}

} // verus!
