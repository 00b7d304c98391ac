//! The rows that the health store keeps: one per check, and one with the
//! latest state of each service.

use vstd::prelude::*;

verus! {

/// One health check of a service, as read back from the store.
pub struct CheckRow {
    pub status: String,
    pub response_ms: Option<i64>,
    pub checked_at: String,
}

/// The latest known state of one service.
pub struct ServiceSnapshot {
    pub service: String,
    pub last_status: String,
    pub last_checked: String,
    /// The repository of the service, where its `eps.toml` names one.
    pub repo_url: Option<String>,
}

} // verus!
