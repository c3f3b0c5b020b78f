//! Supervision engine for a fleet of long-running services on one host:
//! the status registry, the reconciliation state machine, resolution of the
//! managed applications, bandwidth aggregation, command planning and the
//! portal endpoint table, each with its contract.
use vstd::prelude::*;

pub mod model;
pub mod text;
pub mod classify;
pub mod keyed;
pub mod reconcile;
pub mod identity;
pub mod resolve;
pub mod bandwidth;
pub mod lifecycle;
pub mod dispatch;
pub mod portal;
pub mod summary;
pub mod monitor;
pub mod locks;
pub mod laws;
pub mod state;
pub mod launch;
pub mod handshake;
pub mod cgroup;

verus! {

} // verus!
