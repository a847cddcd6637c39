//! Bridge between a foreign host runtime and an asynchronous request core.
//!
//! The library holds the boundary logic that can be stated and proved:
//! decoding a request envelope into its units, fanning a batch out and
//! collecting the responses in input order, resolving a pending-result
//! token exactly once, lazy once-only initialization of the shared core
//! slot, and the ordered relay of core events to a single host listener.
//! The asynchronous scheduler, the foreign call boundary and the opaque
//! request engine stay outside and drive these state machines.

pub mod batch;
pub mod core_slot;
pub mod envelope;
pub mod relay;
pub mod subscriptions;
pub mod token;
