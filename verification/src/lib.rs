//! A verified digital-asset registry.
//!
//! The registry manages ownership of uniquely identified tokens organized
//! into classes and collections, enforces per-class transferability policy,
//! escrows a deposit proportional to stored data for every class and token,
//! and supports governance-level overrides (force transfer, force lock)
//! distinct from owner-initiated operations.
//!
//! The whole system state — the collection and class tables, the lock set,
//! the supporter ledger, the promotion flag, the balance ledger that holds
//! every account's free and reserved funds, and the auction listing board —
//! lives in a single [`registry::Registry`] value. Every public operation is
//! a method on it whose contract gives the exact successor state and result,
//! so that any failure leaves the state unchanged (all-or-nothing).

pub mod batch;
pub mod create;
pub mod deposit;
pub mod escrow;
pub mod laws;
pub mod ledger;
pub mod mint;
pub mod transfer;
pub mod registry;
pub mod support;
pub mod types;
