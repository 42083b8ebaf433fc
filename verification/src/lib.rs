//! A claim registry for bounded, secret-gated, once-per-identity redemptions.
//!
//! An authority registers named events, each with a fixed issuance capacity
//! (`max_supply`) and a shared secret. Participants redeem (claim) one unit of
//! an event at most once per identity by presenting the correct secret, until
//! capacity is exhausted. The registry keeps, for every event, the set of
//! identities that have claimed it and a running `minted_count` that always
//! equals the number of recorded claims and never exceeds `max_supply`.
//!
//! Authentication of callers, persistence of the state, and delivery of the
//! claim notifications are left to the surrounding host; this crate holds the
//! redemption state machine itself, with its invariants proved.

pub mod error;
pub mod event;
pub mod laws;
pub mod registry;
