//! A two-asset weighted AMM pool with a collateralized-borrowing facility.
//!
//! The crate is split into a stateless invariant-math library (`arith`,
//! `oracle`) and a pool/position state machine (`schema`, `instructions`).
//! Every operation computes its reserve/fee/supply updates with checked
//! fixed-point integer arithmetic and reports the custody side effects it
//! needs (`custody`) to the host that owns the actual asset accounts.

pub mod arith;
pub mod custody;
pub mod errors;
pub mod instructions;
pub mod laws;
pub mod oracle;
pub mod schema;
