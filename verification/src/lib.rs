//! A deterministic ledger-record lifecycle engine.
//!
//! The library derives stable addresses for per-user records from seed
//! schemes, creates and validates those records against an append-style
//! record store, and drives a small staking state machine with time-based
//! reward accrual, delegating token minting to an authority it controls
//! through a derived signing address.

pub mod addr;
pub mod bridge;
pub mod codec;
pub mod dispatch;
pub mod error;
pub mod intro;
pub mod laws;
pub mod ledger;
pub mod records;
pub mod stake;
