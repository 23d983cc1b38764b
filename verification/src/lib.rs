//! A custodial swap vault with commitment-bound, exactly-once release.
//!
//! The crate has two halves. The off-ledger half derives the 32-byte
//! commitment digest of a set of swap parameters, either through the
//! validating guest program or through the plain fallback computation. The
//! ledger half is the state machine that registers a digest together with the
//! release terms and pays the designated recipient at most once.

pub mod commitment;
pub mod error;
pub mod guest;
pub mod host;
pub mod identity_map;
pub mod journal;
pub mod laws;
pub mod ledger;
pub mod native_vault;
pub mod state;
