//! A key-custody and transaction-authorization module.
//!
//! An [`hsm::UnsealedHsm`] is provisioned with a master key and a set of
//! authorization policies, then sealed. The resulting [`hsm::SealedHsm`]
//! signs a request only when at least one stored policy approves it.

pub mod engine;
pub mod error;
pub mod hsm;
pub mod keys;
pub mod policy;
pub mod signing;
pub mod transaction;
