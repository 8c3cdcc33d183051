//! Fixed-capacity, rent-funded, signer-gated mutable records in an
//! account-addressed ledger.
//!
//! A logical record lives at a storage address: a discriminator tag, the
//! identity that paid for it, a bounded payload, and (for some record
//! types) a monotone counter. This crate proves the lifecycle of such
//! records: how their byte footprint is computed from a field list, how
//! allocation reserves exactly that footprint and funds it, how mutation
//! re-validates the record and the caller before rewriting it, how a read
//! returns a faithful snapshot, and how a dispatch facade routes encoded
//! invocations to those handlers.

pub mod dispatch;
pub mod errors;
pub mod greeting;
pub mod handlers;
pub mod laws;
pub mod layout;
pub mod ledger;
pub mod message;
pub mod pubkey;
