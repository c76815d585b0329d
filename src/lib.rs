//! Sharded account storage and resumable-computation framework for an
//! on-ledger privacy protocol.

pub mod error;
pub mod address;
pub mod ledger;
pub mod accounts;
pub mod container;
pub mod big_array;
pub mod computation;
