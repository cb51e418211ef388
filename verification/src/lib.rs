//! Verified core of a small network transfer benchmark: payload sizes,
//! configuration, packet framing, payload chunking and hashing, transfer
//! statistics and the receiver's bookkeeping.
use vstd::prelude::*;

pub mod account;
pub mod cli;
pub mod config;
pub mod error;
pub mod packet;
pub mod payload;
pub mod receiver;
pub mod size;
pub mod stats;
pub mod transport;

verus! {

} // verus!
