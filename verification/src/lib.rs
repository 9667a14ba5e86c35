//! Verified core logic of a Casper node: the binary-port response framing, the cost tables
//! of the execution engine, auction bid records, consensus weights and evidence checks, the
//! token-ledger rules of the mint, the host functions of the second-generation VM, the
//! generic global state update, the block synchronizer's requests, and the object pool.
use vstd::prelude::*;

pub mod auction;
pub mod balance_identifier_purse;
pub mod block_synchronizer;
pub mod binary_port;
pub mod bytesrepr;
pub mod chainspec;
pub mod consensus;
pub mod gas;
pub mod hashing;
pub mod keys;
pub mod mint;
pub mod network;
pub mod object_pool;
pub mod ordered;
pub mod ratio;
pub mod schema;
pub mod u512;
pub mod update_gen;
pub mod vm;

verus! {
} // verus!
