//! The generic global state update: a new validator set, balances and bids, derived from a
//! configuration and the current auction state.
pub mod auction_state;
pub mod config;
pub mod generic;
pub mod recipients;
pub mod tracker;
