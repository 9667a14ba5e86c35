//! Records of the auction of validator slots.
pub mod bid_kind;
pub mod bids;
