//! Consensus: vote weights and evidence of faulty validators.
pub mod weight;
pub mod evidence;
