//! Cost tables of the execution engine.
pub mod host_function;
pub mod host_function_costs_v2;
pub mod storage_costs;
