//! Host functions of the second virtual machine: what a contract may ask of the node,
//! from reading and writing its storage to calling, creating and upgrading contracts.
pub mod layout;
pub mod types;
pub mod caller;
pub mod keyspace;
pub mod host;
