//! Finding the purse that a balance identifier names: the request, and its outcome.
use vstd::prelude::*;

use crate::keys::URefAddr;
use crate::update_gen::config::ProtocolVersion;

verus! {

/// A request for the purse that `identifier` names, in the global state under `state_hash`.
#[derive(Debug, Clone, PartialEq, Eq)]
pub struct BalanceIdentifierPurseRequest<I> {
    state_hash: [u8; 32],
    protocol_version: ProtocolVersion,
    identifier: I,
}

impl<I> BalanceIdentifierPurseRequest<I> {
    /// The state hash.
    pub closed spec fn spec_state_hash(&self) -> [u8; 32] {
        self.state_hash
    }

    /// The protocol version.
    pub closed spec fn spec_protocol_version(&self) -> ProtocolVersion {
        self.protocol_version
    }

    /// The identifier.
    pub closed spec fn spec_identifier(&self) -> I {
        self.identifier
    }

    /// Creates a new request.
    pub fn new(state_hash: [u8; 32], protocol_version: ProtocolVersion, identifier: I) -> (r: Self)
        ensures
            r.spec_state_hash() == state_hash,
            r.spec_protocol_version() == protocol_version,
            r.spec_identifier() == identifier,
    {
        BalanceIdentifierPurseRequest { state_hash, protocol_version, identifier }
    }

    /// Returns the state hash.
    pub fn state_hash(&self) -> (h: [u8; 32])
        ensures
            h == self.spec_state_hash(),
    {
        self.state_hash
    }

    /// Returns the protocol version.
    pub fn protocol_version(&self) -> (v: ProtocolVersion)
        ensures
            v == self.spec_protocol_version(),
    {
        self.protocol_version
    }

    /// Returns the identifier.
    pub fn identifier(&self) -> (i: &I)
        ensures
            *i == self.spec_identifier(),
    {
        &self.identifier
    }
}

/// The outcome of a purse request.
#[derive(Debug, Clone, PartialEq, Eq)]
pub enum BalanceIdentifierPurseResult<E> {
    /// The state root hash is not found.
    RootNotFound,
    /// The identifier names this purse.
    Success { purse_addr: URefAddr },
    /// The lookup failed.
    Failure(E),
}

impl<E> BalanceIdentifierPurseResult<E> {
    /// The purse address, for a success.
    pub fn purse_addr(&self) -> (r: Option<URefAddr>)
        ensures
            r == match *self {
                BalanceIdentifierPurseResult::Success { purse_addr } => Some(purse_addr),
                _ => None,
            },
    {
        match self {
            BalanceIdentifierPurseResult::Success { purse_addr } => Some(*purse_addr),
            _ => None,
        }
    }

    /// Was the request successful?
    pub fn is_success(&self) -> (b: bool)
        ensures
            b == (*self is Success),
    {
        match self {
            BalanceIdentifierPurseResult::RootNotFound | BalanceIdentifierPurseResult::Failure(_) => false,
            BalanceIdentifierPurseResult::Success { .. } => true,
        }
    }

    /// The error, for a failure.
    pub fn error(&self) -> (r: Option<&E>)
        ensures
            match *self {
                BalanceIdentifierPurseResult::Failure(e) => r == Some(&e),
                _ => r is None,
            },
    {
        match self {
            BalanceIdentifierPurseResult::RootNotFound | BalanceIdentifierPurseResult::Success { .. } => None,
            BalanceIdentifierPurseResult::Failure(err) => Some(err),
        }
    }

    /// The outcome of a failed lookup.
    pub fn from_error(e: E) -> (r: Self)
        ensures
            r == BalanceIdentifierPurseResult::Failure(e),
    {
        BalanceIdentifierPurseResult::Failure(e)
    }
}

} // verus!
