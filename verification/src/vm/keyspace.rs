//! Keyspaces: how a contract names its storage, and the global state keys those names map to.
use vstd::prelude::*;
use vstd::string::StringSliceAdditionalSpecFns;
use vstd::utf8::valid_utf8;

use super::caller::Caller;
use crate::hashing::{blake2b_256, compute_blake2b256};
use crate::keys::{entity_addr_value, EntityAddr, Key, NamedKeyAddr};

verus! {

/// The kind of a keyspace, as the guest passes it.
#[derive(Debug, Clone, Copy, PartialEq, Eq, Structural)]
pub enum KeyspaceTag {
    /// The entity's single state value.
    State,
    /// A context entry, named by raw bytes.
    Context,
    /// A named key, named by a UTF-8 string.
    NamedKey,
}

/// The tag with the given number: 0 for state, 1 for context, 2 for a named key.
pub open spec fn spec_keyspace_tag(v: u64) -> Option<KeyspaceTag> {
    if v == 0 {
        Some(KeyspaceTag::State)
    } else if v == 1 {
        Some(KeyspaceTag::Context)
    } else if v == 2 {
        Some(KeyspaceTag::NamedKey)
    } else {
        None
    }
}

impl KeyspaceTag {
    /// The tag with the given number, if there is one.
    pub fn from_u64(v: u64) -> (r: Option<KeyspaceTag>)
        ensures
            r == spec_keyspace_tag(v),
    {
        if v == 0 {
            Some(KeyspaceTag::State)
        } else if v == 1 {
            Some(KeyspaceTag::Context)
        } else if v == 2 {
            Some(KeyspaceTag::NamedKey)
        } else {
            None
        }
    }
}

/// A keyspace with its payload.
pub enum Keyspace<'a> {
    /// The entity's single state value.
    State,
    /// A context entry.
    Context(&'a [u8]),
    /// A named key.
    NamedKey(&'a str),
}

/// The bytes that name an entry of the keyspace: none for the state, the payload for a
/// context entry, the UTF-8 bytes of the name for a named key.
pub open spec fn keyspace_payload(k: Keyspace) -> Seq<u8> {
    match k {
        Keyspace::State => Seq::empty(),
        Keyspace::Context(p) => p@,
        Keyspace::NamedKey(s) => s.spec_bytes(),
    }
}

/// The entity that owns the storage of the running entity `callee`: its account, or the
/// smart contract with the entity's address bytes; none for any other key.
pub open spec fn callee_entity_addr(callee: Key) -> Option<EntityAddr> {
    match callee {
        Key::Account(h) => Some(EntityAddr::Account(h.0)),
        Key::AddressableEntity(a) => Some(EntityAddr::SmartContract(entity_addr_value(a))),
        _ => None,
    }
}

/// The 32-byte array whose bytes are `s`.
pub open spec fn array32(s: Seq<u8>) -> [u8; 32] {
    choose|a: [u8; 32]| a@ == s
}

/// The global state key of an entry of the entity `ea`: its state key, or the named key
/// entry whose name digest is the BLAKE2b-256 hash of `payload`.
pub open spec fn entry_key(ea: EntityAddr, is_state: bool, payload: Seq<u8>) -> Key {
    if is_state {
        Key::State(ea)
    } else {
        Key::NamedKey(NamedKeyAddr { base_addr: ea, string_bytes: array32(blake2b_256(payload)) })
    }
}

/// The global state key of an entry of the running entity `callee`, if it owns storage.
pub open spec fn global_state_key(callee: Key, is_state: bool, payload: Seq<u8>) -> Option<Key> {
    match callee_entity_addr(callee) {
        None => None,
        Some(ea) => Some(entry_key(ea, is_state, payload)),
    }
}

/// An array is the one `array32` names for its bytes.
pub proof fn lemma_array32(a: [u8; 32], s: Seq<u8>)
    requires
        a@ == s,
    ensures
        array32(s) == a,
{
    let b = array32(s);
    assert(b@ == s);
    assert(b =~= a);
}

/// Decodes `bytes` as UTF-8 with `std::str::from_utf8`: `Some` exactly when the bytes are
/// valid UTF-8, as std's documentation states, and then the string's bytes are the input.
#[verifier::external_body]
pub fn str_from_utf8(bytes: &[u8]) -> (r: Option<&str>)
    ensures
        r is Some <==> valid_utf8(bytes@),
        r matches Some(s) ==> s.spec_bytes() == bytes@,
{
    std::str::from_utf8(bytes).ok()
}

/// The global state key of a keyspace entry of the running entity; `None` when the running
/// entity is neither an account nor an addressable entity.
pub fn keyspace_to_global_state_key<C: Caller>(context: &C, keyspace: Keyspace) -> (r: Option<Key>)
    ensures
        r == global_state_key(context.spec_callee(), keyspace is State, keyspace_payload(keyspace)),
{
    let entity_addr = match context.callee() {
        Key::Account(account_hash) => EntityAddr::new_account(account_hash.0),
        Key::AddressableEntity(addressable_entity_hash) => EntityAddr::new_smart_contract(
            addressable_entity_hash.value(),
        ),
        _ => {
            return None;
        },
    };
    match keyspace {
        Keyspace::State => Some(Key::State(entity_addr)),
        Keyspace::Context(payload) => {
            let digest = compute_blake2b256(payload);
            proof {
                lemma_array32(digest, blake2b_256(payload@));
            }
            Some(Key::NamedKey(NamedKeyAddr::new_named_key_entry(entity_addr, digest)))
        },
        Keyspace::NamedKey(payload) => {
            let digest = compute_blake2b256(payload.as_bytes());
            proof {
                lemma_array32(digest, blake2b_256(payload.spec_bytes()));
            }
            Some(Key::NamedKey(NamedKeyAddr::new_named_key_entry(entity_addr, digest)))
        },
    }
}

} // verus!
