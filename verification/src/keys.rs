//! Public keys, the account hashes derived from them, and unforgeable references.
use vstd::prelude::*;

use crate::hashing::{blake2b_256, compute_blake2b256};

verus! {

broadcast use vstd::seq_lib::group_seq_properties;

/// Length of an Ed25519 public key.
pub const ED25519_PUBLIC_KEY_LENGTH: usize = 32;

/// Length of a compressed Secp256k1 public key.
pub const SECP256K1_PUBLIC_KEY_LENGTH: usize = 33;

/// Length of an account hash.
pub const ACCOUNT_HASH_LENGTH: usize = 32;

/// A public key.
#[derive(Debug, Clone, Copy, PartialEq, Eq, Hash)]
pub enum PublicKey {
    /// The system public key.
    System,
    /// An Ed25519 public key.
    Ed25519([u8; 32]),
    /// A compressed Secp256k1 public key.
    Secp256k1([u8; 33]),
}

/// A 32-byte account hash.
#[derive(Debug, Clone, Copy, PartialEq, Eq, Hash)]
pub struct AccountHash(pub [u8; 32]);

/// The address of an unforgeable reference.
pub type URefAddr = [u8; 32];

/// The access rights of an unforgeable reference.
#[derive(Debug, Clone, Copy, PartialEq, Eq, Hash)]
pub struct AccessRights(pub u8);

/// An unforgeable reference to a value in global state.
#[derive(Debug, Clone, Copy, PartialEq, Eq, Hash)]
pub struct URef {
    /// The address.
    pub addr: URefAddr,
    /// The access rights.
    pub access_rights: AccessRights,
}

/// The address of an addressable entity, by its kind.
#[derive(Debug, Clone, Copy, PartialEq, Eq, Hash)]
pub enum EntityAddr {
    /// A system entity.
    System([u8; 32]),
    /// An account.
    Account([u8; 32]),
    /// A smart contract.
    SmartContract([u8; 32]),
}

impl EntityAddr {
    /// The address of an account entity.
    pub fn new_account(bytes: [u8; 32]) -> (a: EntityAddr)
        ensures
            a == EntityAddr::Account(bytes),
    {
        EntityAddr::Account(bytes)
    }

    /// The address of a smart contract entity.
    pub fn new_smart_contract(bytes: [u8; 32]) -> (a: EntityAddr)
        ensures
            a == EntityAddr::SmartContract(bytes),
    {
        EntityAddr::SmartContract(bytes)
    }

    /// The 32 address bytes, whatever the kind.
    pub fn value(&self) -> (v: [u8; 32])
        ensures
            v == entity_addr_value(*self),
    {
        match self {
            EntityAddr::System(b) => *b,
            EntityAddr::Account(b) => *b,
            EntityAddr::SmartContract(b) => *b,
        }
    }
}

/// The 32 address bytes of an entity address.
pub open spec fn entity_addr_value(a: EntityAddr) -> [u8; 32] {
    match a {
        EntityAddr::System(b) => b,
        EntityAddr::Account(b) => b,
        EntityAddr::SmartContract(b) => b,
    }
}

/// The address of a named key entry: the entity it belongs to and the digest of its name.
#[derive(Debug, Clone, Copy, PartialEq, Eq, Hash)]
pub struct NamedKeyAddr {
    /// The entity that owns the named key.
    pub base_addr: EntityAddr,
    /// The digest of the name.
    pub string_bytes: [u8; 32],
}

impl NamedKeyAddr {
    /// The address of the entry whose name has digest `digest` under `entity_addr`.
    pub fn new_named_key_entry(entity_addr: EntityAddr, digest: [u8; 32]) -> (a: NamedKeyAddr)
        ensures
            a.base_addr == entity_addr,
            a.string_bytes == digest,
    {
        NamedKeyAddr { base_addr: entity_addr, string_bytes: digest }
    }
}

/// The address of stored byte code, by its kind.
#[derive(Debug, Clone, Copy, PartialEq, Eq, Hash)]
pub enum ByteCodeAddr {
    /// Empty byte code.
    Empty,
    /// Wasm for the first virtual machine.
    V1CasperWasm([u8; 32]),
    /// Wasm for the second virtual machine.
    V2CasperWasm([u8; 32]),
}

/// A key of global state.
#[derive(Debug, Clone, Copy, PartialEq, Eq, Hash)]
pub enum Key {
    /// An account.
    Account(AccountHash),
    /// A hash-addressed value.
    Hash([u8; 32]),
    /// An unforgeable reference.
    URef(URef),
    /// An addressable entity.
    AddressableEntity(EntityAddr),
    /// The state of an entity.
    State(EntityAddr),
    /// A named key entry.
    NamedKey(NamedKeyAddr),
    /// A package.
    Package([u8; 32]),
    /// Byte code.
    ByteCode(ByteCodeAddr),
}

/// The entity address a key designates, if it designates one.
pub open spec fn key_entity_addr(k: Key) -> Option<EntityAddr> {
    match k {
        Key::AddressableEntity(a) => Some(a),
        Key::Account(h) => Some(EntityAddr::Account(h.0)),
        Key::Hash(h) => Some(EntityAddr::SmartContract(h)),
        _ => None,
    }
}

impl Key {
    /// The entity address the key designates: an entity's own, an account's, or a
    /// contract's by its hash; `None` for other keys.
    pub fn into_entity_addr(self) -> (r: Option<EntityAddr>)
        ensures
            r == key_entity_addr(self),
    {
        match self {
            Key::AddressableEntity(a) => Some(a),
            Key::Account(h) => Some(EntityAddr::Account(h.0)),
            Key::Hash(h) => Some(EntityAddr::SmartContract(h)),
            _ => None,
        }
    }
}

/// Compares two 32-byte arrays.
pub fn bytes32_eq(a: &[u8; 32], b: &[u8; 32]) -> (r: bool)
    ensures
        r == (*a == *b),
{
    let mut i: usize = 0;
    while i < 32
        invariant
            i <= 32,
            forall|j: int| 0 <= j < i ==> a@[j] == b@[j],
        decreases 32 - i,
    {
        if a[i] != b[i] {
            return false;
        }
        i = i + 1;
    }
    assert(*a =~= *b);
    true
}

impl AccountHash {
    /// Returns true if the two account hashes are equal.
    pub fn eq_hash(&self, other: &AccountHash) -> (r: bool)
        ensures
            r == (*self == *other),
    {
        bytes32_eq(&self.0, &other.0)
    }
}

/// Access to read.
pub const ACCESS_READ: u8 = 1;

/// Access to write.
pub const ACCESS_WRITE: u8 = 2;

/// Access to add.
pub const ACCESS_ADD: u8 = 4;

/// The reference grants write access.
pub open spec fn spec_is_writeable(u: URef) -> bool {
    u.access_rights.0 & ACCESS_WRITE == ACCESS_WRITE
}

/// The reference grants add access.
pub open spec fn spec_is_addable(u: URef) -> bool {
    u.access_rights.0 & ACCESS_ADD == ACCESS_ADD
}

impl URef {
    /// Returns true if the reference grants write access.
    pub fn is_writeable(&self) -> (b: bool)
        ensures
            b == spec_is_writeable(*self),
    {
        self.access_rights.0 & ACCESS_WRITE == ACCESS_WRITE
    }

    /// Returns true if the reference grants add access.
    pub fn is_addable(&self) -> (b: bool)
        ensures
            b == spec_is_addable(*self),
    {
        self.access_rights.0 & ACCESS_ADD == ACCESS_ADD
    }

    /// Creates a reference.
    pub fn new(addr: URefAddr, access_rights: AccessRights) -> (u: Self)
        ensures
            u.addr == addr,
            u.access_rights == access_rights,
    {
        URef { addr, access_rights }
    }

    /// Returns the address.
    pub fn addr(&self) -> (a: URefAddr)
        ensures
            a == self.addr,
    {
        self.addr
    }
}

/// The ASCII name of the key's algorithm, in lower case.
pub open spec fn algorithm_name(pk: PublicKey) -> Seq<u8> {
    match pk {
        // "system"
        PublicKey::System => seq![115u8, 121, 115, 116, 101, 109],
        // "ed25519"
        PublicKey::Ed25519(_) => seq![101u8, 100, 50, 53, 53, 49, 57],
        // "secp256k1"
        PublicKey::Secp256k1(_) => seq![115u8, 101, 99, 112, 50, 53, 54, 107, 49],
    }
}

/// The raw bytes of the key: none for the system key.
pub open spec fn public_key_bytes(pk: PublicKey) -> Seq<u8> {
    match pk {
        PublicKey::System => Seq::empty(),
        PublicKey::Ed25519(b) => b@,
        PublicKey::Secp256k1(b) => b@,
    }
}

/// What is hashed to get the account hash of a key: the algorithm name, a zero byte, and
/// the key bytes.
pub open spec fn account_hash_preimage(pk: PublicKey) -> Seq<u8> {
    algorithm_name(pk) + seq![0u8] + public_key_bytes(pk)
}

/// `h` is the account hash of `pk`: the BLAKE2b-256 digest of its preimage.
pub open spec fn is_account_hash_of(h: AccountHash, pk: PublicKey) -> bool {
    h.0@ == blake2b_256(account_hash_preimage(pk))
}

pub(crate) fn append_array<const N: usize>(v: &mut Vec<u8>, a: &[u8; N])
    ensures
        final(v)@ == old(v)@ + a@,
{
    let mut i: usize = 0;
    while i < N
        invariant
            i <= N,
            v@ == old(v)@ + a@.take(i as int),
        decreases N - i,
    {
        v.push(a[i]);
        i = i + 1;
        assert(a@.take(i as int) =~= a@.take(i - 1) + seq![a@[i - 1]]);
    }
    assert(a@.take(N as int) =~= a@);
}

/// A key has one account hash: two hashes of the same key are equal.
pub proof fn lemma_account_hash_unique(h1: AccountHash, h2: AccountHash, pk: PublicKey)
    requires
        is_account_hash_of(h1, pk),
    ensures
        is_account_hash_of(h2, pk) <==> h1 == h2,
{
    if is_account_hash_of(h2, pk) {
        assert(h1.0 =~= h2.0);
    }
}

impl PublicKey {
    /// The bytes that are hashed to get the key's account hash.
    pub fn account_hash_preimage(&self) -> (v: Vec<u8>)
        ensures
            v@ == account_hash_preimage(*self),
    {
        let mut data: Vec<u8> = Vec::new();
        match self {
            PublicKey::System => {
                append_array(&mut data, &[115u8, 121, 115, 116, 101, 109]);
                data.push(0);
            },
            PublicKey::Ed25519(b) => {
                append_array(&mut data, &[101u8, 100, 50, 53, 53, 49, 57]);
                data.push(0);
                append_array(&mut data, b);
            },
            PublicKey::Secp256k1(b) => {
                append_array(&mut data, &[115u8, 101, 99, 112, 50, 53, 54, 107, 49]);
                data.push(0);
                append_array(&mut data, b);
            },
        }
        assert(data@ =~= account_hash_preimage(*self));
        data
    }

    /// The account hash of the system key.
    pub fn system_account_hash() -> (h: AccountHash)
        ensures
            is_account_hash_of(h, PublicKey::System),
    {
        PublicKey::System.to_account_hash()
    }

    /// Returns the account hash of the key: the BLAKE2b-256 digest of the algorithm
    /// name, a zero byte and the key bytes.
    pub fn to_account_hash(&self) -> (h: AccountHash)
        ensures
            is_account_hash_of(h, *self),
    {
        let preimage = self.account_hash_preimage();
        AccountHash(compute_blake2b256(preimage.as_slice()))
    }
}

} // verus!
