//! Support for storage costs.
use vstd::prelude::*;

use crate::bytesrepr::{
    from_bytes_u32, lemma_u32_roundtrip, parse_u32, u32_bytes, write_u32, Error,
    Parsed, U32_SERIALIZED_LENGTH,
};
use crate::gas::Gas;
use crate::u512::U512;

verus! {

/// Default gas cost per byte stored.
pub const DEFAULT_GAS_PER_BYTE_COST: u32 = 1_117_587;

/// Represents a cost table for storage costs.
#[derive(Debug, Clone, Copy, PartialEq, Eq, Structural)]
pub struct StorageCosts {
    /// Gas charged per byte stored in the global state.
    gas_per_byte: u32,
}

impl StorageCosts {
    pub closed spec fn spec_gas_per_byte(&self) -> u32 {
        self.gas_per_byte
    }

    /// The cost table's bytes on the wire.
    pub open spec fn spec_bytes(&self) -> Seq<u8> {
        u32_bytes(self.spec_gas_per_byte())
    }

    /// Decoding of a cost table from the front of `s`.
    pub open spec fn spec_parse(s: Seq<u8>) -> Parsed<u32> {
        parse_u32(s)
    }

    /// Creates new `StorageCosts`.
    pub fn new(gas_per_byte: u32) -> (c: Self)
        ensures
            c.spec_gas_per_byte() == gas_per_byte,
    {
        Self { gas_per_byte }
    }

    /// Returns amount of gas per byte stored.
    pub fn gas_per_byte(&self) -> (g: u32)
        ensures
            g == self.spec_gas_per_byte(),
    {
        self.gas_per_byte
    }

    /// Calculates gas cost for storing `bytes`.
    pub fn calculate_gas_cost(&self, bytes: usize) -> (g: Gas)
        ensures
            g.spec_value() == self.spec_gas_per_byte() * bytes,
    {
        let per_byte: u32 = self.gas_per_byte;
        assert((per_byte as u128) * (bytes as u128) <= u128::MAX) by (nonlinear_arith)
            requires
                per_byte <= u32::MAX,
                bytes <= usize::MAX,
                usize::MAX <= u64::MAX,
        ;
        Gas::new(U512::from_u128((per_byte as u128) * (bytes as u128)))
    }

    /// The table in which storage costs nothing.
    pub fn zero() -> (c: Self)
        ensures
            c.spec_gas_per_byte() == 0,
    {
        StorageCosts { gas_per_byte: 0 }
    }

    /// Returns true if storage costs nothing.
    pub fn is_zero(&self) -> (b: bool)
        ensures
            b == (self.spec_gas_per_byte() == 0),
    {
        self.gas_per_byte == 0
    }

    /// Number of bytes of the encoding.
    pub fn serialized_length(&self) -> (n: usize)
        ensures
            n == self.spec_bytes().len(),
    {
        proof {
            lemma_u32_roundtrip(self.gas_per_byte, seq![]);
        }
        U32_SERIALIZED_LENGTH
    }

    /// Serializes the cost table.
    pub fn to_bytes(&self) -> (res: Result<Vec<u8>, Error>)
        ensures
            res matches Ok(v) && v@ == self.spec_bytes(),
    {
        let mut ret: Vec<u8> = Vec::new();
        write_u32(&mut ret, self.gas_per_byte);
        assert(ret@ =~= self.spec_bytes());
        Ok(ret)
    }

    /// Deserializes a cost table from the front of `bytes`.
    pub fn from_bytes(bytes: &[u8]) -> (res: Result<(Self, &[u8]), Error>)
        ensures
            match res {
                Ok((c, rem)) => Self::spec_parse(bytes@) == Ok::<(u32, Seq<u8>), Error>(
                    (c.spec_gas_per_byte(), rem@),
                ),
                Err(e) => Self::spec_parse(bytes@) == Err::<(u32, Seq<u8>), Error>(e),
            },
    {
        let (gas_per_byte, rem) = from_bytes_u32(bytes)?;
        Ok((StorageCosts { gas_per_byte }, rem))
    }
}

impl Default for StorageCosts {
    fn default() -> (c: Self)
        ensures
            c.spec_gas_per_byte() == DEFAULT_GAS_PER_BYTE_COST,
    {
        Self { gas_per_byte: DEFAULT_GAS_PER_BYTE_COST }
    }
}

/// Serializing a storage cost table and reading it back, followed by anything, gives the
/// same table.
pub proof fn lemma_storage_costs_roundtrip(c: StorageCosts, rest: Seq<u8>)
    ensures
        StorageCosts::spec_parse(c.spec_bytes() + rest) == Ok::<(u32, Seq<u8>), Error>(
            (c.spec_gas_per_byte(), rest),
        ),
{
    lemma_u32_roundtrip(c.spec_gas_per_byte(), rest);
}

} // verus!
