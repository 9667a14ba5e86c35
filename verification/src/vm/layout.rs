//! The byte layouts of the records host functions write into guest memory: little-endian
//! integers, and `#[repr(C)]` records of them.
use vstd::prelude::*;

use super::types::{CreateResult, ReadInfo};

verus! {

/// The `n` low bytes of `v`, least significant first.
pub open spec fn le_bytes(v: nat, n: nat) -> Seq<u8>
    decreases n,
{
    if n == 0 {
        Seq::empty()
    } else {
        seq![(v % 256) as u8] + le_bytes(v / 256, (n - 1) as nat)
    }
}

/// The length of `le_bytes(v, n)` is `n`.
pub proof fn lemma_le_bytes_len(v: nat, n: nat)
    ensures
        le_bytes(v, n).len() == n,
    decreases n,
{
    if n > 0 {
        lemma_le_bytes_len(v / 256, (n - 1) as nat);
    }
}

/// The `n` low bytes of `v`, least significant first.
fn le_vec(v: u128, n: usize) -> (r: Vec<u8>)
    ensures
        r@ == le_bytes(v as nat, n as nat),
{
    let mut out: Vec<u8> = Vec::new();
    let mut x: u128 = v;
    let mut i: usize = 0;
    while i < n
        invariant
            i <= n,
            out@ + le_bytes(x as nat, (n - i) as nat) == le_bytes(v as nat, n as nat),
        decreases n - i,
    {
        let b: u8 = (x % 256) as u8;
        let ghost rest = le_bytes((x / 256) as nat, (n - i - 1) as nat);
        assert(le_bytes(x as nat, (n - i) as nat) == seq![b] + rest);
        out.push(b);
        x = x / 256;
        i = i + 1;
    }
    assert(le_bytes(x as nat, 0) =~= Seq::<u8>::empty());
    assert(out@ + Seq::<u8>::empty() =~= out@);
    out
}

/// The little-endian bytes of a `u32`.
pub fn u32_le_bytes(v: u32) -> (r: Vec<u8>)
    ensures
        r@ == le_bytes(v as nat, 4),
{
    le_vec(v as u128, 4)
}

/// The little-endian bytes of a `u128`.
pub fn u128_le_bytes(v: u128) -> (r: Vec<u8>)
    ensures
        r@ == le_bytes(v as nat, 16),
{
    le_vec(v, 16)
}

/// The bytes of a `ReadInfo` record: the data pointer, then the data size.
pub open spec fn read_info_bytes(info: ReadInfo) -> Seq<u8> {
    le_bytes(info.data as nat, 4) + le_bytes(info.data_size as nat, 4)
}

/// The bytes of a `CreateResult` record: the package address, the contract address, then
/// the version.
pub open spec fn create_result_bytes(c: CreateResult) -> Seq<u8> {
    c.package_address@ + c.contract_address@ + le_bytes(c.version as nat, 4)
}

impl ReadInfo {
    /// The record's bytes, as the guest reads them.
    pub fn to_bytes(&self) -> (r: Vec<u8>)
        ensures
            r@ == read_info_bytes(*self),
    {
        let mut out = u32_le_bytes(self.data);
        let mut size = u32_le_bytes(self.data_size);
        out.append(&mut size);
        out
    }
}

impl CreateResult {
    /// The record's bytes, as the guest reads them.
    pub fn to_bytes(&self) -> (r: Vec<u8>)
        ensures
            r@ == create_result_bytes(*self),
    {
        let mut out: Vec<u8> = Vec::new();
        let mut i: usize = 0;
        while i < 32
            invariant
                i <= 32,
                out@ == self.package_address@.take(i as int),
            decreases 32 - i,
        {
            out.push(self.package_address[i]);
            i = i + 1;
            assert(out@ =~= self.package_address@.take(i as int));
        }
        let mut j: usize = 0;
        while j < 32
            invariant
                j <= 32,
                out@ == self.package_address@ + self.contract_address@.take(j as int),
            decreases 32 - j,
        {
            out.push(self.contract_address[j]);
            j = j + 1;
            assert(out@ =~= self.package_address@ + self.contract_address@.take(j as int));
        }
        assert(self.package_address@.take(32) =~= self.package_address@);
        assert(self.contract_address@.take(32) =~= self.contract_address@);
        let mut version = u32_le_bytes(self.version);
        out.append(&mut version);
        out
    }
}

} // verus!
