//! The cost of one host function: a fixed cost and a cost per unit of each argument.
use vstd::bytes::{
    lemma_auto_spec_u32_to_from_le_bytes, spec_u32_from_le_bytes, spec_u32_to_le_bytes,
};
use vstd::prelude::*;

use crate::bytesrepr::{from_bytes_u32, u32_bytes, write_u32, Error};
use crate::gas::Gas;
use crate::u512::{u512_bound, U512};

verus! {

broadcast use vstd::seq_lib::group_seq_properties, vstd::array::group_array_axioms;

/// Representation of argument's cost.
pub type Cost = u32;

/// Representation of a host function cost.
///
/// The total gas cost is `cost` plus, for each argument, its weight times its cost.
#[derive(Debug, Clone, Copy, PartialEq, Eq)]
pub struct HostFunction<const N: usize> {
    /// How much the user is charged for calling the host function.
    cost: Cost,
    /// Weights of the function arguments.
    arguments: [Cost; N],
}

/// The sum over the first `n` arguments of argument cost times weight.
pub open spec fn weighted_sum(arguments: Seq<u32>, weights: Seq<u32>, n: nat) -> int
    decreases n,
{
    if n == 0 {
        0
    } else {
        weighted_sum(arguments, weights, (n - 1) as nat) + arguments[n - 1] * weights[n - 1]
    }
}

/// A weighted sum of `n` terms is at most `n` times the largest product of two `u32`s.
pub proof fn lemma_weighted_sum_bound(arguments: Seq<u32>, weights: Seq<u32>, n: nat)
    requires
        n <= arguments.len(),
        n <= weights.len(),
    ensures
        0 <= weighted_sum(arguments, weights, n) <= n * 0xffff_fffe_0000_0001,
    decreases n,
{
    if n > 0 {
        lemma_weighted_sum_bound(arguments, weights, (n - 1) as nat);
        let a = arguments[n - 1];
        let w = weights[n - 1];
        assert(0 <= a * w <= 0xffff_fffe_0000_0001) by (nonlinear_arith)
            requires
                a <= u32::MAX,
                w <= u32::MAX,
        ;
    }
}

/// 2^512 exceeds 2^128.
pub proof fn lemma_u512_bound_exceeds_u128()
    ensures
        u512_bound() > 0x1_0000_0000_0000_0000_0000_0000_0000_0000 * 2,
{
    reveal_with_fuel(crate::u512::limb_weight, 9);
    assert(crate::u512::limb_weight(1) == 0x1_0000_0000_0000_0000);
    assert(crate::u512::limb_weight(2) == 0x1_0000_0000_0000_0000_0000_0000_0000_0000);
    assert(crate::u512::limb_weight(3) == 0x1_0000_0000_0000_0000_0000_0000_0000_0000_0000_0000_0000_0000);
    crate::u512::lemma_limb_weight_pos(5);
    assert(crate::u512::limb_weight(4) == 0x1_0000_0000_0000_0000 * crate::u512::limb_weight(3));
    assert(crate::u512::limb_weight(5) == 0x1_0000_0000_0000_0000 * crate::u512::limb_weight(4));
    assert(crate::u512::limb_weight(6) == 0x1_0000_0000_0000_0000 * crate::u512::limb_weight(5));
    assert(crate::u512::limb_weight(7) == 0x1_0000_0000_0000_0000 * crate::u512::limb_weight(6));
    assert(crate::u512::limb_weight(8) == 0x1_0000_0000_0000_0000 * crate::u512::limb_weight(7));
    assert(crate::u512::limb_weight(8) >= crate::u512::limb_weight(3)) by (nonlinear_arith)
        requires
            crate::u512::limb_weight(4) == 0x1_0000_0000_0000_0000 * crate::u512::limb_weight(3),
            crate::u512::limb_weight(5) == 0x1_0000_0000_0000_0000 * crate::u512::limb_weight(4),
            crate::u512::limb_weight(6) == 0x1_0000_0000_0000_0000 * crate::u512::limb_weight(5),
            crate::u512::limb_weight(7) == 0x1_0000_0000_0000_0000 * crate::u512::limb_weight(6),
            crate::u512::limb_weight(8) == 0x1_0000_0000_0000_0000 * crate::u512::limb_weight(7),
            crate::u512::limb_weight(3) > 0,
    ;
}

/// The little-endian encodings of a sequence of `u32`s, one after another.
pub open spec fn u32s_bytes(s: Seq<u32>) -> Seq<u8>
    decreases s.len(),
{
    if s.len() == 0 {
        Seq::empty()
    } else {
        u32s_bytes(s.drop_last()) + u32_bytes(s.last())
    }
}

/// The encoding of a host function: its cost, then each argument cost.
pub open spec fn host_function_bytes(cost: u32, arguments: Seq<u32>) -> Seq<u8> {
    u32_bytes(cost) + u32s_bytes(arguments)
}

pub proof fn lemma_u32s_bytes_len(s: Seq<u32>)
    ensures
        u32s_bytes(s).len() == 4 * s.len(),
    decreases s.len(),
{
    lemma_auto_spec_u32_to_from_le_bytes();
    if s.len() > 0 {
        lemma_u32s_bytes_len(s.drop_last());
    }
}

/// Two sequences of `u32` of one length with the same encoding are equal.
pub proof fn lemma_u32s_bytes_injective(a: Seq<u32>, b: Seq<u32>)
    requires
        a.len() == b.len(),
        u32s_bytes(a) == u32s_bytes(b),
    ensures
        a == b,
    decreases a.len(),
{
    lemma_auto_spec_u32_to_from_le_bytes();
    if a.len() > 0 {
        let a0 = a.drop_last();
        let b0 = b.drop_last();
        lemma_u32s_bytes_len(a0);
        lemma_u32s_bytes_len(b0);
        lemma_concat_split(u32s_bytes(a0), u32_bytes(a.last()), u32s_bytes(b0), u32_bytes(b.last()));
        lemma_u32s_bytes_injective(a0, b0);
        lemma_u32_bytes_injective(a.last(), b.last());
        assert(a =~= a0.push(a.last()));
        assert(b =~= b0.push(b.last()));
    }
}

pub proof fn lemma_u32_bytes_injective(x: u32, y: u32)
    requires
        u32_bytes(x) == u32_bytes(y),
    ensures
        x == y,
{
    lemma_auto_spec_u32_to_from_le_bytes();
    assert(u32_bytes(x).len() == 4);
    assert(u32_bytes(y).len() == 4);
}

/// Splitting concatenations whose first parts have equal lengths.
pub proof fn lemma_concat_split(a1: Seq<u8>, b1: Seq<u8>, a2: Seq<u8>, b2: Seq<u8>)
    requires
        a1.len() == a2.len(),
        a1 + b1 == a2 + b2,
    ensures
        a1 == a2,
        b1 == b2,
{
    assert(a1 =~= (a1 + b1).take(a1.len() as int));
    assert(a2 =~= (a2 + b2).take(a1.len() as int));
    assert(b1 =~= (a1 + b1).skip(a1.len() as int));
    assert(b2 =~= (a2 + b2).skip(a1.len() as int));
}

impl<const N: usize> HostFunction<N> {
    pub closed spec fn spec_cost(&self) -> u32 {
        self.cost
    }

    pub closed spec fn spec_arguments(&self) -> Seq<u32> {
        self.arguments@
    }

    /// The host function's bytes on the wire.
    pub open spec fn spec_bytes(&self) -> Seq<u8> {
        host_function_bytes(self.spec_cost(), self.spec_arguments())
    }

    /// Number of bytes of the encoding of a host function with `N` arguments.
    pub open spec fn spec_serialized_length() -> nat {
        (4 + 4 * N) as nat
    }

    pub proof fn lemma_arguments_len(&self)
        ensures
            self.spec_arguments().len() == N,
            self.spec_bytes().len() == Self::spec_serialized_length(),
    {
        lemma_auto_spec_u32_to_from_le_bytes();
        lemma_u32s_bytes_len(self.arguments@);
    }

    /// Creates a new instance of `HostFunction` with a fixed call cost and argument weights.
    pub fn new(cost: Cost, arguments: [Cost; N]) -> (h: Self)
        ensures
            h.spec_cost() == cost,
            h.spec_arguments() == arguments@,
    {
        Self { cost, arguments }
    }

    /// Creates a host function with a fixed cost and every argument cost zero.
    pub fn fixed(cost: Cost) -> (h: Self)
        ensures
            h.spec_cost() == cost,
            h.spec_arguments() == Seq::new(N as nat, |i: int| 0u32),
    {
        let arguments: [Cost; N] = [0u32; N];
        let h = Self { cost, arguments };
        assert(h.spec_arguments() =~= Seq::new(N as nat, |i: int| 0u32));
        h
    }

    /// A host function whose cost and argument costs are all zero.
    pub fn zero() -> (h: Self)
        ensures
            h.spec_cost() == 0,
            h.spec_arguments() == Seq::new(N as nat, |i: int| 0u32),
    {
        Self::fixed(0)
    }

    /// Returns true if the cost and every argument cost are zero.
    pub fn is_zero(&self) -> (b: bool)
        ensures
            b == (self.spec_cost() == 0 && forall|i: int|
                0 <= i < N ==> #[trigger] self.spec_arguments()[i] == 0),
    {
        if self.cost != 0 {
            return false;
        }
        let mut i: usize = 0;
        while i < N
            invariant
                i <= N,
                forall|j: int| 0 <= j < i ==> #[trigger] self.arguments@[j] == 0,
            decreases N - i,
        {
            if self.arguments[i] != 0 {
                assert(self.spec_arguments()[i as int] != 0);
                return false;
            }
            i = i + 1;
        }
        true
    }

    /// Returns the cost of calling the host function.
    pub fn cost(&self) -> (c: Cost)
        ensures
            c == self.spec_cost(),
    {
        self.cost
    }

    /// Returns the argument costs.
    pub fn arguments(&self) -> (a: &[Cost; N])
        ensures
            a@ == self.spec_arguments(),
    {
        &self.arguments
    }

    /// Calculates the gas cost of a call whose arguments have the given weights: the fixed
    /// cost plus each argument cost times its weight. The sum always fits in a 512-bit gas
    /// amount.
    pub fn calculate_gas_cost(&self, weights: [Cost; N]) -> (g: Option<Gas>)
        ensures
            g matches Some(gas) && gas.spec_value() == self.spec_cost() + weighted_sum(
                self.spec_arguments(),
                weights@,
                N as nat,
            ),
    {
        let mut gas: U512 = U512::from_u128(self.cost as u128);
        let mut i: usize = 0;
        while i < N
            invariant
                i <= N,
                gas.value() == self.cost + weighted_sum(self.arguments@, weights@, i as nat),
            decreases N - i,
        {
            let argument: u32 = self.arguments[i];
            let weight: u32 = weights[i];
            assert((argument as u64) * (weight as u64) <= u64::MAX) by (nonlinear_arith)
                requires
                    argument <= u32::MAX,
                    weight <= u32::MAX,
            ;
            let product = U512::from_u128(((argument as u64) * (weight as u64)) as u128);
            proof {
                lemma_weighted_sum_bound(self.arguments@, weights@, (i + 1) as nat);
                lemma_u512_bound_exceeds_u128();
                let k = (i + 1) as int;
                assert(k * 0xffff_fffe_0000_0001 <= 0x1_0000_0000_0000_0000 * 0xffff_fffe_0000_0001) by (nonlinear_arith)
                    requires
                        0 <= k <= 0x1_0000_0000_0000_0000,
                ;
            }
            gas = match gas.checked_add(&product) {
                Some(sum) => sum,
                None => return None,
            };
            i = i + 1;
        }
        Some(Gas::new(gas))
    }

    /// Number of bytes of the encoding.
    pub fn serialized_length(&self) -> (n: usize)
        requires
            4 + 4 * N <= usize::MAX,
        ensures
            n == self.spec_bytes().len(),
    {
        proof {
            self.lemma_arguments_len();
        }
        4 + 4 * N
    }

    /// Appends the encoding to `writer`.
    pub fn write_bytes(&self, writer: &mut Vec<u8>) -> (res: Result<(), Error>)
        ensures
            res is Ok,
            final(writer)@ == old(writer)@ + self.spec_bytes(),
    {
        write_u32(writer, self.cost);
        let mut i: usize = 0;
        while i < N
            invariant
                i <= N,
                writer@ == old(writer)@ + u32_bytes(self.cost) + u32s_bytes(
                    self.arguments@.take(i as int),
                ),
            decreases N - i,
        {
            write_u32(writer, self.arguments[i]);
            proof {
                let t = self.arguments@.take(i + 1);
                assert(t.drop_last() =~= self.arguments@.take(i as int));
            }
            i = i + 1;
        }
        assert(self.arguments@.take(N as int) =~= self.arguments@);
        assert(writer@ =~= old(writer)@ + self.spec_bytes());
        Ok(())
    }

    /// Serializes the host function.
    pub fn to_bytes(&self) -> (res: Result<Vec<u8>, Error>)
        ensures
            res matches Ok(v) && v@ == self.spec_bytes(),
    {
        let mut buffer: Vec<u8> = Vec::new();
        self.write_bytes(&mut buffer)?;
        assert(buffer@ =~= self.spec_bytes());
        Ok(buffer)
    }

    /// Deserializes a host function from the front of `bytes`: it succeeds exactly when
    /// there are enough bytes, and the host function returned is the one whose encoding
    /// the consumed bytes are.
    pub fn from_bytes(bytes: &[u8]) -> (res: Result<(Self, &[u8]), Error>)
        ensures
            res is Ok <==> bytes@.len() >= Self::spec_serialized_length(),
            res is Err ==> res == Err::<(Self, &[u8]), Error>(Error::EarlyEndOfStream),
            res matches Ok((h, rem)) ==> h.spec_bytes() == bytes@.take(
                Self::spec_serialized_length() as int,
            ) && rem@ == bytes@.skip(Self::spec_serialized_length() as int),
            forall|x: Self|
                #[trigger] x.spec_bytes().is_prefix_of(bytes@)
                    ==> (res matches Ok((h, _)) && h == x),
    {
        proof {
            lemma_auto_spec_u32_to_from_le_bytes();
            assert forall|x: Self|
                #[trigger] x.spec_bytes().is_prefix_of(bytes@)
                    implies bytes@.len() >= Self::spec_serialized_length() by {
                x.lemma_arguments_len();
            }
        }
        if bytes.len() < 4 || (bytes.len() - 4) / 4 < N {
            return Err(Error::EarlyEndOfStream);
        }
        let (cost, mut rem) = from_bytes_u32(bytes)?;
        let mut arguments: [Cost; N] = [0u32; N];
        let mut i: usize = 0;
        while i < N
            invariant
                i <= N,
                bytes@.len() >= 4 + 4 * N,
                rem@ == bytes@.skip(4 + 4 * i),
                u32_bytes(cost) + u32s_bytes(arguments@.take(i as int)) == bytes@.take(
                    4 + 4 * i,
                ),
            decreases N - i,
        {
            let (v, r) = from_bytes_u32(rem)?;
            proof {
                lemma_auto_spec_u32_to_from_le_bytes();
                let chunk = rem@.take(4);
                assert(chunk.len() == 4);
                assert(v == spec_u32_from_le_bytes(chunk));
                assert(spec_u32_to_le_bytes(spec_u32_from_le_bytes(chunk)) == chunk);
                assert(u32_bytes(v) == chunk);
                assert(bytes@.take(4 + 4 * (i + 1)) =~= bytes@.take(4 + 4 * i) + chunk);
            }
            let ghost prev = arguments@;
            arguments[i] = v;
            proof {
                assert(arguments@.take(i as int) =~= prev.take(i as int));
                assert(arguments@.take(i + 1).drop_last() =~= arguments@.take(i as int));
            }
            rem = r;
            i = i + 1;
        }
        assert(arguments@.take(N as int) =~= arguments@);
        let h = HostFunction { cost, arguments };
        proof {
            assert forall|x: Self|
                #[trigger] x.spec_bytes().is_prefix_of(bytes@)
                    implies h == x by {
                x.lemma_arguments_len();
                assert(x.spec_bytes() =~= bytes@.take(Self::spec_serialized_length() as int));
                lemma_host_function_bytes_injective(h, x);
            }
        }
        Ok((h, rem))
    }
}

/// The weighted sum only grows with more arguments.
pub proof fn lemma_weighted_sum_monotone(arguments: Seq<u32>, weights: Seq<u32>, m: nat, n: nat)
    requires
        m <= n,
    ensures
        weighted_sum(arguments, weights, m) <= weighted_sum(arguments, weights, n),
    decreases n - m,
{
    if m < n {
        lemma_weighted_sum_monotone(arguments, weights, m, (n - 1) as nat);
        let a = arguments[n - 1] as int;
        let w = weights[n - 1] as int;
        assert(a * w >= 0) by (nonlinear_arith)
            requires
                a >= 0,
                w >= 0,
        ;
    }
}

/// Two host functions with the same encoding are the same host function, so decoding an
/// encoded host function gives it back.
pub proof fn lemma_host_function_bytes_injective<const N: usize>(a: HostFunction<N>, b: HostFunction<N>)
    requires
        a.spec_bytes() == b.spec_bytes(),
    ensures
        a == b,
{
    lemma_auto_spec_u32_to_from_le_bytes();
    a.lemma_arguments_len();
    b.lemma_arguments_len();
    lemma_concat_split(
        u32_bytes(a.spec_cost()),
        u32s_bytes(a.spec_arguments()),
        u32_bytes(b.spec_cost()),
        u32s_bytes(b.spec_arguments()),
    );
    lemma_u32_bytes_injective(a.spec_cost(), b.spec_cost());
    lemma_u32s_bytes_injective(a.spec_arguments(), b.spec_arguments());
    assert(a.arguments =~= b.arguments);
}

} // verus!
