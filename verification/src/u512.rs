//! A 512-bit unsigned integer, for token amounts.
use vstd::prelude::*;

verus! {

broadcast use vstd::seq_lib::group_seq_properties, vstd::array::group_array_axioms;

/// 2^64, the weight of one limb over the one below it.
pub open spec fn limb_base() -> nat {
    0x1_0000_0000_0000_0000
}

/// The weight of the limb at index `i`: 2^(64 i).
pub open spec fn limb_weight(i: nat) -> nat
    decreases i,
{
    if i == 0 {
        1
    } else {
        limb_base() * limb_weight((i - 1) as nat)
    }
}

/// The number that little-endian 64-bit limbs stand for.
pub open spec fn limbs_value(s: Seq<u64>) -> nat
    decreases s.len(),
{
    if s.len() == 0 {
        0
    } else {
        limbs_value(s.drop_last()) + s.last() as nat * limb_weight((s.len() - 1) as nat)
    }
}

pub proof fn lemma_limb_weight_pos(i: nat)
    ensures
        limb_weight(i) > 0,
    decreases i,
{
    if i > 0 {
        lemma_limb_weight_pos((i - 1) as nat);
        assert(limb_base() * limb_weight((i - 1) as nat) > 0) by (nonlinear_arith)
            requires
                limb_weight((i - 1) as nat) > 0,
        ;
    }
}

/// `n` limbs stand for less than 2^(64 n).
pub proof fn lemma_limbs_value_bound(s: Seq<u64>)
    ensures
        limbs_value(s) < limb_weight(s.len()),
    decreases s.len(),
{
    if s.len() > 0 {
        let n = (s.len() - 1) as nat;
        lemma_limbs_value_bound(s.drop_last());
        lemma_limb_weight_pos(n);
        let w = limb_weight(n);
        let v = limbs_value(s.drop_last());
        let l = s.last() as nat;
        assert(v + l * w < limb_base() * w) by (nonlinear_arith)
            requires
                v < w,
                l < limb_base(),
                w > 0,
        ;
    }
}

/// Limbs are all zero exactly when they stand for zero.
pub proof fn lemma_limbs_value_zero(s: Seq<u64>)
    ensures
        limbs_value(s) == 0 <==> forall|i: int| 0 <= i < s.len() ==> #[trigger] s[i] == 0,
    decreases s.len(),
{
    if s.len() > 0 {
        let prefix = s.drop_last();
        let n = (s.len() - 1) as nat;
        lemma_limbs_value_zero(prefix);
        lemma_limb_weight_pos(n);
        let w = limb_weight(n);
        let l = s.last() as nat;
        assert(l * w >= 0) by (nonlinear_arith);
        assert(l * w == 0 <==> l == 0) by (nonlinear_arith)
            requires
                w > 0,
        ;
        if limbs_value(s) == 0 {
            assert forall|i: int| 0 <= i < s.len() implies #[trigger] s[i] == 0 by {
                if i < n {
                    assert(s[i] == prefix[i]);
                }
            }
        }
        if forall|i: int| 0 <= i < s.len() ==> #[trigger] s[i] == 0 {
            assert forall|i: int| 0 <= i < prefix.len() implies #[trigger] prefix[i] == 0 by {
                assert(prefix[i] == s[i]);
            }
            assert(s[n as int] == 0);
        }
    }
}

/// The value of a prefix one limb longer.
pub proof fn lemma_limbs_value_prefix(s: Seq<u64>, i: int)
    requires
        0 <= i < s.len(),
    ensures
        limbs_value(s.take(i + 1)) == limbs_value(s.take(i)) + s[i] as nat * limb_weight(
            i as nat,
        ),
{
    assert(s.take(i + 1).drop_last() =~= s.take(i));
}

/// A 512-bit unsigned integer, as eight little-endian 64-bit limbs.
#[derive(Debug, Clone, Copy, PartialEq, Eq)]
pub struct U512 {
    limbs: [u64; 8],
}

/// The largest value of a `U512`, plus one.
pub open spec fn u512_bound() -> nat {
    limb_weight(8)
}

/// The number zero.
pub open spec fn zero_u512() -> U512 {
    choose|z: U512| z.value() == 0
}

impl U512 {
    /// The number.
    pub closed spec fn value(&self) -> nat {
        limbs_value(self.limbs@)
    }

    /// A `U512` stands for less than 2^512.
    pub proof fn lemma_value_bound(&self)
        ensures
            self.value() < u512_bound(),
    {
        lemma_limbs_value_bound(self.limbs@);
    }

    /// Zero.
    pub fn zero() -> (r: Self)
        ensures
            r.value() == 0,
            r == zero_u512(),
    {
        let r = U512 { limbs: [0u64, 0, 0, 0, 0, 0, 0, 0] };
        proof {
            assert(r.limbs@ =~= seq![0u64, 0, 0, 0, 0, 0, 0, 0]);
            lemma_limbs_value_zero(r.limbs@);
            assert(exists|z: U512| #[trigger] z.value() == 0) by {
                assert(r.value() == 0);
            }
            let z = zero_u512();
            assert(z.value() == 0);
            U512::lemma_value_injective(r, z);
        }
        r
    }

    /// The number `v`.
    pub fn from_u64(v: u64) -> (r: Self)
        ensures
            r.value() == v,
    {
        let limbs: [u64; 8] = [v, 0, 0, 0, 0, 0, 0, 0];
        let r = U512 { limbs };
        proof {
            let s = r.limbs@;
            assert(s =~= seq![v, 0u64, 0u64, 0u64, 0u64, 0u64, 0u64, 0u64]);
            assert forall|k: int| 1 <= k <= 8 implies limbs_value(#[trigger] s.take(k)) == v by {
                lemma_take_value(s, k, v);
            }
            assert(s.take(8) =~= s);
        }
        r
    }

    /// The number `v`.
    pub fn from_u128(v: u128) -> (r: Self)
        ensures
            r.value() == v,
    {
        let lo: u64 = (v % 0x1_0000_0000_0000_0000u128) as u64;
        let hi: u64 = (v / 0x1_0000_0000_0000_0000u128) as u64;
        let r = U512 { limbs: [lo, hi, 0u64, 0, 0, 0, 0, 0] };
        proof {
            let s = r.limbs@;
            assert(s =~= seq![lo, hi, 0u64, 0, 0, 0, 0, 0]);
            reveal_with_fuel(limbs_value, 9);
            reveal_with_fuel(limb_weight, 3);
            assert(s.drop_last().drop_last().drop_last().drop_last().drop_last().drop_last() =~= seq![lo, hi]);
            assert(seq![lo, hi].drop_last() =~= seq![lo]);
            assert(seq![lo].drop_last() =~= Seq::<u64>::empty());
            assert(limb_weight(0) == 1);
            assert(limb_weight(1) == limb_base());
            assert(limbs_value(Seq::<u64>::empty()) == 0);
            assert(limbs_value(seq![lo]) == lo);
            assert(limbs_value(seq![lo, hi]) == lo + hi * limb_base());
            lemma_limbs_value_prefix(s, 2);
            lemma_limbs_value_prefix(s, 3);
            lemma_limbs_value_prefix(s, 4);
            lemma_limbs_value_prefix(s, 5);
            lemma_limbs_value_prefix(s, 6);
            lemma_limbs_value_prefix(s, 7);
            assert(s.take(2) =~= seq![lo, hi]);
            assert(s.take(8) =~= s);
            assert(v == lo + hi * limb_base());
        }
        r
    }

    /// Returns true if the number fits in 64 bits.
    pub fn fits_u64(&self) -> (b: bool)
        ensures
            b == (self.value() <= u64::MAX),
    {
        let mut i: usize = 1;
        while i < 8
            invariant
                1 <= i <= 8,
                forall|j: int| 1 <= j < i ==> #[trigger] self.limbs@[j] == 0,
            decreases 8 - i,
        {
            if self.limbs[i] != 0 {
                proof {
                    lemma_value_ge_limb(self.limbs@, i as int);
                    lemma_limb_weight_ge_base(i as nat);
                    let w = limb_weight(i as nat);
                    let l = self.limbs@[i as int] as nat;
                    assert(l * w >= w) by (nonlinear_arith)
                        requires
                            l >= 1,
                            w >= limb_base(),
                    ;
                }
                return false;
            }
            i = i + 1;
        }
        proof {
            lemma_take_value(self.limbs@, 8, self.limbs@[0]);
            assert(self.limbs@.take(8) =~= self.limbs@);
        }
        true
    }

    /// The number as a `u128`, when it fits in 64 bits.
    pub fn low_u128(&self) -> (r: u128)
        requires
            self.value() <= u64::MAX,
        ensures
            r == self.value(),
    {
        proof {
            if exists|j: int| 1 <= j < 8 && #[trigger] self.limbs@[j] != 0 {
                let j = choose|j: int| 1 <= j < 8 && #[trigger] self.limbs@[j] != 0;
                lemma_value_ge_limb(self.limbs@, j);
                lemma_limb_weight_ge_base(j as nat);
                let w = limb_weight(j as nat);
                let l = self.limbs@[j] as nat;
                assert(l * w >= w) by (nonlinear_arith)
                    requires
                        l >= 1,
                        w >= limb_base(),
                ;
            }
            lemma_take_value(self.limbs@, 8, self.limbs@[0]);
            assert(self.limbs@.take(8) =~= self.limbs@);
        }
        self.limbs[0] as u128
    }

    /// Creates a number from its eight little-endian 64-bit limbs.
    pub fn from_limbs(limbs: [u64; 8]) -> (r: Self)
        ensures
            r.value() == limbs_value(limbs@),
    {
        U512 { limbs }
    }

    /// Returns true if the number is zero.
    pub fn is_zero(&self) -> (b: bool)
        ensures
            b == (self.value() == 0),
    {
        let mut i: usize = 0;
        while i < 8
            invariant
                i <= 8,
                forall|j: int| 0 <= j < i ==> #[trigger] self.limbs@[j] == 0,
            decreases 8 - i,
        {
            if self.limbs[i] != 0 {
                proof {
                    lemma_limbs_value_zero(self.limbs@);
                    assert(self.limbs@[i as int] != 0);
                }
                return false;
            }
            i = i + 1;
        }
        proof {
            lemma_limbs_value_zero(self.limbs@);
        }
        true
    }

    /// Subtraction: `None` when `rhs` is larger than `self`.
    pub fn checked_sub(&self, rhs: &Self) -> (r: Option<Self>)
        ensures
            self.value() >= rhs.value() ==> (r matches Some(d) && d.value() == self.value()
                - rhs.value()),
            self.value() < rhs.value() ==> r is None,
    {
        let mut limbs: [u64; 8] = [0u64; 8];
        let mut borrow: u64 = 0;
        let mut i: usize = 0;
        while i < 8
            invariant
                i <= 8,
                borrow <= 1,
                limbs_value(limbs@.take(i as int)) + limbs_value(rhs.limbs@.take(i as int))
                    == limbs_value(self.limbs@.take(i as int)) + borrow * limb_weight(i as nat),
            decreases 8 - i,
        {
            let a: u64 = self.limbs[i];
            let b: u64 = rhs.limbs[i];
            let ghost old_limbs = limbs@;
            let ghost old_borrow = borrow;
            let need: u128 = b as u128 + borrow as u128;
            let (digit, next_borrow): (u64, u64) = if (a as u128) >= need {
                ((a as u128 - need) as u64, 0)
            } else {
                ((a as u128 + 0x1_0000_0000_0000_0000u128 - need) as u64, 1)
            };
            limbs[i] = digit;
            proof {
                assert(limbs@.take(i as int) =~= old_limbs.take(i as int));
                lemma_limbs_value_prefix(limbs@, i as int);
                lemma_limbs_value_prefix(rhs.limbs@, i as int);
                lemma_limbs_value_prefix(self.limbs@, i as int);
                let w = limb_weight(i as nat);
                assert(limb_weight((i + 1) as nat) == limb_base() * w);
                assert(digit as int + b as int + old_borrow as int == a as int + next_borrow
                    * limb_base());
                assert((digit as int) * w + (b as int) * w + (old_borrow as int) * w == (a as int)
                    * w + (next_borrow as int) * (limb_base() * w)) by (nonlinear_arith)
                    requires
                        digit as int + b as int + old_borrow as int == a as int + next_borrow
                            * limb_base(),
                ;
            }
            borrow = next_borrow;
            i = i + 1;
        }
        proof {
            assert(limbs@.take(8) =~= limbs@);
            assert(rhs.limbs@.take(8) =~= rhs.limbs@);
            assert(self.limbs@.take(8) =~= self.limbs@);
            lemma_limbs_value_bound(limbs@);
            lemma_limbs_value_bound(self.limbs@);
        }
        if borrow == 0 {
            Some(U512 { limbs })
        } else {
            None
        }
    }

    /// Addition: `None` when the sum does not fit in 512 bits.
    pub fn checked_add(&self, rhs: &Self) -> (r: Option<Self>)
        ensures
            self.value() + rhs.value() < u512_bound() ==> (r matches Some(d) && d.value()
                == self.value() + rhs.value()),
            self.value() + rhs.value() >= u512_bound() ==> r is None,
    {
        let mut limbs: [u64; 8] = [0u64; 8];
        let mut carry: u64 = 0;
        let mut i: usize = 0;
        while i < 8
            invariant
                i <= 8,
                carry <= 1,
                limbs_value(limbs@.take(i as int)) + carry * limb_weight(i as nat)
                    == limbs_value(self.limbs@.take(i as int)) + limbs_value(rhs.limbs@.take(i as int)),
            decreases 8 - i,
        {
            let a: u64 = self.limbs[i];
            let b: u64 = rhs.limbs[i];
            let ghost old_limbs = limbs@;
            let ghost old_carry = carry;
            let total: u128 = a as u128 + b as u128 + carry as u128;
            let (digit, next_carry): (u64, u64) = if total >= 0x1_0000_0000_0000_0000u128 {
                ((total - 0x1_0000_0000_0000_0000u128) as u64, 1)
            } else {
                (total as u64, 0)
            };
            limbs[i] = digit;
            proof {
                assert(limbs@.take(i as int) =~= old_limbs.take(i as int));
                lemma_limbs_value_prefix(limbs@, i as int);
                lemma_limbs_value_prefix(rhs.limbs@, i as int);
                lemma_limbs_value_prefix(self.limbs@, i as int);
                let w = limb_weight(i as nat);
                assert(limb_weight((i + 1) as nat) == limb_base() * w);
                assert(digit as int + next_carry * limb_base() == a as int + b as int + old_carry as int);
                assert((digit as int) * w + (next_carry as int) * (limb_base() * w) == (a as int) * w
                    + (b as int) * w + (old_carry as int) * w) by (nonlinear_arith)
                    requires
                        digit as int + next_carry * limb_base() == a as int + b as int + old_carry as int,
                ;
            }
            carry = next_carry;
            i = i + 1;
        }
        proof {
            assert(limbs@.take(8) =~= limbs@);
            assert(rhs.limbs@.take(8) =~= rhs.limbs@);
            assert(self.limbs@.take(8) =~= self.limbs@);
            lemma_limbs_value_bound(limbs@);
        }
        if carry == 0 {
            Some(U512 { limbs })
        } else {
            None
        }
    }

    /// Returns true if the two numbers are the same.
    pub fn same(&self, other: &Self) -> (b: bool)
        ensures
            b == (*self == *other),
    {
        let mut i: usize = 0;
        while i < 8
            invariant
                i <= 8,
                forall|j: int| 0 <= j < i ==> self.limbs@[j] == other.limbs@[j],
            decreases 8 - i,
        {
            if self.limbs[i] != other.limbs[i] {
                return false;
            }
            i = i + 1;
        }
        assert(self.limbs =~= other.limbs);
        true
    }

    /// Two numbers with the same value are the same.
    pub proof fn lemma_value_injective(a: Self, b: Self)
        ensures
            a.value() == b.value() <==> a == b,
    {
        if a.value() == b.value() {
            lemma_limbs_value_injective(a.limbs@, b.limbs@);
            assert(a.limbs =~= b.limbs);
        }
    }

    /// Subtraction that stops at zero.
    pub fn saturating_sub(&self, rhs: &Self) -> (r: Self)
        ensures
            self.value() >= rhs.value() ==> r.value() == self.value() - rhs.value(),
            self.value() < rhs.value() ==> r.value() == 0,
    {
        match self.checked_sub(rhs) {
            Some(d) => d,
            None => U512::zero(),
        }
    }

    /// Returns true if `self` is less than `rhs`.
    pub fn lt(&self, rhs: &Self) -> (b: bool)
        ensures
            b == (self.value() < rhs.value()),
    {
        self.checked_sub(rhs).is_none()
    }
}

/// Limb sequences of one length that stand for the same number are equal.
proof fn lemma_limbs_value_injective(a: Seq<u64>, b: Seq<u64>)
    requires
        a.len() == b.len(),
        limbs_value(a) == limbs_value(b),
    ensures
        a == b,
    decreases a.len(),
{
    if a.len() > 0 {
        let n = (a.len() - 1) as nat;
        let w = limb_weight(n);
        lemma_limbs_value_bound(a.drop_last());
        lemma_limbs_value_bound(b.drop_last());
        lemma_limb_weight_pos(n);
        let va = limbs_value(a.drop_last());
        let vb = limbs_value(b.drop_last());
        let la = a.last() as int;
        let lb = b.last() as int;
        assert(la == lb) by (nonlinear_arith)
            requires
                va + la * w == vb + lb * w,
                0 <= va < w,
                0 <= vb < w,
                la >= 0,
                lb >= 0,
        {
            if la < lb {
                assert(la * w + w <= lb * w);
            } else if la > lb {
                assert(lb * w + w <= la * w);
            }
        }
        lemma_limbs_value_injective(a.drop_last(), b.drop_last());
        assert(a =~= a.drop_last().push(a.last()));
        assert(b =~= b.drop_last().push(b.last()));
    }
}

/// Limbs stand for at least any one limb times its weight.
proof fn lemma_value_ge_limb(s: Seq<u64>, k: int)
    requires
        0 <= k < s.len(),
    ensures
        limbs_value(s) >= s[k] as nat * limb_weight(k as nat),
    decreases s.len(),
{
    lemma_limb_weight_pos((s.len() - 1) as nat);
    let w = limb_weight((s.len() - 1) as nat);
    let l = s.last() as nat;
    assert(l * w >= 0) by (nonlinear_arith)
        requires
            w > 0,
    ;
    if k < s.len() - 1 {
        lemma_value_ge_limb(s.drop_last(), k);
        assert(s.drop_last()[k] == s[k]);
    }
}

/// The weight of any limb but the lowest is at least 2^64.
proof fn lemma_limb_weight_ge_base(i: nat)
    requires
        i >= 1,
    ensures
        limb_weight(i) >= limb_base(),
{
    lemma_limb_weight_pos((i - 1) as nat);
    let w = limb_weight((i - 1) as nat);
    assert(limb_base() * w >= limb_base()) by (nonlinear_arith)
        requires
            w >= 1,
    ;
}

/// A prefix of limbs whose first is `v` and the rest zero stands for `v`.
proof fn lemma_take_value(s: Seq<u64>, k: int, v: u64)
    requires
        1 <= k <= s.len(),
        s[0] == v,
        forall|j: int| 1 <= j < s.len() ==> s[j] == 0,
    ensures
        limbs_value(s.take(k)) == v,
    decreases k,
{
    if k == 1 {
        lemma_limbs_value_prefix(s, 0);
        assert(s.take(0) =~= Seq::<u64>::empty());
        assert(limbs_value(s.take(0)) == 0);
        assert(limb_weight(0) == 1);
    } else {
        lemma_take_value(s, k - 1, v);
        lemma_limbs_value_prefix(s, k - 1);
        assert(s[k - 1] == 0);
    }
}

} // verus!
