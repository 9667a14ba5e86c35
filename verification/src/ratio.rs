//! Whole-number products, quotients and common divisors of `U512` values, built on addition
//! and subtraction by doubling; and the seigniorage rate, the fraction of the total supply
//! that a round pays out.
use vstd::prelude::*;

use crate::u512::{u512_bound, U512};

verus! {

/// 2 to the power `k`.
pub open spec fn pow2(k: nat) -> nat
    decreases k,
{
    if k == 0 {
        1
    } else {
        2 * pow2((k - 1) as nat)
    }
}

/// Tables of `d * 2^k` and `2^k` for `k` up to one less than their length.
pub open spec fn doubling_tables(d: nat, doubles: Seq<U512>, powers: Seq<U512>) -> bool {
    &&& doubles.len() == powers.len()
    &&& forall|k: int|
        0 <= k < doubles.len() ==> (#[trigger] doubles[k]).value() == d * pow2(k as nat)
            && powers[k].value() == pow2(k as nat)
}

proof fn lemma_double_step(d: nat, k: nat)
    ensures
        d * pow2(k + 1) == d * pow2(k) + d * pow2(k),
        pow2(k + 1) == pow2(k) + pow2(k),
        pow2(k) >= 1,
        d >= 1 ==> pow2(k) <= d * pow2(k),
    decreases k,
{
    assert(pow2(k + 1) == 2 * pow2(k));
    if k > 0 {
        lemma_double_step(d, (k - 1) as nat);
    }
    assert(d * (2 * pow2(k)) == d * pow2(k) + d * pow2(k)) by (nonlinear_arith);
    assert(d >= 1 ==> pow2(k) <= d * pow2(k)) by (nonlinear_arith)
        requires
            pow2(k) >= 1,
    ;
}

impl U512 {
    /// The quotient and the remainder of the division by a non-zero `d`.
    pub fn div_rem(&self, d: &Self) -> (r: (Self, Self))
        requires
            d.value() != 0,
        ensures
            r.0.value() == self.value() / d.value(),
            r.1.value() == self.value() % d.value(),
    {
        let ghost n = self.value();
        let ghost dv = d.value();
        proof {
            self.lemma_value_bound();
        }
        if self.lt(d) {
            proof {
                vstd::arithmetic::div_mod::lemma_fundamental_div_mod_converse(n as int, dv as int, 0, n as int);
            }
            return (U512::zero(), *self);
        }
        let mut doubles: Vec<U512> = Vec::new();
        let mut powers: Vec<U512> = Vec::new();
        doubles.push(*d);
        let one = U512::from_u64(1);
        powers.push(one);
        proof {
            assert(pow2(0) == 1);
            assert(dv * 1 == dv) by (nonlinear_arith);
        }
        let mut last = *d;
        let mut plast = one;
        loop
            invariant
                doubling_tables(dv, doubles@, powers@),
                doubles@.len() >= 1,
                last == doubles@.last(),
                plast == powers@.last(),
                last.value() <= n,
                n < u512_bound(),
                dv >= 1,
                n == self.value(),
                dv == d.value(),
            ensures
                doubling_tables(dv, doubles@, powers@),
                doubles@.len() >= 1,
                doubles@.last().value() <= n,
                n < 2 * doubles@.last().value(),
            decreases n - last.value(),
        {
            let ghost k = (doubles@.len() - 1) as nat;
            let room = match self.checked_sub(&last) {
                Some(x) => x,
                None => {
                    proof {
                        assert(false);
                    }
                    return (U512::zero(), *self);
                },
            };
            if room.lt(&last) {
                break;
            }
            proof {
                lemma_double_step(dv, k);
            }
            let next = match last.checked_add(&last) {
                Some(x) => x,
                None => {
                    proof {
                        assert(false);
                    }
                    return (U512::zero(), *self);
                },
            };
            let pnext = match plast.checked_add(&plast) {
                Some(x) => x,
                None => {
                    proof {
                        lemma_double_step(dv, k + 1);
                        assert(false);
                    }
                    return (U512::zero(), *self);
                },
            };
            doubles.push(next);
            powers.push(pnext);
            last = next;
            plast = pnext;
            proof {
                assert forall|j: int| 0 <= j < doubles@.len() implies (#[trigger] doubles@[j]).value()
                    == dv * pow2(j as nat) && powers@[j].value() == pow2(j as nat) by {
                    if j == k + 1 {
                        lemma_double_step(dv, k);
                    }
                }
            }
        }
        let mut q = U512::zero();
        let mut rem = *self;
        let mut j: usize = doubles.len();
        proof {
            lemma_double_step(dv, (j - 1) as nat);
            assert(0 * dv == 0);
        }
        while j > 0
            invariant
                doubling_tables(dv, doubles@, powers@),
                j <= doubles@.len(),
                doubles@.len() >= 1,
                rem.value() + q.value() * dv == n,
                rem.value() < dv * pow2(j as nat),
                dv >= 1,
                n < u512_bound(),
                n == self.value(),
                dv == d.value(),
            decreases j,
        {
            j = j - 1;
            let ghost p = pow2(j as nat);
            proof {
                lemma_double_step(dv, j as nat);
            }
            if !rem.lt(&doubles[j]) {
                let r2 = match rem.checked_sub(&doubles[j]) {
                    Some(x) => x,
                    None => {
                        proof {
                            assert(false);
                        }
                        rem
                    },
                };
                proof {
                    assert((q.value() + p) * dv == q.value() * dv + dv * p) by (nonlinear_arith);
                    assert(q.value() + p <= (q.value() + p) * dv) by (nonlinear_arith)
                        requires
                            dv >= 1,
                    ;
                }
                let q2 = match q.checked_add(&powers[j]) {
                    Some(x) => x,
                    None => {
                        proof {
                            assert(false);
                        }
                        q
                    },
                };
                rem = r2;
                q = q2;
            }
        }
        proof {
            assert(pow2(0) == 1);
            assert(dv * 1 == dv) by (nonlinear_arith);
            vstd::arithmetic::div_mod::lemma_fundamental_div_mod_converse(
                n as int,
                dv as int,
                q.value() as int,
                rem.value() as int,
            );
        }
        (q, rem)
    }

    /// Multiplication: `None` when the product does not fit in 512 bits.
    pub fn checked_mul(&self, m: &Self) -> (r: Option<Self>)
        ensures
            self.value() * m.value() < u512_bound() ==> (r matches Some(t) && t.value()
                == self.value() * m.value()),
            self.value() * m.value() >= u512_bound() ==> r is None,
    {
        let ghost a = self.value();
        let ghost mv = m.value();
        proof {
            m.lemma_value_bound();
            self.lemma_value_bound();
        }
        if m.is_zero() {
            proof {
                assert(a * 0 == 0);
            }
            return Some(U512::zero());
        }
        let mut doubles: Vec<U512> = Vec::new();
        let mut powers: Vec<U512> = Vec::new();
        let one = U512::from_u64(1);
        doubles.push(*self);
        powers.push(one);
        proof {
            assert(pow2(0) == 1);
            assert(a * 1 == a) by (nonlinear_arith);
        }
        let mut last = *self;
        let mut plast = one;
        loop
            invariant
                doubling_tables(a, doubles@, powers@),
                doubles@.len() >= 1,
                last == doubles@.last(),
                plast == powers@.last(),
                plast.value() <= mv,
                mv < u512_bound(),
                a == self.value(),
                mv == m.value(),
            ensures
                doubling_tables(a, doubles@, powers@),
                doubles@.len() >= 1,
                powers@.last().value() <= mv,
                mv < 2 * powers@.last().value(),
            decreases mv - plast.value(),
        {
            let ghost k = (doubles@.len() - 1) as nat;
            let room = match m.checked_sub(&plast) {
                Some(x) => x,
                None => {
                    proof {
                        assert(false);
                    }
                    return None;
                },
            };
            if room.lt(&plast) {
                break;
            }
            proof {
                lemma_double_step(a, k);
            }
            let pnext = match plast.checked_add(&plast) {
                Some(x) => x,
                None => {
                    proof {
                        assert(false);
                    }
                    return None;
                },
            };
            let next = match last.checked_add(&last) {
                Some(x) => x,
                None => {
                    proof {
                        assert(a * pow2(k + 1) <= a * mv) by (nonlinear_arith)
                            requires
                                pow2(k + 1) <= mv,
                        ;
                    }
                    return None;
                },
            };
            doubles.push(next);
            powers.push(pnext);
            last = next;
            plast = pnext;
            proof {
                assert forall|j: int| 0 <= j < doubles@.len() implies (#[trigger] doubles@[j]).value()
                    == a * pow2(j as nat) && powers@[j].value() == pow2(j as nat) by {
                    if j == k + 1 {
                        lemma_double_step(a, k);
                    }
                }
            }
        }
        let mut acc = U512::zero();
        let mut rem = *m;
        let mut j: usize = doubles.len();
        proof {
            lemma_double_step(a, (j - 1) as nat);
            assert(a * 0 == 0);
        }
        while j > 0
            invariant
                doubling_tables(a, doubles@, powers@),
                j <= doubles@.len(),
                rem.value() <= mv,
                acc.value() == a * (mv - rem.value()),
                rem.value() < pow2(j as nat),
                mv < u512_bound(),
                a == self.value(),
                mv == m.value(),
            decreases j,
        {
            j = j - 1;
            let ghost p = pow2(j as nat);
            proof {
                lemma_double_step(a, j as nat);
                assert(doubles@[j as int].value() == a * p);
            }
            if !rem.lt(&powers[j]) {
                let r2 = match rem.checked_sub(&powers[j]) {
                    Some(x) => x,
                    None => {
                        proof {
                            assert(false);
                        }
                        rem
                    },
                };
                let ghost rv = rem.value();
                proof {
                    assert(a * (mv - rv) + a * p == a * (mv - (rv - p))) by (nonlinear_arith);
                    assert(a * (mv - (rv - p)) <= a * mv) by (nonlinear_arith)
                        requires
                            0 <= rv - p,
                            rv <= mv,
                    ;
                }
                let acc2 = match acc.checked_add(&doubles[j]) {
                    Some(x) => x,
                    None => {
                        return None;
                    },
                };
                rem = r2;
                acc = acc2;
            }
        }
        proof {
            assert(pow2(0) == 1);
            assert(rem.value() == 0);
            assert(mv - rem.value() == mv);
            acc.lemma_value_bound();
        }
        Some(acc)
    }
}

/// The greatest common divisor, by Euclid's algorithm; that of zero and zero is zero.
pub open spec fn gcd(a: nat, b: nat) -> nat
    decreases b,
{
    if b == 0 {
        a
    } else {
        gcd(b, a % b)
    }
}

/// The greatest common divisor of numbers not both zero is positive and divides both.
pub proof fn lemma_gcd_divides(a: nat, b: nat)
    requires
        a > 0 || b > 0,
    ensures
        gcd(a, b) > 0,
        a % gcd(a, b) == 0,
        b % gcd(a, b) == 0,
    decreases b,
{
    if b == 0 {
        vstd::arithmetic::div_mod::lemma_mod_self_0(a as int);
        vstd::arithmetic::div_mod::lemma_small_mod(0, a);
    } else {
        let r = a % b;
        lemma_gcd_divides(b, r);
        let g = gcd(b, r);
        vstd::arithmetic::div_mod::lemma_fundamental_div_mod(a as int, b as int);
        vstd::arithmetic::div_mod::lemma_fundamental_div_mod(b as int, g as int);
        vstd::arithmetic::div_mod::lemma_fundamental_div_mod(r as int, g as int);
        let k = (b / g) * (a / b) + r / g;
        assert(a == k * g) by (nonlinear_arith)
            requires
                a == b * (a / b) + r,
                b == g * (b / g),
                r == g * (r / g),
                k == (b / g) * (a / b) + r / g,
        ;
        vstd::arithmetic::div_mod::lemma_mod_multiples_basic(k as int, g as int);
    }
}

/// The greatest common divisor of `a` and `b`.
pub fn gcd_u512(a: &U512, b: &U512) -> (r: U512)
    ensures
        r.value() == gcd(a.value(), b.value()),
{
    let mut x = *a;
    let mut y = *b;
    while !y.is_zero()
        invariant
            gcd(x.value(), y.value()) == gcd(a.value(), b.value()),
        decreases y.value(),
    {
        let (_, r) = x.div_rem(&y);
        x = y;
        y = r;
    }
    x
}

/// A seigniorage rate: the fraction `numer / denom` of the total supply that a round pays
/// out. Its denominator is never zero.
#[derive(Debug, Clone, Copy, PartialEq, Eq)]
pub struct SeigniorageRate {
    numer: U512,
    denom: U512,
}

impl SeigniorageRate {
    #[verifier::type_invariant]
    closed spec fn denom_nonzero(&self) -> bool {
        self.denom.value() != 0
    }

    /// The numerator.
    pub closed spec fn spec_numer(&self) -> U512 {
        self.numer
    }

    /// The denominator.
    pub closed spec fn spec_denom(&self) -> U512 {
        self.denom
    }

    /// The rate `numer / denom`; `None` for a zero denominator.
    pub fn new(numer: U512, denom: U512) -> (r: Option<Self>)
        ensures
            r is Some <==> denom.value() != 0,
            r matches Some(x) ==> x.spec_numer() == numer && x.spec_denom() == denom,
    {
        if denom.is_zero() {
            None
        } else {
            Some(SeigniorageRate { numer, denom })
        }
    }

    /// The numerator.
    pub fn numer(&self) -> (r: U512)
        ensures
            r == self.spec_numer(),
    {
        self.numer
    }

    /// The denominator, which is not zero.
    pub fn denom(&self) -> (r: U512)
        ensures
            r == self.spec_denom(),
            r.value() != 0,
    {
        proof {
            use_type_invariant(self);
        }
        self.denom
    }
}

/// The reward of a round: the rate times the supply, rounded down. The product is formed
/// as a fraction whose numerator is the rate's numerator times the supply divided by its
/// common divisor with the rate's denominator; there is no reward (`None`) when that
/// numerator does not fit in 512 bits.
pub open spec fn spec_round_reward(rate: SeigniorageRate, supply: U512) -> Option<nat> {
    let a = rate.spec_numer().value();
    let b = rate.spec_denom().value();
    let c = supply.value();
    if a * (c / gcd(b, c)) < u512_bound() {
        Some(a * c / b)
    } else {
        None
    }
}

/// The reward of a round at `rate` on a total supply of `supply`.
pub fn round_reward(rate: SeigniorageRate, supply: U512) -> (r: Option<U512>)
    ensures
        match spec_round_reward(rate, supply) {
            None => r is None,
            Some(v) => r matches Some(t) && t.value() == v,
        },
{
    proof {
        use_type_invariant(&rate);
    }
    let ghost a = rate.numer.value();
    let ghost b = rate.denom.value();
    let ghost c = supply.value();
    let g = gcd_u512(&rate.denom, &supply);
    let ghost gv = g.value();
    proof {
        lemma_gcd_divides(b, c);
        vstd::arithmetic::div_mod::lemma_fundamental_div_mod(b as int, gv as int);
        vstd::arithmetic::div_mod::lemma_fundamental_div_mod(c as int, gv as int);
    }
    let (c_reduced, _) = supply.div_rem(&g);
    let (b_reduced, _) = rate.denom.div_rem(&g);
    let ghost cr = c_reduced.value();
    let ghost br = b_reduced.value();
    proof {
        assert(br > 0) by (nonlinear_arith)
            requires
                b == gv * br,
                b > 0,
        ;
    }
    let numer = match rate.numer.checked_mul(&c_reduced) {
        Some(x) => x,
        None => return None,
    };
    let (q, _) = numer.div_rem(&b_reduced);
    proof {
        let x = a * cr;
        assert(a * c == gv * x && b == gv * br) by (nonlinear_arith)
            requires
                c == gv * cr,
                b == gv * br,
                x == a * cr,
        ;
        vstd::arithmetic::div_mod::lemma_div_denominator((gv * x) as int, gv as int, br as int);
        vstd::arithmetic::div_mod::lemma_div_multiples_vanish(x as int, gv as int);
    }
    Some(q)
}

} // verus!
