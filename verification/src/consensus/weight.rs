//! Vote weights.
use vstd::prelude::*;

verus! {

/// A vote weight.
#[derive(Debug, Clone, Copy, Default, PartialEq, Eq, PartialOrd, Ord, Hash, Structural)]
pub struct Weight(pub u64);

/// The total of a sequence of weights.
pub open spec fn total_weight(ws: Seq<Weight>) -> int
    decreases ws.len(),
{
    if ws.len() == 0 {
        0
    } else {
        total_weight(ws.drop_last()) + ws.last().0
    }
}

impl Weight {
    /// Checked addition. Returns `None` if overflow occurred.
    pub fn checked_add(self, rhs: Weight) -> (r: Option<Weight>)
        ensures
            self.0 + rhs.0 <= u64::MAX ==> r == Some(Weight((self.0 + rhs.0) as u64)),
            self.0 + rhs.0 > u64::MAX ==> r is None,
    {
        match self.0.checked_add(rhs.0) {
            Some(w) => Some(Weight(w)),
            None => None,
        }
    }

    /// Saturating addition. Returns `Weight(u64::MAX)` if overflow would occur.
    pub fn saturating_add(self, rhs: Weight) -> (r: Weight)
        ensures
            self.0 + rhs.0 <= u64::MAX ==> r.0 == self.0 + rhs.0,
            self.0 + rhs.0 > u64::MAX ==> r.0 == u64::MAX,
    {
        Weight(self.0.saturating_add(rhs.0))
    }

    /// Saturating subtraction. Returns `Weight(0)` if underflow would occur.
    pub fn saturating_sub(self, rhs: Weight) -> (r: Weight)
        ensures
            self.0 >= rhs.0 ==> r.0 == self.0 - rhs.0,
            self.0 < rhs.0 ==> r.0 == 0,
    {
        Weight(self.0.saturating_sub(rhs.0))
    }

    /// Returns `true` if this weight is zero.
    pub fn is_zero(self) -> (b: bool)
        ensures
            b == (self.0 == 0),
    {
        self.0 == 0
    }

    /// The sum of the given weights; the total must fit in a `u64`.
    pub fn sum(weights: &[Weight]) -> (r: Weight)
        requires
            total_weight(weights@) <= u64::MAX,
        ensures
            r.0 == total_weight(weights@),
    {
        let mut acc: u64 = 0;
        let mut i: usize = 0;
        while i < weights.len()
            invariant
                i <= weights@.len(),
                total_weight(weights@) <= u64::MAX,
                acc == total_weight(weights@.take(i as int)),
            decreases weights@.len() - i,
        {
            proof {
                assert(weights@.take(i + 1).drop_last() =~= weights@.take(i as int));
                lemma_total_weight_prefix(weights@, (i + 1) as nat);
            }
            acc = acc + weights[i].0;
            i = i + 1;
        }
        assert(weights@.take(i as int) =~= weights@);
        Weight(acc)
    }

    /// Multiplies the weight by `rhs`; the product must fit in a `u64`.
    pub fn mul(self, rhs: u64) -> (r: Weight)
        requires
            self.0 * rhs <= u64::MAX,
        ensures
            r.0 == self.0 * rhs,
    {
        Weight(self.0 * rhs)
    }

    /// Divides the weight by `rhs`, rounding down; `rhs` must not be zero.
    pub fn div(self, rhs: u64) -> (r: Weight)
        requires
            rhs != 0,
        ensures
            r.0 == self.0 / rhs,
    {
        Weight(self.0 / rhs)
    }

    /// The weight as a `u128`.
    pub fn to_u128(self) -> (r: u128)
        ensures
            r == self.0,
    {
        self.0 as u128
    }
}

/// A prefix of a sequence of weights weighs no more than the whole sequence.
pub proof fn lemma_total_weight_prefix(ws: Seq<Weight>, n: nat)
    requires
        n <= ws.len(),
    ensures
        total_weight(ws.take(n as int)) <= total_weight(ws),
    decreases ws.len() - n,
{
    if n < ws.len() {
        lemma_total_weight_prefix(ws, n + 1);
        assert(ws.take(n + 1int).drop_last() =~= ws.take(n as int));
    }
    assert(n == ws.len() ==> ws.take(n as int) =~= ws);
}

} // verus!
