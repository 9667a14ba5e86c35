//! Seigniorage recipients and snapshots of them, per era, and the order of their keys.
use vstd::prelude::*;

use crate::auction::bids::{DelegationRate, DelegatorKind, EraId};
use crate::keys::{append_array, public_key_bytes, PublicKey};
use crate::ordered::{sorted, OrderKey};
use crate::u512::{u512_bound, U512};

verus! {

broadcast use vstd::seq_lib::group_seq_properties;

/// The tag that orders public keys by algorithm: the system key, then Ed25519, then
/// Secp256k1.
pub open spec fn public_key_tag(pk: PublicKey) -> u8 {
    match pk {
        PublicKey::System => 0,
        PublicKey::Ed25519(_) => 1,
        PublicKey::Secp256k1(_) => 2,
    }
}

impl OrderKey for PublicKey {
    /// Public keys are ordered by algorithm tag, then by their bytes.
    open spec fn order_key(&self) -> Seq<u8> {
        seq![public_key_tag(*self)] + public_key_bytes(*self)
    }

    fn order_key_bytes(&self) -> (r: Vec<u8>) {
        let mut v: Vec<u8> = Vec::new();
        match self {
            PublicKey::System => {
                v.push(0);
            },
            PublicKey::Ed25519(b) => {
                v.push(1);
                append_array(&mut v, b);
            },
            PublicKey::Secp256k1(b) => {
                v.push(2);
                append_array(&mut v, b);
            },
        }
        assert(v@ =~= self.order_key());
        v
    }

    proof fn lemma_order_key_injective(a: Self, b: Self) {
        if a.order_key() == b.order_key() {
            assert(a.order_key()[0] == b.order_key()[0]);
            assert(a.order_key().skip(1) =~= public_key_bytes(a));
            assert(b.order_key().skip(1) =~= public_key_bytes(b));
            match (a, b) {
                (PublicKey::Ed25519(x), PublicKey::Ed25519(y)) => {
                    assert(x =~= y);
                },
                (PublicKey::Secp256k1(x), PublicKey::Secp256k1(y)) => {
                    assert(x =~= y);
                },
                _ => {},
            }
        }
    }
}

impl OrderKey for DelegatorKind {
    /// Delegations by public key come before delegations by purse; then the key or the
    /// purse address orders them.
    open spec fn order_key(&self) -> Seq<u8> {
        match self {
            DelegatorKind::PublicKey(pk) => seq![0u8] + pk.order_key(),
            DelegatorKind::Purse(addr) => seq![1u8] + addr@,
        }
    }

    fn order_key_bytes(&self) -> (r: Vec<u8>) {
        let mut v: Vec<u8> = Vec::new();
        match self {
            DelegatorKind::PublicKey(pk) => {
                v.push(0);
                let mut k = pk.order_key_bytes();
                v.append(&mut k);
            },
            DelegatorKind::Purse(addr) => {
                v.push(1);
                append_array(&mut v, addr);
            },
        }
        assert(v@ =~= self.order_key());
        v
    }

    proof fn lemma_order_key_injective(a: Self, b: Self) {
        if a.order_key() == b.order_key() {
            assert(a.order_key()[0] == b.order_key()[0]);
            match (a, b) {
                (DelegatorKind::PublicKey(x), DelegatorKind::PublicKey(y)) => {
                    assert(a.order_key().skip(1) =~= x.order_key());
                    assert(b.order_key().skip(1) =~= y.order_key());
                    PublicKey::lemma_order_key_injective(x, y);
                },
                (DelegatorKind::Purse(x), DelegatorKind::Purse(y)) => {
                    assert(a.order_key().skip(1) =~= x@);
                    assert(b.order_key().skip(1) =~= y@);
                    assert(x =~= y);
                },
                _ => {},
            }
        }
    }
}

/// A validator's stake and terms, and the stakes and reservations of its delegators, as
/// they stand in an era's snapshot.
#[derive(Debug)]
pub struct SeigniorageRecipientV2 {
    /// The validator's own stake.
    pub stake: U512,
    /// The validator's delegation rate.
    pub delegation_rate: DelegationRate,
    /// The delegators' stakes, ordered by delegator.
    pub delegator_stake: Vec<(DelegatorKind, U512)>,
    /// The delegation rates of reserved slots, ordered by delegator.
    pub reservation_delegation_rates: Vec<(DelegatorKind, DelegationRate)>,
}

/// A seigniorage recipient, with its maps as sequences of entries.
pub struct RecipientView {
    pub stake: U512,
    pub delegation_rate: DelegationRate,
    pub delegator_stake: Seq<(DelegatorKind, U512)>,
    pub reservation_delegation_rates: Seq<(DelegatorKind, DelegationRate)>,
}

impl View for SeigniorageRecipientV2 {
    type V = RecipientView;

    open spec fn view(&self) -> RecipientView {
        RecipientView {
            stake: self.stake,
            delegation_rate: self.delegation_rate,
            delegator_stake: self.delegator_stake@,
            reservation_delegation_rates: self.reservation_delegation_rates@,
        }
    }
}

/// The recipient's maps are ordered, each delegator at most once.
pub open spec fn recipient_wf(r: RecipientView) -> bool {
    sorted(r.delegator_stake) && sorted(r.reservation_delegation_rates)
}

/// The sum of the stakes.
pub open spec fn stakes_sum(s: Seq<(DelegatorKind, U512)>) -> nat
    decreases s.len(),
{
    if s.len() == 0 {
        0
    } else {
        stakes_sum(s.drop_last()) + s.last().1.value()
    }
}

/// The validator's stake and its delegators' together.
pub open spec fn total_stake_value(r: RecipientView) -> nat {
    r.stake.value() + stakes_sum(r.delegator_stake)
}

/// The recipients of an era, ordered by validator, with their views.
pub open spec fn era_view(s: Seq<(PublicKey, SeigniorageRecipientV2)>) -> Seq<(PublicKey, RecipientView)> {
    crate::ordered::map_view(s, |r: SeigniorageRecipientV2| r@)
}

/// A snapshot of seigniorage recipients: eras in increasing order, each with its recipients.
pub type SeigniorageRecipientsSnapshotV2 = Vec<(EraId, Vec<(PublicKey, SeigniorageRecipientV2)>)>;

/// A snapshot, with its recipients as views.
pub open spec fn snapshot_view(s: Seq<(EraId, Vec<(PublicKey, SeigniorageRecipientV2)>)>) -> Seq<
    (EraId, Seq<(PublicKey, RecipientView)>),
> {
    s.map_values(|e: (EraId, Vec<(PublicKey, SeigniorageRecipientV2)>)| (e.0, era_view(e.1@)))
}

/// The recipients of an era are ordered, and so are their maps.
pub open spec fn era_wf(s: Seq<(PublicKey, RecipientView)>) -> bool {
    &&& sorted(s)
    &&& forall|i: int| 0 <= i < s.len() ==> recipient_wf(#[trigger] s[i].1)
}

/// The eras of a snapshot increase, and each era's recipients are well formed.
pub open spec fn snapshot_wf(s: Seq<(EraId, Seq<(PublicKey, RecipientView)>)>) -> bool {
    &&& forall|i: int, j: int| 0 <= i < j < s.len() ==> (#[trigger] s[i].0).0 < (#[trigger] s[j].0).0
    &&& forall|i: int| 0 <= i < s.len() ==> era_wf(#[trigger] s[i].1)
}

/// A sum of stakes grows with each stake added.
proof fn lemma_stakes_sum_prefix(s: Seq<(DelegatorKind, U512)>, i: int)
    requires
        0 <= i < s.len(),
    ensures
        stakes_sum(s.take(i + 1)) == stakes_sum(s.take(i)) + s[i].1.value(),
{
    assert(s.take(i + 1).drop_last() =~= s.take(i));
}

/// A prefix sums to no more than the whole.
proof fn lemma_stakes_sum_mono(s: Seq<(DelegatorKind, U512)>, i: int)
    requires
        0 <= i <= s.len(),
    ensures
        stakes_sum(s.take(i)) <= stakes_sum(s),
    decreases s.len() - i,
{
    if i < s.len() {
        lemma_stakes_sum_prefix(s, i);
        lemma_stakes_sum_mono(s, i + 1);
    } else {
        assert(s.take(i) =~= s);
    }
}

impl SeigniorageRecipientV2 {
    /// Creates a recipient.
    pub fn new(
        stake: U512,
        delegation_rate: DelegationRate,
        delegator_stake: Vec<(DelegatorKind, U512)>,
        reservation_delegation_rates: Vec<(DelegatorKind, DelegationRate)>,
    ) -> (r: Self)
        ensures
            r.stake == stake,
            r.delegation_rate == delegation_rate,
            r.delegator_stake@ == delegator_stake@,
            r.reservation_delegation_rates@ == reservation_delegation_rates@,
    {
        SeigniorageRecipientV2 { stake, delegation_rate, delegator_stake, reservation_delegation_rates }
    }

    /// The validator's own stake.
    pub fn stake(&self) -> (r: &U512)
        ensures
            *r == self.stake,
    {
        &self.stake
    }

    /// The validator's delegation rate.
    pub fn delegation_rate(&self) -> (r: &DelegationRate)
        ensures
            *r == self.delegation_rate,
    {
        &self.delegation_rate
    }

    /// The delegators' stakes.
    pub fn delegator_stake(&self) -> (r: &Vec<(DelegatorKind, U512)>)
        ensures
            r@ == self.delegator_stake@,
    {
        &self.delegator_stake
    }

    /// The delegation rates of reserved slots.
    pub fn reservation_delegation_rates(&self) -> (r: &Vec<(DelegatorKind, DelegationRate)>)
        ensures
            r@ == self.reservation_delegation_rates@,
    {
        &self.reservation_delegation_rates
    }

    /// The validator's stake plus its delegators' stakes; `None` when the sum does not fit in
    /// 512 bits.
    pub fn total_stake(&self) -> (r: Option<U512>)
        ensures
            total_stake_value(self@) < u512_bound() ==> (r matches Some(t) && t.value()
                == total_stake_value(self@)),
            total_stake_value(self@) >= u512_bound() ==> r is None,
    {
        let mut total_stake: U512 = self.stake;
        let mut i: usize = 0;
        while i < self.delegator_stake.len()
            invariant
                i <= self.delegator_stake@.len(),
                total_stake.value() == self.stake.value() + stakes_sum(self.delegator_stake@.take(i as int)),
            decreases self.delegator_stake@.len() - i,
        {
            proof {
                lemma_stakes_sum_prefix(self.delegator_stake@, i as int);
                lemma_stakes_sum_mono(self.delegator_stake@, i + 1);
            }
            total_stake = match total_stake.checked_add(&self.delegator_stake[i].1) {
                Some(t) => t,
                None => return None,
            };
            i = i + 1;
        }
        proof {
            assert(self.delegator_stake@.take(i as int) =~= self.delegator_stake@);
            total_stake.lemma_value_bound();
        }
        Some(total_stake)
    }

    /// A copy of the recipient.
    pub fn duplicate(&self) -> (r: Self)
        ensures
            r@ == self@,
    {
        SeigniorageRecipientV2 {
            stake: self.stake,
            delegation_rate: self.delegation_rate,
            delegator_stake: copy_entries(&self.delegator_stake),
            reservation_delegation_rates: copy_entries(&self.reservation_delegation_rates),
        }
    }

    /// Returns true if the two recipients are the same.
    pub fn same(&self, other: &Self) -> (b: bool)
        ensures
            b == (self@ == other@),
    {
        if !self.stake.same(&other.stake) || self.delegation_rate != other.delegation_rate {
            return false;
        }
        let a = same_stakes(&self.delegator_stake, &other.delegator_stake);
        let b = same_rates(&self.reservation_delegation_rates, &other.reservation_delegation_rates);
        proof {
            if a && b {
                assert(self@ =~= other@);
            }
        }
        a && b
    }
}

/// A copy of entries whose keys and values are copied.
pub fn copy_entries<K: Copy, V: Copy>(v: &Vec<(K, V)>) -> (r: Vec<(K, V)>)
    ensures
        r@ == v@,
{
    let mut out: Vec<(K, V)> = Vec::new();
    let mut i: usize = 0;
    while i < v.len()
        invariant
            i <= v@.len(),
            out@ == v@.take(i as int),
        decreases v@.len() - i,
    {
        out.push(v[i]);
        i = i + 1;
        assert(out@ =~= v@.take(i as int));
    }
    assert(v@.take(i as int) =~= v@);
    out
}

/// Returns true if the delegators and stakes are the same.
fn same_stakes(a: &Vec<(DelegatorKind, U512)>, b: &Vec<(DelegatorKind, U512)>) -> (r: bool)
    ensures
        r == (a@ == b@),
{
    if a.len() != b.len() {
        return false;
    }
    let mut i: usize = 0;
    while i < a.len()
        invariant
            a@.len() == b@.len(),
            i <= a@.len(),
            forall|j: int| 0 <= j < i ==> a@[j] == b@[j],
        decreases a@.len() - i,
    {
        let same_kind = crate::ordered::compare_keys(&a[i].0, &b[i].0) == crate::ordered::KeyOrder::Equal;
        if !same_kind || !a[i].1.same(&b[i].1) {
            return false;
        }
        i = i + 1;
    }
    assert(a@ =~= b@);
    true
}

/// Returns true if the delegators and rates are the same.
fn same_rates(a: &Vec<(DelegatorKind, DelegationRate)>, b: &Vec<(DelegatorKind, DelegationRate)>) -> (r: bool)
    ensures
        r == (a@ == b@),
{
    if a.len() != b.len() {
        return false;
    }
    let mut i: usize = 0;
    while i < a.len()
        invariant
            a@.len() == b@.len(),
            i <= a@.len(),
            forall|j: int| 0 <= j < i ==> a@[j] == b@[j],
        decreases a@.len() - i,
    {
        let same_kind = crate::ordered::compare_keys(&a[i].0, &b[i].0) == crate::ordered::KeyOrder::Equal;
        if !same_kind || a[i].1 != b[i].1 {
            return false;
        }
        i = i + 1;
    }
    assert(a@ =~= b@);
    true
}

/// A copy of an era's recipients.
pub fn copy_era(v: &Vec<(PublicKey, SeigniorageRecipientV2)>) -> (r: Vec<(PublicKey, SeigniorageRecipientV2)>)
    ensures
        era_view(r@) == era_view(v@),
{
    let mut out: Vec<(PublicKey, SeigniorageRecipientV2)> = Vec::new();
    let mut i: usize = 0;
    while i < v.len()
        invariant
            i <= v@.len(),
            era_view(out@) == era_view(v@.take(i as int)),
        decreases v@.len() - i,
    {
        let entry = (v[i].0, v[i].1.duplicate());
        let ghost prev = out@;
        out.push(entry);
        proof {
            assert(era_view(out@) =~= era_view(prev).push((entry.0, entry.1@)));
            assert(v@.take(i + 1) =~= v@.take(i as int).push(v@[i as int]));
            assert(era_view(v@.take(i + 1)) =~= era_view(v@.take(i as int)).push(
                (v@[i as int].0, v@[i as int].1@),
            ));
        }
        i = i + 1;
    }
    assert(v@.take(i as int) =~= v@);
    out
}

} // verus!
