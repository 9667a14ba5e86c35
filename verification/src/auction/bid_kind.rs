//! Auction bid variants.
use vstd::prelude::*;

use crate::auction::bids::{
    is_locked_with_vesting_schedule, spec_is_locked, Bid, BidAddr, Bridge, DelegatorBid,
    DelegatorKind, EraId, Reservation, Unbond, UnbondKind, ValidatorBid, ValidatorCredit,
    VestingSchedule, DEFAULT_VESTING_SCHEDULE_PERIOD_MILLIS,
};
use crate::keys::{is_account_hash_of, PublicKey, URef};
use crate::u512::U512;

verus! {

/// BidKindTag variants.
#[derive(Debug, Clone, Copy, PartialEq, Eq, Structural)]
pub enum BidKindTag {
    /// Unified bid.
    Unified,
    /// Validator bid.
    Validator,
    /// Delegator bid.
    Delegator,
    /// Bridge record.
    Bridge,
    /// Validator credit bid.
    Credit,
    /// Reservation bid.
    Reservation,
    /// Unbond.
    Unbond,
}

/// The byte that stands for each tag on the wire.
pub open spec fn bid_kind_tag_value(t: BidKindTag) -> u8 {
    match t {
        BidKindTag::Unified => 0,
        BidKindTag::Validator => 1,
        BidKindTag::Delegator => 2,
        BidKindTag::Bridge => 3,
        BidKindTag::Credit => 4,
        BidKindTag::Reservation => 5,
        BidKindTag::Unbond => 6,
    }
}

impl BidKindTag {
    /// Returns the byte that stands for the tag on the wire.
    pub fn value(self) -> (v: u8)
        ensures
            v == bid_kind_tag_value(self),
    {
        match self {
            BidKindTag::Unified => 0,
            BidKindTag::Validator => 1,
            BidKindTag::Delegator => 2,
            BidKindTag::Bridge => 3,
            BidKindTag::Credit => 4,
            BidKindTag::Reservation => 5,
            BidKindTag::Unbond => 6,
        }
    }

    /// The tag that a byte stands for, if any.
    pub fn from_value(v: u8) -> (t: Option<Self>)
        ensures
            t matches Some(tag) ==> bid_kind_tag_value(tag) == v,
            t is None <==> v > 6,
    {
        match v {
            0 => Some(BidKindTag::Unified),
            1 => Some(BidKindTag::Validator),
            2 => Some(BidKindTag::Delegator),
            3 => Some(BidKindTag::Bridge),
            4 => Some(BidKindTag::Credit),
            5 => Some(BidKindTag::Reservation),
            6 => Some(BidKindTag::Unbond),
            _ => None,
        }
    }
}

/// Auction bid variants.
#[derive(Debug, Clone, PartialEq, Eq)]
pub enum BidKind {
    /// A unified record indexed on validator data. The Unified variant is for legacy
    /// retrograde support, new instances will not be created going forward.
    Unified(Box<Bid>),
    /// A bid record containing only validator data.
    Validator(Box<ValidatorBid>),
    /// A bid record containing only delegator data.
    Delegator(Box<DelegatorBid>),
    /// A bridge record pointing to a new `ValidatorBid` after the public key was changed.
    Bridge(Box<Bridge>),
    /// Credited amount.
    Credit(Box<ValidatorCredit>),
    /// Reservation
    Reservation(Box<Reservation>),
    /// Unbond
    Unbond(Box<Unbond>),
}

/// The validator that a record belongs to; for a bridge, the old key.
pub open spec fn spec_validator_public_key(bk: BidKind) -> PublicKey {
    match bk {
        BidKind::Unified(b) => b.validator_public_key,
        BidKind::Validator(b) => b.validator_public_key,
        BidKind::Delegator(b) => b.validator_public_key,
        BidKind::Bridge(b) => b.old_validator_public_key,
        BidKind::Credit(b) => b.validator_public_key,
        BidKind::Reservation(b) => b.validator_public_key,
        BidKind::Unbond(b) => b.validator_public_key,
    }
}

/// The staked amount of a record, where it has one.
pub open spec fn spec_staked_amount(bk: BidKind) -> Option<U512> {
    match bk {
        BidKind::Unified(b) => Some(b.staked_amount),
        BidKind::Validator(b) => Some(b.staked_amount),
        BidKind::Delegator(b) => Some(b.staked_amount),
        BidKind::Credit(b) => Some(b.amount),
        BidKind::Bridge(_) | BidKind::Reservation(_) | BidKind::Unbond(_) => None,
    }
}

/// The record is kept at `addr`: the address is made of the account hashes of the keys
/// that the record names, with a purse address, or an era, where the record has one.
pub open spec fn spec_bid_addr_is(bk: BidKind, addr: BidAddr) -> bool {
    match bk {
        BidKind::Unified(b) => addr matches BidAddr::Unified(h) && is_account_hash_of(
            h,
            b.validator_public_key,
        ),
        BidKind::Validator(b) => addr matches BidAddr::Validator(h) && is_account_hash_of(
            h,
            b.validator_public_key,
        ),
        BidKind::Delegator(b) => match b.delegator_kind {
            DelegatorKind::PublicKey(pk) => addr matches BidAddr::DelegatedAccount {
                validator,
                delegator,
            } && is_account_hash_of(validator, b.validator_public_key) && is_account_hash_of(
                delegator,
                pk,
            ),
            DelegatorKind::Purse(p) => addr matches BidAddr::DelegatedPurse {
                validator,
                delegator,
            } && is_account_hash_of(validator, b.validator_public_key) && delegator == p,
        },
        BidKind::Bridge(b) => addr matches BidAddr::Validator(h) && is_account_hash_of(
            h,
            b.old_validator_public_key,
        ),
        BidKind::Credit(b) => addr matches BidAddr::Credit { validator, era_id }
            && is_account_hash_of(validator, b.validator_public_key) && era_id == b.era_id,
        BidKind::Reservation(b) => match b.delegator_kind {
            DelegatorKind::PublicKey(pk) => addr matches BidAddr::ReservedDelegationAccount {
                validator,
                delegator,
            } && is_account_hash_of(validator, b.validator_public_key) && is_account_hash_of(
                delegator,
                pk,
            ),
            DelegatorKind::Purse(p) => addr matches BidAddr::ReservedDelegationPurse {
                validator,
                delegator,
            } && is_account_hash_of(validator, b.validator_public_key) && delegator == p,
        },
        BidKind::Unbond(b) => match b.unbond_kind {
            UnbondKind::Validator(pk) => addr matches BidAddr::UnbondAccount {
                validator,
                unbonder,
            } && is_account_hash_of(validator, b.validator_public_key) && is_account_hash_of(
                unbonder,
                pk,
            ),
            UnbondKind::DelegatedPublicKey(pk) => addr matches BidAddr::UnbondAccount {
                validator,
                unbonder,
            } && is_account_hash_of(validator, b.validator_public_key) && is_account_hash_of(
                unbonder,
                pk,
            ),
            UnbondKind::DelegatedPurse(p) => addr matches BidAddr::UnbondPurse {
                validator,
                unbonder,
            } && is_account_hash_of(validator, b.validator_public_key) && unbonder == p,
        },
    }
}

/// The tag of a record's variant.
pub open spec fn spec_tag(bk: BidKind) -> BidKindTag {
    match bk {
        BidKind::Unified(_) => BidKindTag::Unified,
        BidKind::Validator(_) => BidKindTag::Validator,
        BidKind::Delegator(_) => BidKindTag::Delegator,
        BidKind::Bridge(_) => BidKindTag::Bridge,
        BidKind::Credit(_) => BidKindTag::Credit,
        BidKind::Reservation(_) => BidKindTag::Reservation,
        BidKind::Unbond(_) => BidKindTag::Unbond,
    }
}

/// The vesting schedule of a record, where it has one.
pub open spec fn spec_vesting_schedule(bk: BidKind) -> Option<VestingSchedule> {
    match bk {
        BidKind::Unified(b) => b.vesting_schedule,
        BidKind::Validator(b) => b.vesting_schedule,
        BidKind::Delegator(b) => b.vesting_schedule,
        BidKind::Bridge(_) | BidKind::Credit(_) | BidKind::Reservation(_) | BidKind::Unbond(
            _,
        ) => None,
    }
}

impl BidKind {
    /// Returns validator public key.
    pub fn validator_public_key(&self) -> (pk: PublicKey)
        ensures
            pk == spec_validator_public_key(*self),
    {
        match self {
            BidKind::Unified(bid) => bid.validator_public_key,
            BidKind::Validator(validator_bid) => validator_bid.validator_public_key,
            BidKind::Delegator(delegator_bid) => delegator_bid.validator_public_key,
            BidKind::Bridge(bridge) => bridge.old_validator_public_key,
            BidKind::Credit(validator_credit) => validator_credit.validator_public_key,
            BidKind::Reservation(reservation) => reservation.validator_public_key,
            BidKind::Unbond(unbond) => unbond.validator_public_key,
        }
    }

    /// Returns new validator public key if it was changed.
    pub fn new_validator_public_key(&self) -> (pk: Option<PublicKey>)
        ensures
            pk == match *self {
                BidKind::Bridge(b) => Some(b.new_validator_public_key),
                _ => None,
            },
    {
        match self {
            BidKind::Bridge(bridge) => Some(bridge.new_validator_public_key),
            BidKind::Unified(_)
            | BidKind::Validator(_)
            | BidKind::Delegator(_)
            | BidKind::Credit(_)
            | BidKind::Reservation(_)
            | BidKind::Unbond(_) => None,
        }
    }

    /// Returns BidAddr.
    pub fn bid_addr(&self) -> (addr: BidAddr)
        ensures
            spec_bid_addr_is(*self, addr),
    {
        match self {
            BidKind::Unified(bid) => BidAddr::Unified(bid.validator_public_key.to_account_hash()),
            BidKind::Validator(validator_bid) => {
                BidAddr::Validator(validator_bid.validator_public_key.to_account_hash())
            },
            BidKind::Delegator(delegator_bid) => {
                let validator = delegator_bid.validator_public_key.to_account_hash();
                match delegator_bid.delegator_kind {
                    DelegatorKind::PublicKey(pk) => BidAddr::DelegatedAccount {
                        validator,
                        delegator: pk.to_account_hash(),
                    },
                    DelegatorKind::Purse(addr) => BidAddr::DelegatedPurse {
                        validator,
                        delegator: addr,
                    },
                }
            },
            BidKind::Bridge(bridge) => {
                BidAddr::Validator(bridge.old_validator_public_key.to_account_hash())
            },
            BidKind::Credit(credit) => {
                let validator = credit.validator_public_key.to_account_hash();
                let era_id = credit.era_id;
                BidAddr::Credit { validator, era_id }
            },
            BidKind::Reservation(reservation_bid) => {
                let validator = reservation_bid.validator_public_key.to_account_hash();
                match reservation_bid.delegator_kind {
                    DelegatorKind::PublicKey(pk) => BidAddr::ReservedDelegationAccount {
                        validator,
                        delegator: pk.to_account_hash(),
                    },
                    DelegatorKind::Purse(addr) => BidAddr::ReservedDelegationPurse {
                        validator,
                        delegator: addr,
                    },
                }
            },
            BidKind::Unbond(unbond) => {
                let validator = unbond.validator_public_key.to_account_hash();
                match unbond.unbond_kind {
                    UnbondKind::Validator(pk) => BidAddr::UnbondAccount {
                        validator,
                        unbonder: pk.to_account_hash(),
                    },
                    UnbondKind::DelegatedPublicKey(pk) => BidAddr::UnbondAccount {
                        validator,
                        unbonder: pk.to_account_hash(),
                    },
                    UnbondKind::DelegatedPurse(addr) => BidAddr::UnbondPurse {
                        validator,
                        unbonder: addr,
                    },
                }
            },
        }
    }

    /// Is this instance a unified bid?
    pub fn is_unified(&self) -> (b: bool)
        ensures
            b == (*self is Unified),
    {
        matches!(self, BidKind::Unified(_))
    }

    /// Is this instance a validator bid?
    pub fn is_validator(&self) -> (b: bool)
        ensures
            b == (*self is Validator),
    {
        matches!(self, BidKind::Validator(_))
    }

    /// Is this instance a delegator bid?
    pub fn is_delegator(&self) -> (b: bool)
        ensures
            b == (*self is Delegator),
    {
        matches!(self, BidKind::Delegator(_))
    }

    /// Is this instance a bridge record?
    pub fn is_bridge(&self) -> (b: bool)
        ensures
            b == (*self is Bridge),
    {
        matches!(self, BidKind::Bridge(_))
    }

    /// Is this instance a validator credit?
    pub fn is_credit(&self) -> (b: bool)
        ensures
            b == (*self is Credit),
    {
        matches!(self, BidKind::Credit(_))
    }

    /// Is this instance a reservation?
    pub fn is_reservation(&self) -> (b: bool)
        ensures
            b == (*self is Reservation),
    {
        matches!(self, BidKind::Reservation(_))
    }

    /// Is this instance a unbond record?
    pub fn is_unbond(&self) -> (b: bool)
        ensures
            b == (*self is Unbond),
    {
        matches!(self, BidKind::Unbond(_))
    }

    /// The staked amount.
    pub fn staked_amount(&self) -> (a: Option<U512>)
        ensures
            a == spec_staked_amount(*self),
    {
        match self {
            BidKind::Unified(bid) => Some(bid.staked_amount),
            BidKind::Validator(validator_bid) => Some(validator_bid.staked_amount),
            BidKind::Delegator(delegator) => Some(delegator.staked_amount),
            BidKind::Credit(credit) => Some(credit.amount),
            BidKind::Bridge(_) | BidKind::Reservation(_) | BidKind::Unbond(_) => None,
        }
    }

    /// The bonding purse.
    pub fn bonding_purse(&self) -> (p: Option<URef>)
        ensures
            p == match *self {
                BidKind::Unified(b) => Some(b.bonding_purse),
                BidKind::Validator(b) => Some(b.bonding_purse),
                BidKind::Delegator(b) => Some(b.bonding_purse),
                _ => None,
            },
    {
        match self {
            BidKind::Unified(bid) => Some(bid.bonding_purse),
            BidKind::Validator(validator_bid) => Some(validator_bid.bonding_purse),
            BidKind::Delegator(delegator) => Some(delegator.bonding_purse),
            BidKind::Unbond(_) | BidKind::Bridge(_) | BidKind::Credit(_) | BidKind::Reservation(
                _,
            ) => None,
        }
    }

    /// The delegator kind, if relevant.
    pub fn delegator_kind(&self) -> (k: Option<DelegatorKind>)
        ensures
            k == match *self {
                BidKind::Unbond(u) => match u.unbond_kind {
                    UnbondKind::Validator(_) => None,
                    UnbondKind::DelegatedPublicKey(pk) => Some(DelegatorKind::PublicKey(pk)),
                    UnbondKind::DelegatedPurse(p) => Some(DelegatorKind::Purse(p)),
                },
                BidKind::Delegator(b) => Some(b.delegator_kind),
                BidKind::Reservation(b) => Some(b.delegator_kind),
                _ => None,
            },
    {
        match self {
            BidKind::Unified(_) | BidKind::Validator(_) | BidKind::Bridge(_) | BidKind::Credit(
                _,
            ) => None,
            BidKind::Unbond(unbond) => match unbond.unbond_kind {
                UnbondKind::Validator(_) => None,
                UnbondKind::DelegatedPublicKey(pk) => Some(DelegatorKind::PublicKey(pk)),
                UnbondKind::DelegatedPurse(addr) => Some(DelegatorKind::Purse(addr)),
            },
            BidKind::Delegator(bid) => Some(bid.delegator_kind),
            BidKind::Reservation(bid) => Some(bid.delegator_kind),
        }
    }

    /// The unbond kind, if relevant.
    pub fn unbond_kind(&self) -> (k: Option<UnbondKind>)
        ensures
            k == match *self {
                BidKind::Unbond(u) => Some(u.unbond_kind),
                _ => None,
            },
    {
        match self {
            BidKind::Unbond(unbond) => Some(unbond.unbond_kind),
            _ => None,
        }
    }

    /// Is this bid inactive? Validator bids say so themselves; a delegation or a credit is
    /// inactive when its amount is zero; other records never are.
    pub fn inactive(&self) -> (b: bool)
        ensures
            b == match *self {
                BidKind::Unified(bid) => bid.inactive,
                BidKind::Validator(bid) => bid.inactive,
                BidKind::Delegator(d) => d.staked_amount.value() == 0,
                BidKind::Credit(c) => c.amount.value() == 0,
                _ => false,
            },
    {
        match self {
            BidKind::Unified(bid) => bid.inactive,
            BidKind::Validator(validator_bid) => validator_bid.inactive,
            BidKind::Delegator(delegator) => delegator.staked_amount.is_zero(),
            BidKind::Credit(credit) => credit.amount.is_zero(),
            BidKind::Bridge(_) | BidKind::Reservation(_) | BidKind::Unbond(_) => false,
        }
    }

    /// Checks if a bid is still locked under a vesting schedule.
    ///
    /// Returns true if a timestamp falls below the initial lockup period + 91 days release
    /// schedule, otherwise false.
    pub fn is_locked(&self, timestamp_millis: u64) -> (b: bool)
        ensures
            b == spec_is_locked(
                spec_vesting_schedule(*self),
                timestamp_millis,
                DEFAULT_VESTING_SCHEDULE_PERIOD_MILLIS,
            ),
    {
        self.is_locked_with_vesting_schedule(timestamp_millis, DEFAULT_VESTING_SCHEDULE_PERIOD_MILLIS)
    }

    /// Checks if a bid is still locked under a vesting schedule.
    ///
    /// Returns true if a timestamp falls below the initial lockup period plus the given
    /// release schedule, otherwise false.
    pub fn is_locked_with_vesting_schedule(
        &self,
        timestamp_millis: u64,
        vesting_schedule_period_millis: u64,
    ) -> (b: bool)
        ensures
            b == spec_is_locked(
                spec_vesting_schedule(*self),
                timestamp_millis,
                vesting_schedule_period_millis,
            ),
    {
        match self {
            BidKind::Unified(bid) => is_locked_with_vesting_schedule(
                &bid.vesting_schedule,
                timestamp_millis,
                vesting_schedule_period_millis,
            ),
            BidKind::Validator(validator_bid) => is_locked_with_vesting_schedule(
                &validator_bid.vesting_schedule,
                timestamp_millis,
                vesting_schedule_period_millis,
            ),
            BidKind::Delegator(delegator) => is_locked_with_vesting_schedule(
                &delegator.vesting_schedule,
                timestamp_millis,
                vesting_schedule_period_millis,
            ),
            BidKind::Bridge(_) | BidKind::Credit(_) | BidKind::Reservation(_) | BidKind::Unbond(
                _,
            ) => false,
        }
    }

    /// Returns the vesting schedule of the provided bid. `None` if a non-genesis
    /// validator.
    pub fn vesting_schedule(&self) -> (vs: Option<&VestingSchedule>)
        ensures
            match vs {
                Some(s) => spec_vesting_schedule(*self) == Some(*s),
                None => spec_vesting_schedule(*self) is None,
            },
    {
        match self {
            BidKind::Unified(bid) => bid.vesting_schedule.as_ref(),
            BidKind::Validator(validator_bid) => validator_bid.vesting_schedule.as_ref(),
            BidKind::Delegator(delegator) => delegator.vesting_schedule.as_ref(),
            BidKind::Bridge(_) | BidKind::Credit(_) | BidKind::Reservation(_) | BidKind::Unbond(
                _,
            ) => None,
        }
    }

    /// BidKindTag.
    pub fn tag(&self) -> (t: BidKindTag)
        ensures
            t == spec_tag(*self),
    {
        match self {
            BidKind::Unified(_) => BidKindTag::Unified,
            BidKind::Validator(_) => BidKindTag::Validator,
            BidKind::Delegator(_) => BidKindTag::Delegator,
            BidKind::Bridge(_) => BidKindTag::Bridge,
            BidKind::Credit(_) => BidKindTag::Credit,
            BidKind::Reservation(_) => BidKindTag::Reservation,
            BidKind::Unbond(_) => BidKindTag::Unbond,
        }
    }

    /// The `[EraId]` associated with this `[BidKind]`, if any.
    pub fn era_id(&self) -> (e: Option<EraId>)
        ensures
            e == match *self {
                BidKind::Bridge(b) => Some(b.era_id),
                BidKind::Credit(c) => Some(c.era_id),
                _ => None,
            },
    {
        match self {
            BidKind::Bridge(bridge) => Some(bridge.era_id),
            BidKind::Credit(credit) => Some(credit.era_id),
            BidKind::Unified(_) | BidKind::Validator(_) | BidKind::Delegator(_)
            | BidKind::Reservation(_) | BidKind::Unbond(_) => None,
        }
    }
}

/// Every record has exactly one tag, and the tag names its variant: the tag is
/// `Validator` exactly when `is_validator` holds, and so on.
pub proof fn lemma_tag_matches_variant(bk: BidKind)
    ensures
        (spec_tag(bk) == BidKindTag::Unified) == (bk is Unified),
        (spec_tag(bk) == BidKindTag::Validator) == (bk is Validator),
        (spec_tag(bk) == BidKindTag::Delegator) == (bk is Delegator),
        (spec_tag(bk) == BidKindTag::Bridge) == (bk is Bridge),
        (spec_tag(bk) == BidKindTag::Credit) == (bk is Credit),
        (spec_tag(bk) == BidKindTag::Reservation) == (bk is Reservation),
        (spec_tag(bk) == BidKindTag::Unbond) == (bk is Unbond),
{
}

} // verus!

verus! {

/// Returns true if the two public keys are the same.
pub fn same_public_key(a: &PublicKey, b: &PublicKey) -> (r: bool)
    ensures
        r == (*a == *b),
{
    crate::ordered::compare_keys(a, b) == crate::ordered::KeyOrder::Equal
}

/// The delegations to validator `pk` among the records, in their order.
pub open spec fn validator_delegators(bids: Seq<BidKind>, pk: PublicKey) -> Seq<DelegatorBid>
    decreases bids.len(),
{
    if bids.len() == 0 {
        Seq::empty()
    } else {
        let prev = validator_delegators(bids.drop_last(), pk);
        match bids.last() {
            BidKind::Delegator(d) => if d.validator_public_key == pk {
                prev.push(*d)
            } else {
                prev
            },
            _ => prev,
        }
    }
}

/// The reservations at validator `pk` among the records, in their order.
pub open spec fn validator_reservations(bids: Seq<BidKind>, pk: PublicKey) -> Seq<Reservation>
    decreases bids.len(),
{
    if bids.len() == 0 {
        Seq::empty()
    } else {
        let prev = validator_reservations(bids.drop_last(), pk);
        match bids.last() {
            BidKind::Reservation(r) => if r.validator_public_key == pk {
                prev.push(*r)
            } else {
                prev
            },
            _ => prev,
        }
    }
}

/// The delegations to validator `public_key` among the records, in their order; `None`
/// when there are none.
pub fn delegators_by_validator_public_key(bids: &Vec<BidKind>, public_key: &PublicKey) -> (r: Option<Vec<DelegatorBid>>)
    ensures
        match r {
            Some(v) => v@ == validator_delegators(bids@, *public_key) && v@.len() > 0,
            None => validator_delegators(bids@, *public_key).len() == 0,
        },
{
    let mut ret: Vec<DelegatorBid> = Vec::new();
    let mut i: usize = 0;
    while i < bids.len()
        invariant
            i <= bids@.len(),
            ret@ == validator_delegators(bids@.take(i as int), *public_key),
        decreases bids@.len() - i,
    {
        proof {
            assert(bids@.take(i + 1).drop_last() =~= bids@.take(i as int));
        }
        match &bids[i] {
            BidKind::Delegator(d) => {
                if same_public_key(&d.validator_public_key, public_key) {
                    ret.push(**d);
                }
            },
            _ => {},
        }
        i = i + 1;
    }
    proof {
        assert(bids@.take(i as int) =~= bids@);
    }
    if ret.len() == 0 {
        None
    } else {
        Some(ret)
    }
}

/// The reservations at validator `public_key` among the records, in their order; `None`
/// when there are none.
pub fn reservations_by_validator_public_key(bids: &Vec<BidKind>, public_key: &PublicKey) -> (r: Option<Vec<Reservation>>)
    ensures
        match r {
            Some(v) => v@ == validator_reservations(bids@, *public_key) && v@.len() > 0,
            None => validator_reservations(bids@, *public_key).len() == 0,
        },
{
    let mut ret: Vec<Reservation> = Vec::new();
    let mut i: usize = 0;
    while i < bids.len()
        invariant
            i <= bids@.len(),
            ret@ == validator_reservations(bids@.take(i as int), *public_key),
        decreases bids@.len() - i,
    {
        proof {
            assert(bids@.take(i + 1).drop_last() =~= bids@.take(i as int));
        }
        match &bids[i] {
            BidKind::Reservation(r) => {
                if same_public_key(&r.validator_public_key, public_key) {
                    ret.push(**r);
                }
            },
            _ => {},
        }
        i = i + 1;
    }
    proof {
        assert(bids@.take(i as int) =~= bids@);
    }
    if ret.len() == 0 {
        None
    } else {
        Some(ret)
    }
}

} // verus!
