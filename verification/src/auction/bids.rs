//! The records that the auction keeps: bids, delegations, bridges, credits, reservations
//! and unbonds, each with what the auction logic reads of it.
use vstd::prelude::*;

use crate::keys::{AccountHash, PublicKey, URef, URefAddr};
use crate::u512::{u512_bound, zero_u512, U512};

verus! {

/// Length of the release schedule that follows the initial lockup: 91 days.
pub const DEFAULT_VESTING_SCHEDULE_PERIOD_MILLIS: u64 = 7_862_400_000;

/// Delegation rate of a validator, in percent.
pub type DelegationRate = u8;

/// An era id.
#[derive(Debug, Clone, Copy, PartialEq, Eq, PartialOrd, Ord, Hash, Structural)]
pub struct EraId(pub u64);

impl EraId {
    /// Creates an era id.
    pub fn new(value: u64) -> (e: Self)
        ensures
            e.0 == value,
    {
        EraId(value)
    }

    /// Returns the era number.
    pub fn value(&self) -> (v: u64)
        ensures
            v == self.0,
    {
        self.0
    }
}

/// The vesting schedule of a genesis bid: the bid is locked until the initial release
/// time plus the release schedule.
#[derive(Debug, Clone, Copy, PartialEq, Eq, Structural)]
pub struct VestingSchedule {
    /// Time at which the initial lockup ends, in milliseconds.
    pub initial_release_timestamp_millis: u64,
}

/// Whether a schedule locks its bid at the given time: before the initial release plus
/// the release period (saturating at `u64::MAX`).
pub open spec fn spec_is_vesting(
    vs: VestingSchedule,
    timestamp_millis: u64,
    vesting_schedule_period_millis: u64,
) -> bool {
    let end = vs.initial_release_timestamp_millis + vesting_schedule_period_millis;
    timestamp_millis < if end > u64::MAX { u64::MAX as int } else { end }
}

/// Whether an optional schedule locks its bid at the given time; no schedule never locks.
pub open spec fn spec_is_locked(
    vs: Option<VestingSchedule>,
    timestamp_millis: u64,
    vesting_schedule_period_millis: u64,
) -> bool {
    match vs {
        Some(s) => spec_is_vesting(s, timestamp_millis, vesting_schedule_period_millis),
        None => false,
    }
}

impl VestingSchedule {
    /// Creates a schedule.
    pub fn new(initial_release_timestamp_millis: u64) -> (s: Self)
        ensures
            s.initial_release_timestamp_millis == initial_release_timestamp_millis,
    {
        VestingSchedule { initial_release_timestamp_millis }
    }

    /// Returns true if the schedule locks its bid at the given time.
    pub fn is_vesting(&self, timestamp_millis: u64, vesting_schedule_period_millis: u64) -> (b:
        bool)
        ensures
            b == spec_is_vesting(*self, timestamp_millis, vesting_schedule_period_millis),
    {
        timestamp_millis < self.initial_release_timestamp_millis.saturating_add(
            vesting_schedule_period_millis,
        )
    }
}

/// Whether an optional schedule locks its bid at the given time.
pub fn is_locked_with_vesting_schedule(
    vesting_schedule: &Option<VestingSchedule>,
    timestamp_millis: u64,
    vesting_schedule_period_millis: u64,
) -> (b: bool)
    ensures
        b == spec_is_locked(*vesting_schedule, timestamp_millis, vesting_schedule_period_millis),
{
    match vesting_schedule {
        Some(s) => s.is_vesting(timestamp_millis, vesting_schedule_period_millis),
        None => false,
    }
}

/// Who delegates: an account's public key, or a purse.
#[derive(Debug, Clone, Copy, PartialEq, Eq, Hash)]
pub enum DelegatorKind {
    /// Delegation from a public key.
    PublicKey(PublicKey),
    /// Delegation from a purse.
    Purse(URefAddr),
}

/// Who unbonds: the validator, a delegating public key, or a delegating purse.
#[derive(Debug, Clone, Copy, PartialEq, Eq, Hash)]
pub enum UnbondKind {
    /// The validator.
    Validator(PublicKey),
    /// A delegator identified by its public key.
    DelegatedPublicKey(PublicKey),
    /// A delegator identified by its purse.
    DelegatedPurse(URefAddr),
}

/// Where a record is kept in global state.
#[derive(Debug, Clone, Copy, PartialEq, Eq, Hash)]
pub enum BidAddr {
    /// A unified bid.
    Unified(AccountHash),
    /// A validator bid.
    Validator(AccountHash),
    /// A delegation from an account.
    DelegatedAccount { validator: AccountHash, delegator: AccountHash },
    /// A delegation from a purse.
    DelegatedPurse { validator: AccountHash, delegator: URefAddr },
    /// A validator credit.
    Credit { validator: AccountHash, era_id: EraId },
    /// A reservation for an account.
    ReservedDelegationAccount { validator: AccountHash, delegator: AccountHash },
    /// A reservation for a purse.
    ReservedDelegationPurse { validator: AccountHash, delegator: URefAddr },
    /// An unbond of an account.
    UnbondAccount { validator: AccountHash, unbonder: AccountHash },
    /// An unbond of a purse.
    UnbondPurse { validator: AccountHash, unbonder: URefAddr },
}

/// A unified bid: the legacy record of a validator, with its delegators' stakes.
#[derive(Debug, Clone, PartialEq, Eq)]
pub struct Bid {
    pub validator_public_key: PublicKey,
    pub bonding_purse: URef,
    pub staked_amount: U512,
    pub delegation_rate: DelegationRate,
    pub vesting_schedule: Option<VestingSchedule>,
    pub inactive: bool,
    /// The stakes of the validator's delegators, ordered by delegator key.
    pub delegators: Vec<(PublicKey, U512)>,
}

/// The sum of the stakes of a unified bid's delegators.
pub open spec fn delegator_stakes_sum(ds: Seq<(PublicKey, U512)>) -> nat
    decreases ds.len(),
{
    if ds.len() == 0 {
        0
    } else {
        delegator_stakes_sum(ds.drop_last()) + ds.last().1.value()
    }
}

/// A prefix of the delegators' stakes sums to no more than all of them.
proof fn lemma_delegator_stakes_prefix(ds: Seq<(PublicKey, U512)>, i: int)
    requires
        0 <= i <= ds.len(),
    ensures
        delegator_stakes_sum(ds.take(i)) <= delegator_stakes_sum(ds),
    decreases ds.len() - i,
{
    if i < ds.len() {
        assert(ds.take(i + 1).drop_last() =~= ds.take(i));
        lemma_delegator_stakes_prefix(ds, i + 1);
    } else {
        assert(ds.take(i) =~= ds);
    }
}

impl Bid {
    /// The validator's stake with its delegators' stakes, as a number.
    pub open spec fn spec_total_stake(&self) -> nat {
        self.staked_amount.value() + delegator_stakes_sum(self.delegators@)
    }

    /// The validator's stake with its delegators' stakes; `None` when that does not fit in
    /// 512 bits.
    pub fn total_staked_amount(&self) -> (r: Option<U512>)
        ensures
            r is Some <==> self.spec_total_stake() < u512_bound(),
            r matches Some(t) ==> t.value() == self.spec_total_stake(),
    {
        let ghost ds = self.delegators@;
        let mut sum = U512::zero();
        let mut i: usize = 0;
        while i < self.delegators.len()
            invariant
                i <= ds.len(),
                ds == self.delegators@,
                sum.value() == delegator_stakes_sum(ds.take(i as int)),
            decreases ds.len() - i,
        {
            proof {
                assert(ds.take(i + 1).drop_last() =~= ds.take(i as int));
                lemma_delegator_stakes_prefix(ds, i + 1);
            }
            sum = match sum.checked_add(&self.delegators[i].1) {
                Some(t) => t,
                None => {
                    proof {
                        self.staked_amount.lemma_value_bound();
                    }
                    return None;
                },
            };
            i = i + 1;
        }
        proof {
            assert(ds.take(i as int) =~= ds);
        }
        sum.checked_add(&self.staked_amount)
    }

    /// An active bid with no stake, no delegators, a zero rate and no vesting schedule.
    pub fn empty(validator_public_key: PublicKey, bonding_purse: URef) -> (b: Self)
        ensures
            b.validator_public_key == validator_public_key,
            b.bonding_purse == bonding_purse,
            b.staked_amount.value() == 0,
            b.delegation_rate == 0,
            b.vesting_schedule is None,
            !b.inactive,
            b.delegators@.len() == 0,
    {
        Bid {
            validator_public_key,
            bonding_purse,
            staked_amount: U512::zero(),
            delegation_rate: 0,
            vesting_schedule: None,
            inactive: false,
            delegators: Vec::new(),
        }
    }

    /// Creates an active bid without a vesting schedule.
    pub fn unlocked(
        validator_public_key: PublicKey,
        bonding_purse: URef,
        staked_amount: U512,
        delegation_rate: DelegationRate,
    ) -> (b: Self)
        ensures
            b.validator_public_key == validator_public_key,
            b.bonding_purse == bonding_purse,
            b.staked_amount == staked_amount,
            b.delegation_rate == delegation_rate,
            b.vesting_schedule is None,
            !b.inactive,
            b.delegators@.len() == 0,
    {
        Bid {
            validator_public_key,
            bonding_purse,
            staked_amount,
            delegation_rate,
            vesting_schedule: None,
            inactive: false,
            delegators: Vec::new(),
        }
    }
}

/// A validator bid.
#[derive(Debug, Clone, Copy, PartialEq, Eq)]
pub struct ValidatorBid {
    pub validator_public_key: PublicKey,
    pub bonding_purse: URef,
    pub staked_amount: U512,
    pub delegation_rate: DelegationRate,
    pub vesting_schedule: Option<VestingSchedule>,
    pub inactive: bool,
    pub minimum_delegation_amount: u64,
    pub maximum_delegation_amount: u64,
    pub reserved_slots: u32,
}

/// An active validator bid without a vesting schedule.
pub open spec fn unlocked_validator_bid(
    validator_public_key: PublicKey,
    bonding_purse: URef,
    staked_amount: U512,
    delegation_rate: DelegationRate,
    minimum_delegation_amount: u64,
    maximum_delegation_amount: u64,
    reserved_slots: u32,
) -> ValidatorBid {
    ValidatorBid {
        validator_public_key,
        bonding_purse,
        staked_amount,
        delegation_rate,
        vesting_schedule: None,
        inactive: false,
        minimum_delegation_amount,
        maximum_delegation_amount,
        reserved_slots,
    }
}

impl ValidatorBid {
    /// Creates an active validator bid without a vesting schedule.
    pub fn unlocked(
        validator_public_key: PublicKey,
        bonding_purse: URef,
        staked_amount: U512,
        delegation_rate: DelegationRate,
        minimum_delegation_amount: u64,
        maximum_delegation_amount: u64,
        reserved_slots: u32,
    ) -> (v: Self)
        ensures
            v == unlocked_validator_bid(
                validator_public_key,
                bonding_purse,
                staked_amount,
                delegation_rate,
                minimum_delegation_amount,
                maximum_delegation_amount,
                reserved_slots,
            ),
    {
        ValidatorBid {
            validator_public_key,
            bonding_purse,
            staked_amount,
            delegation_rate,
            vesting_schedule: None,
            inactive: false,
            minimum_delegation_amount,
            maximum_delegation_amount,
            reserved_slots,
        }
    }

    /// An active validator bid with no stake, a zero rate, no delegation limits, no reserved
    /// slots and no vesting schedule.
    pub fn empty(validator_public_key: PublicKey, bonding_purse: URef) -> (v: Self)
        ensures
            v.validator_public_key == validator_public_key,
            v.bonding_purse == bonding_purse,
            v.staked_amount.value() == 0,
            v.delegation_rate == 0,
            v.vesting_schedule is None,
            !v.inactive,
            v.minimum_delegation_amount == 0,
            v.maximum_delegation_amount == u64::MAX,
            v.reserved_slots == 0,
    {
        ValidatorBid {
            validator_public_key,
            bonding_purse,
            staked_amount: U512::zero(),
            delegation_rate: 0,
            vesting_schedule: None,
            inactive: false,
            minimum_delegation_amount: 0,
            maximum_delegation_amount: u64::MAX,
            reserved_slots: 0,
        }
    }

    /// Sets the smallest and largest amounts a delegator may delegate.
    pub fn set_delegation_amount_boundaries(&mut self, minimum: u64, maximum: u64)
        ensures
            *final(self) == (ValidatorBid {
                minimum_delegation_amount: minimum,
                maximum_delegation_amount: maximum,
                ..*old(self)
            }),
    {
        self.minimum_delegation_amount = minimum;
        self.maximum_delegation_amount = maximum;
    }

    /// The validator bid that carries a unified bid's data, with no delegation limits and
    /// no reserved slots.
    pub fn from_bid(bid: &Bid) -> (v: Self)
        ensures
            v.validator_public_key == bid.validator_public_key,
            v.bonding_purse == bid.bonding_purse,
            v.staked_amount == bid.staked_amount,
            v.delegation_rate == bid.delegation_rate,
            v.vesting_schedule == bid.vesting_schedule,
            v.inactive == bid.inactive,
            v.minimum_delegation_amount == 0,
            v.maximum_delegation_amount == u64::MAX,
            v.reserved_slots == 0,
    {
        ValidatorBid {
            validator_public_key: bid.validator_public_key,
            bonding_purse: bid.bonding_purse,
            staked_amount: bid.staked_amount,
            delegation_rate: bid.delegation_rate,
            vesting_schedule: bid.vesting_schedule,
            inactive: bid.inactive,
            minimum_delegation_amount: 0,
            maximum_delegation_amount: u64::MAX,
            reserved_slots: 0,
        }
    }
}

/// A delegation.
#[derive(Debug, Clone, Copy, PartialEq, Eq)]
pub struct DelegatorBid {
    pub delegator_kind: DelegatorKind,
    pub staked_amount: U512,
    pub bonding_purse: URef,
    pub validator_public_key: PublicKey,
    pub vesting_schedule: Option<VestingSchedule>,
}

/// A delegation without a vesting schedule.
pub open spec fn unlocked_delegator_bid(
    delegator_kind: DelegatorKind,
    staked_amount: U512,
    bonding_purse: URef,
    validator_public_key: PublicKey,
) -> DelegatorBid {
    DelegatorBid {
        delegator_kind,
        staked_amount,
        bonding_purse,
        validator_public_key,
        vesting_schedule: None,
    }
}

/// A delegation with no stake and no vesting schedule.
pub open spec fn empty_delegator_bid(
    validator_public_key: PublicKey,
    delegator_kind: DelegatorKind,
    bonding_purse: URef,
) -> DelegatorBid {
    DelegatorBid {
        delegator_kind,
        staked_amount: zero_u512(),
        bonding_purse,
        validator_public_key,
        vesting_schedule: None,
    }
}

impl DelegatorBid {
    /// A delegation with no stake and no vesting schedule.
    pub fn empty(validator_public_key: PublicKey, delegator_kind: DelegatorKind, bonding_purse: URef) -> (d: Self)
        ensures
            d.delegator_kind == delegator_kind,
            d.staked_amount.value() == 0,
            d.bonding_purse == bonding_purse,
            d.validator_public_key == validator_public_key,
            d.vesting_schedule is None,
            d == empty_delegator_bid(validator_public_key, delegator_kind, bonding_purse),
    {
        DelegatorBid {
            delegator_kind,
            staked_amount: U512::zero(),
            bonding_purse,
            validator_public_key,
            vesting_schedule: None,
        }
    }

    /// Creates a delegation without a vesting schedule.
    pub fn unlocked(
        delegator_kind: DelegatorKind,
        staked_amount: U512,
        bonding_purse: URef,
        validator_public_key: PublicKey,
    ) -> (d: Self)
        ensures
            d.delegator_kind == delegator_kind,
            d.staked_amount == staked_amount,
            d.bonding_purse == bonding_purse,
            d.validator_public_key == validator_public_key,
            d.vesting_schedule is None,
            d == unlocked_delegator_bid(delegator_kind, staked_amount, bonding_purse, validator_public_key),
    {
        DelegatorBid {
            delegator_kind,
            staked_amount,
            bonding_purse,
            validator_public_key,
            vesting_schedule: None,
        }
    }
}

/// A bridge from a validator's old public key to its new one.
#[derive(Debug, Clone, Copy, PartialEq, Eq)]
pub struct Bridge {
    pub old_validator_public_key: PublicKey,
    pub new_validator_public_key: PublicKey,
    pub era_id: EraId,
}

/// An amount credited to a validator in an era.
#[derive(Debug, Clone, Copy, PartialEq, Eq)]
pub struct ValidatorCredit {
    pub validator_public_key: PublicKey,
    pub era_id: EraId,
    pub amount: U512,
}

impl ValidatorCredit {
    /// A credit of nothing.
    pub fn empty(validator_public_key: PublicKey, era_id: EraId) -> (c: Self)
        ensures
            c.validator_public_key == validator_public_key,
            c.era_id == era_id,
            c.amount.value() == 0,
    {
        ValidatorCredit { validator_public_key, era_id, amount: U512::zero() }
    }

    /// Creates a credit.
    pub fn new(validator_public_key: PublicKey, era_id: EraId, amount: U512) -> (c: Self)
        ensures
            c.validator_public_key == validator_public_key,
            c.era_id == era_id,
            c.amount == amount,
    {
        ValidatorCredit { validator_public_key, era_id, amount }
    }
}

/// A reservation of a delegation slot at a validator.
#[derive(Debug, Clone, Copy, PartialEq, Eq)]
pub struct Reservation {
    pub delegator_kind: DelegatorKind,
    pub validator_public_key: PublicKey,
    pub delegation_rate: DelegationRate,
}

impl Reservation {
    /// Creates a reservation.
    pub fn new(validator_public_key: PublicKey, delegator_kind: DelegatorKind, delegation_rate: DelegationRate) -> (r: Self)
        ensures
            r.validator_public_key == validator_public_key,
            r.delegator_kind == delegator_kind,
            r.delegation_rate == delegation_rate,
    {
        Reservation { delegator_kind, validator_public_key, delegation_rate }
    }
}

/// An amount unbonding since an era.
#[derive(Debug, Clone, Copy, PartialEq, Eq)]
pub struct UnbondEra {
    /// The purse the amount was bonded from.
    pub bonding_purse: URef,
    /// The era in which the unbonding began.
    pub era_of_creation: EraId,
    /// The amount unbonding.
    pub amount: U512,
    /// The validator the amount is redelegated to, if any.
    pub new_validator: Option<PublicKey>,
}

/// An unbonding record: what one unbonder unbonds from one validator, era by era.
#[derive(Debug, Clone, PartialEq, Eq)]
pub struct Unbond {
    pub validator_public_key: PublicKey,
    pub unbond_kind: UnbondKind,
    pub eras: Vec<UnbondEra>,
}

impl Unbond {
    /// Creates an unbonding record.
    pub fn new(validator_public_key: PublicKey, unbond_kind: UnbondKind, eras: Vec<UnbondEra>) -> (u: Self)
        ensures
            u.validator_public_key == validator_public_key,
            u.unbond_kind == unbond_kind,
            u.eras@ == eras@,
    {
        Unbond { validator_public_key, unbond_kind, eras }
    }
}

} // verus!
