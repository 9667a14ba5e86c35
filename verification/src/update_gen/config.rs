//! The configuration of a generic update: transfers, balances, and the validators to set.
use vstd::prelude::*;

use crate::auction::bids::{DelegationRate, DelegatorKind};
use crate::keys::{AccountHash, PublicKey};
use crate::ordered::{map_insert, map_insert_exec, sorted, lemma_map_insert};
use crate::u512::U512;

verus! {

/// A version of the protocol.
#[derive(Debug, Clone, Copy, PartialEq, Eq, Structural, Default)]
pub struct ProtocolVersion {
    /// The major version.
    pub major: u32,
    /// The minor version.
    pub minor: u32,
    /// The patch version.
    pub patch: u32,
}

/// A transfer of tokens between the main purses of two accounts.
#[derive(Debug, Clone, Copy, PartialEq, Eq)]
pub struct Transfer {
    /// The paying account.
    pub from: AccountHash,
    /// The receiving account.
    pub to: AccountHash,
    /// The amount.
    pub amount: U512,
}

/// A delegation to set.
#[derive(Debug, Clone, Copy, PartialEq, Eq)]
pub struct DelegatorConfig {
    /// The delegating key.
    pub public_key: PublicKey,
    /// The amount delegated.
    pub delegated_amount: U512,
}

/// A reserved delegation slot to set.
#[derive(Debug, Clone, Copy, PartialEq, Eq)]
pub struct ReservationConfig {
    /// The key the slot is reserved for.
    pub public_key: PublicKey,
    /// The delegation rate of the slot.
    pub delegation_rate: DelegationRate,
}

/// A validator to set: its stake, and optionally its rate, delegators and reservations.
#[derive(Debug, Clone, PartialEq, Eq)]
pub struct ValidatorConfig {
    /// The validator's stake.
    pub bonded_amount: U512,
    /// The delegation rate, if it is to be set.
    pub delegation_rate: Option<u8>,
    /// The delegators, if they are to be set.
    pub delegators: Option<Vec<DelegatorConfig>>,
    /// The reservations, if they are to be set.
    pub reservations: Option<Vec<ReservationConfig>>,
}

/// An account to set: its balance and, if it is to be one, its validator settings.
#[derive(Debug, Clone, PartialEq, Eq)]
pub struct AccountConfig {
    /// The account's key.
    pub public_key: PublicKey,
    /// The balance to set, if any.
    pub balance: Option<U512>,
    /// The validator settings, if any.
    pub validator: Option<ValidatorConfig>,
}

/// The configuration of a generic update.
#[derive(Debug, Clone, PartialEq, Eq, Default)]
pub struct Config {
    /// The transfers to make.
    pub transfers: Vec<Transfer>,
    /// The accounts to set.
    pub accounts: Vec<AccountConfig>,
    /// Whether the listed validators become the only ones.
    pub only_listed_validators: bool,
    /// Whether removed validators are slashed rather than unbonded.
    pub slash_instead_of_unbonding: bool,
    /// The protocol version of the update.
    pub protocol_version: ProtocolVersion,
}

/// A validator's settings, with its lists as sequences.
pub struct ValidatorConfigView {
    pub bonded_amount: U512,
    pub delegation_rate: Option<u8>,
    pub delegators: Option<Seq<DelegatorConfig>>,
    pub reservations: Option<Seq<ReservationConfig>>,
}

impl View for ValidatorConfig {
    type V = ValidatorConfigView;

    open spec fn view(&self) -> ValidatorConfigView {
        ValidatorConfigView {
            bonded_amount: self.bonded_amount,
            delegation_rate: self.delegation_rate,
            delegators: match self.delegators {
                Some(d) => Some(d@),
                None => None,
            },
            reservations: match self.reservations {
                Some(r) => Some(r@),
                None => None,
            },
        }
    }
}

/// An account's settings, with its lists as sequences.
pub struct AccountConfigView {
    pub public_key: PublicKey,
    pub balance: Option<U512>,
    pub validator: Option<ValidatorConfigView>,
}

impl View for AccountConfig {
    type V = AccountConfigView;

    open spec fn view(&self) -> AccountConfigView {
        AccountConfigView {
            public_key: self.public_key,
            balance: self.balance,
            validator: match self.validator {
                Some(v) => Some(v@),
                None => None,
            },
        }
    }
}

/// The views of the accounts.
pub open spec fn accounts_view(s: Seq<AccountConfig>) -> Seq<AccountConfigView> {
    s.map_values(|a: AccountConfig| a@)
}

/// The delegators as a map from delegator to stake; a later entry for a key replaces an
/// earlier one.
pub open spec fn delegator_entries(s: Seq<DelegatorConfig>) -> Seq<(DelegatorKind, U512)>
    decreases s.len(),
{
    if s.len() == 0 {
        Seq::empty()
    } else {
        map_insert(
            delegator_entries(s.drop_last()),
            DelegatorKind::PublicKey(s.last().public_key),
            s.last().delegated_amount,
        )
    }
}

/// The reservations as a map from delegator to rate; a later entry for a key replaces an
/// earlier one.
pub open spec fn reservation_entries(s: Seq<ReservationConfig>) -> Seq<(DelegatorKind, DelegationRate)>
    decreases s.len(),
{
    if s.len() == 0 {
        Seq::empty()
    } else {
        map_insert(
            reservation_entries(s.drop_last()),
            DelegatorKind::PublicKey(s.last().public_key),
            s.last().delegation_rate,
        )
    }
}

/// The maps built from configured lists are ordered.
pub proof fn lemma_entries_sorted(d: Seq<DelegatorConfig>, r: Seq<ReservationConfig>)
    ensures
        sorted(delegator_entries(d)),
        sorted(reservation_entries(r)),
    decreases d.len() + r.len(),
{
    if d.len() > 0 {
        lemma_entries_sorted(d.drop_last(), r);
        lemma_map_insert(
            delegator_entries(d.drop_last()),
            DelegatorKind::PublicKey(d.last().public_key),
            d.last().delegated_amount,
        );
    } else if r.len() > 0 {
        lemma_entries_sorted(d, r.drop_last());
        lemma_map_insert(
            reservation_entries(r.drop_last()),
            DelegatorKind::PublicKey(r.last().public_key),
            r.last().delegation_rate,
        );
    }
}

/// The configured delegators' stakes, by delegator, if delegators are configured.
pub open spec fn spec_delegators_map(v: ValidatorConfigView) -> Option<Seq<(DelegatorKind, U512)>> {
    match v.delegators {
        Some(d) => Some(delegator_entries(d)),
        None => None,
    }
}

/// The configured reservations' rates, by delegator, if reservations are configured.
pub open spec fn spec_reservations_map(v: ValidatorConfigView) -> Option<Seq<(DelegatorKind, DelegationRate)>> {
    match v.reservations {
        Some(r) => Some(reservation_entries(r)),
        None => None,
    }
}

/// The view of an optional map.
pub open spec fn opt_entries<K, V>(o: Option<Vec<(K, V)>>) -> Option<Seq<(K, V)>> {
    match o {
        Some(v) => Some(v@),
        None => None,
    }
}

impl ValidatorConfig {
    /// The configured delegators as a map from delegator to stake; a later entry for a key
    /// replaces an earlier one.
    pub fn delegators_map(&self) -> (r: Option<Vec<(DelegatorKind, U512)>>)
        ensures
            opt_entries(r) == spec_delegators_map(self@),
    {
        match &self.delegators {
            None => None,
            Some(delegators) => {
                let mut map: Vec<(DelegatorKind, U512)> = Vec::new();
                let mut i: usize = 0;
                while i < delegators.len()
                    invariant
                        i <= delegators@.len(),
                        map@ == delegator_entries(delegators@.take(i as int)),
                        sorted(map@),
                    decreases delegators@.len() - i,
                {
                    let d = delegators[i];
                    proof {
                        assert(delegators@.take(i + 1).drop_last() =~= delegators@.take(i as int));
                    }
                    map_insert_exec(&mut map, DelegatorKind::PublicKey(d.public_key), d.delegated_amount);
                    i = i + 1;
                }
                proof {
                    assert(delegators@.take(i as int) =~= delegators@);
                }
                Some(map)
            },
        }
    }

    /// The configured reservations as a map from delegator to rate; a later entry for a key
    /// replaces an earlier one.
    pub fn reservations_map(&self) -> (r: Option<Vec<(DelegatorKind, DelegationRate)>>)
        ensures
            opt_entries(r) == spec_reservations_map(self@),
    {
        match &self.reservations {
            None => None,
            Some(reservations) => {
                let mut map: Vec<(DelegatorKind, DelegationRate)> = Vec::new();
                let mut i: usize = 0;
                while i < reservations.len()
                    invariant
                        i <= reservations@.len(),
                        map@ == reservation_entries(reservations@.take(i as int)),
                        sorted(map@),
                    decreases reservations@.len() - i,
                {
                    let r = reservations[i];
                    proof {
                        assert(reservations@.take(i + 1).drop_last() =~= reservations@.take(i as int));
                    }
                    map_insert_exec(&mut map, DelegatorKind::PublicKey(r.public_key), r.delegation_rate);
                    i = i + 1;
                }
                proof {
                    assert(reservations@.take(i as int) =~= reservations@);
                }
                Some(map)
            },
        }
    }
}

} // verus!
