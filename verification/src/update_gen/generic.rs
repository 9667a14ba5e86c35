//! The generic update: new snapshots of seigniorage recipients, and the bids that match them.
use vstd::prelude::*;

use super::config::{
    Transfer, accounts_view, spec_delegators_map, spec_reservations_map, AccountConfig, AccountConfigView,
    ValidatorConfigView,
};
use super::recipients::{
    copy_entries, copy_era, era_view, snapshot_view, total_stake_value, RecipientView,
    SeigniorageRecipientV2, SeigniorageRecipientsSnapshotV2,
};
use super::tracker::{kept_auction, StateTracker, TrackerEffect};
use crate::auction::bid_kind::{
    delegators_by_validator_public_key, reservations_by_validator_public_key, same_public_key,
    spec_validator_public_key, validator_delegators, validator_reservations, BidKind,
};
use crate::auction::bids::{
    empty_delegator_bid, unlocked_delegator_bid, unlocked_validator_bid, Bid, DelegationRate,
    DelegatorBid, DelegatorKind, EraId, Reservation, Unbond, ValidatorBid, ValidatorCredit,
};
use crate::keys::{is_account_hash_of, PublicKey, URef};
use vstd::pervasive::arbitrary;
use crate::ordered::{
    lemma_get_view, lemma_insert_view, lemma_map_get, lemma_sorted_view, lemma_map_insert, map_get, map_get_exec, map_insert,
    map_insert_exec, map_view, sorted, key_lt, OrderKey,
};
use crate::u512::{u512_bound, zero_u512, U512};

verus! {

/// The recipient a validator's settings make: its stake, its rate or 0, its delegators and
/// reservations or none.
pub open spec fn recipient_of(v: ValidatorConfigView) -> RecipientView {
    RecipientView {
        stake: v.bonded_amount,
        delegation_rate: match v.delegation_rate {
            Some(r) => r,
            None => 0,
        },
        delegator_stake: match spec_delegators_map(v) {
            Some(m) => m,
            None => Seq::empty(),
        },
        reservation_delegation_rates: match spec_reservations_map(v) {
            Some(m) => m,
            None => Seq::empty(),
        },
    }
}

/// The validators the accounts list with a non-zero stake, by key; a later account with the
/// same key replaces an earlier one.
pub open spec fn listed_validators(accounts: Seq<AccountConfigView>) -> Seq<(PublicKey, RecipientView)>
    decreases accounts.len(),
{
    if accounts.len() == 0 {
        Seq::empty()
    } else {
        let prev = listed_validators(accounts.drop_last());
        let a = accounts.last();
        match a.validator {
            Some(v) => if v.bonded_amount.value() != 0 {
                map_insert(prev, a.public_key, recipient_of(v))
            } else {
                prev
            },
            None => prev,
        }
    }
}

/// Builds the recipient a validator's settings make.
fn new_recipient(v: &super::config::ValidatorConfig) -> (r: SeigniorageRecipientV2)
    ensures
        r@ == recipient_of(v@),
{
    let rate: u8 = match v.delegation_rate {
        Some(r) => r,
        None => 0,
    };
    let delegators = match v.delegators_map() {
        Some(m) => m,
        None => Vec::new(),
    };
    let reservations = match v.reservations_map() {
        Some(m) => m,
        None => Vec::new(),
    };
    SeigniorageRecipientV2::new(v.bonded_amount, rate, delegators, reservations)
}

/// A snapshot in which each of `count` eras from `starting_era_id` on has exactly the
/// validators the accounts list with a non-zero stake.
pub fn gen_snapshot_only_listed(
    starting_era_id: EraId,
    count: u64,
    accounts: &[AccountConfig],
) -> (r: SeigniorageRecipientsSnapshotV2)
    requires
        starting_era_id.0 + count <= u64::MAX,
    ensures
        snapshot_view(r@) == Seq::new(
            count as nat,
            |i: int| (EraId((starting_era_id.0 + i) as u64), listed_validators(accounts_view(accounts@))),
        ),
{
    let mut era_validators: Vec<(PublicKey, SeigniorageRecipientV2)> = Vec::new();
    let mut i: usize = 0;
    while i < accounts.len()
        invariant
            i <= accounts@.len(),
            sorted(era_validators@),
            era_view(era_validators@) == listed_validators(accounts_view(accounts@.take(i as int))),
        decreases accounts@.len() - i,
    {
        let account = &accounts[i];
        proof {
            assert(accounts_view(accounts@.take(i + 1)).drop_last() =~= accounts_view(accounts@.take(i as int)));
            assert(accounts_view(accounts@.take(i + 1)).last() == accounts@[i as int]@);
        }
        match &account.validator {
            Some(validator) => {
                if !validator.bonded_amount.is_zero() {
                    let recipient = new_recipient(validator);
                    proof {
                        lemma_insert_view(era_validators@, |r: SeigniorageRecipientV2| r@, account.public_key, recipient);
                        lemma_map_insert(era_validators@, account.public_key, recipient);
                    }
                    map_insert_exec(&mut era_validators, account.public_key, recipient);
                }
            },
            None => {},
        }
        i = i + 1;
    }
    proof {
        assert(accounts@.take(i as int) =~= accounts@);
    }
    let ghost listed = listed_validators(accounts_view(accounts@));
    let mut snapshot: SeigniorageRecipientsSnapshotV2 = Vec::new();
    let mut k: u64 = 0;
    while k < count
        invariant
            k <= count,
            starting_era_id.0 + count <= u64::MAX,
            era_view(era_validators@) == listed,
            snapshot_view(snapshot@) == Seq::new(
                k as nat,
                |j: int| (EraId((starting_era_id.0 + j) as u64), listed),
            ),
        decreases count - k,
    {
        let era = EraId(starting_era_id.0 + k);
        let copy = copy_era(&era_validators);
        let ghost prev = snapshot@;
        snapshot.push((era, copy));
        proof {
            assert(snapshot_view(snapshot@) =~= snapshot_view(prev).push((era, era_view(copy@))));
            assert(snapshot_view(snapshot@) =~= Seq::new(
                (k + 1) as nat,
                |j: int| (EraId((starting_era_id.0 + j) as u64), listed),
            ));
        }
        k = k + 1;
    }
    snapshot
}

/// The validator settings of the accounts, by key; a later account with the same key
/// replaces an earlier one.
pub open spec fn validators_entries(accounts: Seq<AccountConfigView>) -> Seq<(PublicKey, ValidatorConfigView)>
    decreases accounts.len(),
{
    if accounts.len() == 0 {
        Seq::empty()
    } else {
        let prev = validators_entries(accounts.drop_last());
        let a = accounts.last();
        match a.validator {
            Some(v) => map_insert(prev, a.public_key, v),
            None => prev,
        }
    }
}

/// A recipient with a validator's configured settings: its stake, and its rate, delegators
/// and reservations where configured, else the recipient's own.
pub open spec fn modified(r: RecipientView, v: ValidatorConfigView) -> RecipientView {
    RecipientView {
        stake: v.bonded_amount,
        delegation_rate: match v.delegation_rate {
            Some(x) => x,
            None => r.delegation_rate,
        },
        delegator_stake: match spec_delegators_map(v) {
            Some(m) => m,
            None => r.delegator_stake,
        },
        reservation_delegation_rates: match spec_reservations_map(v) {
            Some(m) => m,
            None => r.reservation_delegation_rates,
        },
    }
}

/// The recipients that stay: those configured with a zero stake are dropped, other
/// configured ones take their settings, the rest stay as they were.
pub open spec fn retained(
    s: Seq<(PublicKey, RecipientView)>,
    vmap: Seq<(PublicKey, ValidatorConfigView)>,
) -> Seq<(PublicKey, RecipientView)>
    decreases s.len(),
{
    if s.len() == 0 {
        Seq::empty()
    } else {
        let prev = retained(s.drop_last(), vmap);
        let (pk, r) = s.last();
        match map_get(vmap, pk) {
            Some(v) => if v.bonded_amount.value() == 0 {
                prev
            } else {
                prev.push((pk, modified(r, v)))
            },
            None => prev.push((pk, r)),
        }
    }
}

/// The recipients with the configured validators they lack added, in key order, unless
/// their stake is zero.
pub open spec fn added(
    s: Seq<(PublicKey, RecipientView)>,
    vmap: Seq<(PublicKey, ValidatorConfigView)>,
) -> Seq<(PublicKey, RecipientView)>
    decreases vmap.len(),
{
    if vmap.len() == 0 {
        s
    } else {
        let prev = added(s, vmap.drop_last());
        let (pk, v) = vmap.last();
        if map_get(prev, pk) is Some {
            prev
        } else if v.bonded_amount.value() == 0 {
            prev
        } else {
            map_insert(prev, pk, recipient_of(v))
        }
    }
}

/// An era's recipients, updated by the configured validators.
pub open spec fn updated_era(
    s: Seq<(PublicKey, RecipientView)>,
    vmap: Seq<(PublicKey, ValidatorConfigView)>,
) -> Seq<(PublicKey, RecipientView)> {
    added(retained(s, vmap), vmap)
}

/// Every key the retained recipients have is a key of the original ones, and in sorted
/// recipients the retained ones are sorted.
proof fn lemma_retained(s: Seq<(PublicKey, RecipientView)>, vmap: Seq<(PublicKey, ValidatorConfigView)>)
    ensures
        forall|i: int| 0 <= i < retained(s, vmap).len() ==> exists|j: int| 0 <= j < s.len() && #[trigger] retained(s, vmap)[i].0 == #[trigger] s[j].0,
        sorted(s) ==> sorted(retained(s, vmap)),
    decreases s.len(),
{
    if s.len() > 0 {
        let t = s.drop_last();
        lemma_retained(t, vmap);
        let prev = retained(t, vmap);
        let r = retained(s, vmap);
        assert forall|i: int| 0 <= i < r.len() implies exists|j: int| 0 <= j < s.len() && #[trigger] r[i].0 == #[trigger] s[j].0 by {
            if i < prev.len() {
                assert(r[i] == prev[i]);
                let j = choose|j: int| 0 <= j < t.len() && #[trigger] prev[i].0 == #[trigger] t[j].0;
                assert(s[j] == t[j]);
            } else {
                assert(r[i].0 == s[s.len() - 1].0);
            }
        }
        if sorted(s) {
            assert(sorted(t)) by {
                assert forall|a: int, b: int| 0 <= a < b < t.len() implies key_lt(#[trigger] t[a].0, #[trigger] t[b].0) by {
                    assert(t[a] == s[a] && t[b] == s[b]);
                }
            }
            assert forall|a: int, b: int| 0 <= a < b < r.len() implies key_lt(#[trigger] r[a].0, #[trigger] r[b].0) by {
                if b < prev.len() {
                    assert(r[a] == prev[a] && r[b] == prev[b]);
                } else {
                    assert(r[a] == prev[a]);
                    let j = choose|j: int| 0 <= j < t.len() && #[trigger] prev[a].0 == #[trigger] t[j].0;
                    assert(s[j] == t[j]);
                    assert(r[b].0 == s[s.len() - 1].0);
                }
            }
        }
    }
}

/// Adding keeps recipients sorted.
proof fn lemma_added_sorted(s: Seq<(PublicKey, RecipientView)>, vmap: Seq<(PublicKey, ValidatorConfigView)>)
    requires
        sorted(s),
    ensures
        sorted(added(s, vmap)),
    decreases vmap.len(),
{
    if vmap.len() > 0 {
        lemma_added_sorted(s, vmap.drop_last());
        let prev = added(s, vmap.drop_last());
        let (pk, v) = vmap.last();
        lemma_map_insert(prev, pk, recipient_of(v));
    }
}

/// A recipient configured with a non-zero stake is retained with its configured settings.
proof fn lemma_retained_get(
    s: Seq<(PublicKey, RecipientView)>,
    vmap: Seq<(PublicKey, ValidatorConfigView)>,
    pk: PublicKey,
    r: RecipientView,
    v: ValidatorConfigView,
)
    requires
        sorted(s),
        map_get(s, pk) == Some(r),
        map_get(vmap, pk) == Some(v),
        v.bonded_amount.value() != 0,
    ensures
        map_get(retained(s, vmap), pk) == Some(modified(r, v)),
    decreases s.len(),
{
    let n = s.len() - 1;
    let t = s.drop_last();
    lemma_map_get(s, pk);
    let i = choose|i: int| 0 <= i < s.len() && #[trigger] s[i].0 == pk;
    assert(r == s[i].1);
    lemma_retained(s, vmap);
    let rs = retained(s, vmap);
    assert(sorted(t)) by {
        assert forall|a: int, b: int| 0 <= a < b < t.len() implies key_lt(#[trigger] t[a].0, #[trigger] t[b].0) by {
            assert(t[a] == s[a] && t[b] == s[b]);
        }
    }
    lemma_retained(t, vmap);
    let prev = retained(t, vmap);
    if i == n {
        assert(rs == prev.push((pk, modified(r, v))));
        lemma_map_get(rs, pk);
        assert(rs[rs.len() - 1].0 == pk);
    } else {
        assert(t[i] == s[i]);
        lemma_map_get(t, pk);
        lemma_retained_get(t, vmap, pk, r, v);
        lemma_map_get(prev, pk);
        let j = choose|j: int| 0 <= j < prev.len() && #[trigger] prev[j].0 == pk;
        assert(rs[j] == prev[j]);
        lemma_map_get(rs, pk);
    }
}

/// Adding the configured validators keeps the recipients already there.
proof fn lemma_added_keeps(
    s: Seq<(PublicKey, RecipientView)>,
    vmap: Seq<(PublicKey, ValidatorConfigView)>,
    pk: PublicKey,
    x: RecipientView,
)
    requires
        sorted(s),
        map_get(s, pk) == Some(x),
    ensures
        map_get(added(s, vmap), pk) == Some(x),
    decreases vmap.len(),
{
    if vmap.len() > 0 {
        lemma_added_keeps(s, vmap.drop_last(), pk, x);
        lemma_added_sorted(s, vmap.drop_last());
        let prev = added(s, vmap.drop_last());
        let (k, v) = vmap.last();
        if map_get(prev, k) is None && v.bonded_amount.value() != 0 {
            lemma_map_insert(prev, k, recipient_of(v));
        }
    }
}

/// A recipient whose validator is not configured is retained as it was.
proof fn lemma_retained_unconfigured(
    s: Seq<(PublicKey, RecipientView)>,
    vmap: Seq<(PublicKey, ValidatorConfigView)>,
    pk: PublicKey,
    r: RecipientView,
)
    requires
        sorted(s),
        map_get(s, pk) == Some(r),
        map_get(vmap, pk) is None,
    ensures
        map_get(retained(s, vmap), pk) == Some(r),
    decreases s.len(),
{
    let n = s.len() - 1;
    let t = s.drop_last();
    lemma_map_get(s, pk);
    let i = choose|i: int| 0 <= i < s.len() && #[trigger] s[i].0 == pk;
    assert(r == s[i].1);
    lemma_retained(s, vmap);
    let rs = retained(s, vmap);
    assert(sorted(t)) by {
        assert forall|a: int, b: int| 0 <= a < b < t.len() implies key_lt(#[trigger] t[a].0, #[trigger] t[b].0) by {
            assert(t[a] == s[a] && t[b] == s[b]);
        }
    }
    lemma_retained(t, vmap);
    let prev = retained(t, vmap);
    if i == n {
        assert(rs == prev.push((pk, r)));
        lemma_map_get(rs, pk);
        assert(rs[rs.len() - 1].0 == pk);
    } else {
        assert(t[i] == s[i]);
        lemma_map_get(t, pk);
        lemma_retained_unconfigured(t, vmap, pk, r);
        lemma_map_get(prev, pk);
        let j = choose|j: int| 0 <= j < prev.len() && #[trigger] prev[j].0 == pk;
        assert(rs[j] == prev[j]);
        lemma_map_get(rs, pk);
    }
}

/// A validator configured only with a zero stake is not among the retained recipients.
proof fn lemma_retained_zero(
    s: Seq<(PublicKey, RecipientView)>,
    vmap: Seq<(PublicKey, ValidatorConfigView)>,
    pk: PublicKey,
    v: ValidatorConfigView,
)
    requires
        sorted(s),
        map_get(vmap, pk) == Some(v),
        v.bonded_amount.value() == 0,
    ensures
        map_get(retained(s, vmap), pk) is None,
    decreases s.len(),
{
    lemma_retained(s, vmap);
    if s.len() > 0 {
        let t = s.drop_last();
        assert(sorted(t)) by {
            assert forall|a: int, b: int| 0 <= a < b < t.len() implies key_lt(#[trigger] t[a].0, #[trigger] t[b].0) by {
                assert(t[a] == s[a] && t[b] == s[b]);
            }
        }
        lemma_retained_zero(t, vmap, pk, v);
        lemma_retained(t, vmap);
        let prev = retained(t, vmap);
        let rs = retained(s, vmap);
        lemma_map_get(prev, pk);
        lemma_map_get(rs, pk);
        if map_get(rs, pk) is Some {
            let j = choose|j: int| 0 <= j < rs.len() && #[trigger] rs[j].0 == pk;
            if j < prev.len() {
                assert(rs[j] == prev[j]);
            } else {
                assert(rs[j].0 == s.last().0);
            }
        }
    }
}

/// Adding the configured validators does not add one that is configured only with a zero
/// stake.
proof fn lemma_added_zero(
    s: Seq<(PublicKey, RecipientView)>,
    vmap: Seq<(PublicKey, ValidatorConfigView)>,
    pk: PublicKey,
)
    requires
        sorted(s),
        map_get(s, pk) is None,
        forall|i: int| 0 <= i < vmap.len() && (#[trigger] vmap[i]).0 == pk ==> vmap[i].1.bonded_amount.value() == 0,
    ensures
        map_get(added(s, vmap), pk) is None,
    decreases vmap.len(),
{
    if vmap.len() > 0 {
        let t = vmap.drop_last();
        assert forall|i: int| 0 <= i < t.len() && (#[trigger] t[i]).0 == pk implies t[i].1.bonded_amount.value() == 0 by {
            assert(t[i] == vmap[i]);
        }
        lemma_added_zero(s, t, pk);
        lemma_added_sorted(s, t);
        let prev = added(s, t);
        let (k, v) = vmap.last();
        if map_get(prev, k) is None && v.bonded_amount.value() != 0 {
            assert(vmap[vmap.len() - 1].0 != pk);
            lemma_map_insert(prev, k, recipient_of(v));
        }
    }
}

/// A recipient of an era whose validator is not configured stays as it was; a validator
/// configured with a zero stake is not among the updated recipients.
pub proof fn law_unconfigured_or_zero(
    s: Seq<(PublicKey, RecipientView)>,
    vmap: Seq<(PublicKey, ValidatorConfigView)>,
    pk: PublicKey,
)
    requires
        sorted(s),
        sorted(vmap),
    ensures
        map_get(vmap, pk) is None && map_get(s, pk) is Some ==> map_get(updated_era(s, vmap), pk)
            == map_get(s, pk),
        map_get(vmap, pk) matches Some(v) && v.bonded_amount.value() == 0 ==> map_get(
            updated_era(s, vmap),
            pk,
        ) is None,
{
    lemma_retained(s, vmap);
    if map_get(vmap, pk) is None && map_get(s, pk) is Some {
        lemma_retained_unconfigured(s, vmap, pk, map_get(s, pk)->0);
        lemma_added_keeps(retained(s, vmap), vmap, pk, map_get(s, pk)->0);
    }
    if map_get(vmap, pk) is Some && map_get(vmap, pk)->0.bonded_amount.value() == 0 {
        let v = map_get(vmap, pk)->0;
        lemma_retained_zero(s, vmap, pk, v);
        lemma_map_get(vmap, pk);
        lemma_added_zero(retained(s, vmap), vmap, pk);
    }
}

/// A recipient of an era whose validator is configured with a non-zero stake stays, with the
/// configured stake, and with the configured rate, delegators and reservations where they
/// are configured; where they are not, with its own.
pub proof fn law_configured_recipient(
    s: Seq<(PublicKey, RecipientView)>,
    vmap: Seq<(PublicKey, ValidatorConfigView)>,
    pk: PublicKey,
    r: RecipientView,
    v: ValidatorConfigView,
)
    requires
        sorted(s),
        map_get(s, pk) == Some(r),
        map_get(vmap, pk) == Some(v),
        v.bonded_amount.value() != 0,
    ensures
        map_get(updated_era(s, vmap), pk) is Some,
        ({
            let n = map_get(updated_era(s, vmap), pk)->0;
            &&& n.stake == v.bonded_amount
            &&& v.delegation_rate matches Some(x) ==> n.delegation_rate == x
            &&& v.delegation_rate is None ==> n.delegation_rate == r.delegation_rate
            &&& v.delegators is None ==> n.delegator_stake == r.delegator_stake
            &&& v.reservations is None ==> n.reservation_delegation_rates == r.reservation_delegation_rates
        }),
{
    lemma_retained_get(s, vmap, pk, r, v);
    lemma_retained(s, vmap);
    lemma_added_keeps(retained(s, vmap), vmap, pk, modified(r, v));
}

/// The recipient the update makes of `r` under settings `v`.
fn modified_recipient(r: &SeigniorageRecipientV2, v: &super::config::ValidatorConfig) -> (out: SeigniorageRecipientV2)
    ensures
        out@ == modified(r@, v@),
{
    let rate: u8 = match v.delegation_rate {
        Some(x) => x,
        None => r.delegation_rate,
    };
    let delegators = match v.delegators_map() {
        Some(m) => m,
        None => copy_entries(&r.delegator_stake),
    };
    let reservations = match v.reservations_map() {
        Some(m) => m,
        None => copy_entries(&r.reservation_delegation_rates),
    };
    SeigniorageRecipientV2::new(v.bonded_amount, rate, delegators, reservations)
}

/// The settings of the account at an index.
pub open spec fn account_validator(accounts: Seq<AccountConfig>) -> spec_fn(usize) -> ValidatorConfigView {
    |i: usize| accounts_view(accounts)[i as int].validator.unwrap()
}

/// The validator settings of the accounts, by key, as indices of the accounts that hold
/// them.
fn validators_index(accounts: &[AccountConfig]) -> (r: Vec<(PublicKey, usize)>)
    ensures
        sorted(r@),
        map_view(r@, account_validator(accounts@)) == validators_entries(accounts_view(accounts@)),
        forall|j: int| 0 <= j < r@.len() ==> (#[trigger] r@[j]).1 < accounts@.len()
            && accounts@[r@[j].1 as int].validator is Some,
{
    let ghost f = account_validator(accounts@);
    let mut index: Vec<(PublicKey, usize)> = Vec::new();
    let mut i: usize = 0;
    while i < accounts.len()
        invariant
            i <= accounts@.len(),
            f == account_validator(accounts@),
            sorted(index@),
            map_view(index@, f) == validators_entries(accounts_view(accounts@.take(i as int))),
            forall|j: int| 0 <= j < index@.len() ==> (#[trigger] index@[j]).1 < accounts@.len()
                && accounts@[index@[j].1 as int].validator is Some,
        decreases accounts@.len() - i,
    {
        proof {
            assert(accounts_view(accounts@.take(i + 1)).drop_last() =~= accounts_view(accounts@.take(i as int)));
            assert(accounts_view(accounts@.take(i + 1)).last() == accounts@[i as int]@);
        }
        if accounts[i].validator.is_some() {
            let ghost prev = index@;
            proof {
                lemma_insert_view(index@, f, accounts@[i as int].public_key, i);
                lemma_map_insert(index@, accounts@[i as int].public_key, i);
                assert(f(i) == accounts@[i as int]@.validator.unwrap());
            }
            map_insert_exec(&mut index, accounts[i].public_key, i);
            proof {
                assert forall|j: int| 0 <= j < index@.len() implies (#[trigger] index@[j]).1 < accounts@.len()
                    && accounts@[index@[j].1 as int].validator is Some by {
                    lemma_map_insert_values(prev, accounts@[i as int].public_key, i, j);
                }
            }
        }
        i = i + 1;
    }
    proof {
        assert(accounts@.take(i as int) =~= accounts@);
    }
    index
}

/// Every value after an insert is the inserted one or one that was there.
proof fn lemma_map_insert_values<K: OrderKey, V>(s: Seq<(K, V)>, k: K, v: V, j: int)
    requires
        0 <= j < map_insert(s, k, v).len(),
    ensures
        map_insert(s, k, v)[j].1 == v || exists|m: int| 0 <= m < s.len() && #[trigger] s[m].1 == map_insert(s, k, v)[j].1,
{
    crate::ordered::lemma_lower_bound(s, k);
    let i = crate::ordered::lower_bound(s, k);
    let r = map_insert(s, k, v);
    if i < s.len() && s[i].0 == k {
        if j != i {
            assert(r[j] == s[j]);
        }
    } else {
        if j < i {
            assert(r[j] == s[j]);
        } else if j > i {
            assert(r[j] == s[j - 1]);
        }
    }
}

/// An era's recipients, updated by the validator settings the index points to.
fn update_era(
    recipients: &Vec<(PublicKey, SeigniorageRecipientV2)>,
    index: &Vec<(PublicKey, usize)>,
    accounts: &[AccountConfig],
) -> (r: Vec<(PublicKey, SeigniorageRecipientV2)>)
    requires
        sorted(recipients@),
        sorted(index@),
        forall|j: int| 0 <= j < index@.len() ==> (#[trigger] index@[j]).1 < accounts@.len()
            && accounts@[index@[j].1 as int].validator is Some,
    ensures
        sorted(r@),
        era_view(r@) == updated_era(era_view(recipients@), map_view(index@, account_validator(accounts@))),
{
    let ghost f = account_validator(accounts@);
    let ghost vmap = map_view(index@, f);
    let ghost g = |r: SeigniorageRecipientV2| r@;
    proof {
        lemma_sorted_view(recipients@, g);
        lemma_retained(era_view(recipients@), vmap);
    }
    let mut kept: Vec<(PublicKey, SeigniorageRecipientV2)> = Vec::new();
    let mut j: usize = 0;
    while j < recipients.len()
        invariant
            j <= recipients@.len(),
            f == account_validator(accounts@),
            vmap == map_view(index@, f),
            g == (|r: SeigniorageRecipientV2| r@),
            sorted(index@),
            sorted(era_view(recipients@)),
            forall|m: int| 0 <= m < index@.len() ==> (#[trigger] index@[m]).1 < accounts@.len()
                && accounts@[index@[m].1 as int].validator is Some,
            era_view(kept@) == retained(era_view(recipients@.take(j as int)), vmap),
        decreases recipients@.len() - j,
    {
        let pk = recipients[j].0;
        let ghost prev = kept@;
        proof {
            assert(era_view(recipients@.take(j + 1)).drop_last() =~= era_view(recipients@.take(j as int)));
            assert(era_view(recipients@.take(j + 1)).last() == (pk, recipients@[j as int].1@));
            lemma_get_view(index@, f, pk);
            lemma_map_get(index@, pk);
        }
        match map_get_exec(index, &pk) {
            Some(ai) => {
                let ai: usize = *ai;
                proof {
                    let m = choose|m: int| 0 <= m < index@.len() && #[trigger] index@[m].0 == pk;
                    assert(index@[m].1 == ai);
                }
                match &accounts[ai].validator {
                    Some(v) => {
                        if !v.bonded_amount.is_zero() {
                            let updated = modified_recipient(&recipients[j].1, v);
                            kept.push((pk, updated));
                            proof {
                                assert(era_view(kept@) =~= era_view(prev).push((pk, updated@)));
                            }
                        }
                    },
                    None => {},
                }
            },
            None => {
                let same = recipients[j].1.duplicate();
                kept.push((pk, same));
                proof {
                    assert(era_view(kept@) =~= era_view(prev).push((pk, same@)));
                }
            },
        }
        j = j + 1;
    }
    proof {
        assert(recipients@.take(j as int) =~= recipients@);
        lemma_retained(era_view(recipients@), vmap);
        lemma_sorted_view(kept@, g);
    }
    let ghost base = retained(era_view(recipients@), vmap);
    let mut m: usize = 0;
    while m < index.len()
        invariant
            m <= index@.len(),
            f == account_validator(accounts@),
            vmap == map_view(index@, f),
            g == (|r: SeigniorageRecipientV2| r@),
            sorted(kept@),
            sorted(base),
            forall|q: int| 0 <= q < index@.len() ==> (#[trigger] index@[q]).1 < accounts@.len()
                && accounts@[index@[q].1 as int].validator is Some,
            era_view(kept@) == added(base, map_view(index@.take(m as int), f)),
        decreases index@.len() - m,
    {
        let (pk, ai) = index[m];
        proof {
            assert(map_view(index@.take(m + 1), f).drop_last() =~= map_view(index@.take(m as int), f));
            assert(map_view(index@.take(m + 1), f).last() == (pk, f(ai)));
            lemma_get_view(kept@, g, pk);
            lemma_sorted_view(kept@, g);
        }
        let present = map_get_exec(&kept, &pk).is_some();
        if !present {
            match &accounts[ai].validator {
                Some(v) => {
                    if !v.bonded_amount.is_zero() {
                        let recipient = new_recipient(v);
                        proof {
                            lemma_insert_view(kept@, g, pk, recipient);
                            lemma_map_insert(kept@, pk, recipient);
                        }
                        map_insert_exec(&mut kept, pk, recipient);
                    }
                },
                None => {},
            }
        }
        m = m + 1;
    }
    proof {
        assert(index@.take(m as int) =~= index@);
    }
    kept
}

/// A snapshot in which every era's recipients are updated by the accounts' validator
/// settings: validators configured with a zero stake are dropped, configured ones take the
/// configured stake and, where configured, rate, delegators and reservations; configured
/// validators an era lacks are added unless their stake is zero; the rest stay.
pub fn gen_snapshot_from_old(
    snapshot: SeigniorageRecipientsSnapshotV2,
    accounts: &[AccountConfig],
) -> (r: SeigniorageRecipientsSnapshotV2)
    requires
        forall|i: int| 0 <= i < snapshot@.len() ==> sorted(#[trigger] snapshot@[i].1@),
    ensures
        snapshot_view(r@) == snapshot_view(snapshot@).map_values(
            |e: (EraId, Seq<(PublicKey, RecipientView)>)| (
                e.0,
                updated_era(e.1, validators_entries(accounts_view(accounts@))),
            ),
        ),
{
    let validators_map = validators_index(accounts);
    let ghost vmap = validators_entries(accounts_view(accounts@));
    let ghost upd = |e: (EraId, Seq<(PublicKey, RecipientView)>)| (e.0, updated_era(e.1, vmap));
    let mut out: SeigniorageRecipientsSnapshotV2 = Vec::new();
    let mut i: usize = 0;
    while i < snapshot.len()
        invariant
            i <= snapshot@.len(),
            forall|k: int| 0 <= k < snapshot@.len() ==> sorted(#[trigger] snapshot@[k].1@),
            sorted(validators_map@),
            map_view(validators_map@, account_validator(accounts@)) == vmap,
            forall|j: int| 0 <= j < validators_map@.len() ==> (#[trigger] validators_map@[j]).1 < accounts@.len()
                && accounts@[validators_map@[j].1 as int].validator is Some,
            upd == (|e: (EraId, Seq<(PublicKey, RecipientView)>)| (e.0, updated_era(e.1, vmap))),
            snapshot_view(out@) == snapshot_view(snapshot@.take(i as int)).map_values(upd),
        decreases snapshot@.len() - i,
    {
        let era_id = snapshot[i].0;
        let updated = update_era(&snapshot[i].1, &validators_map, accounts);
        let ghost prev = out@;
        out.push((era_id, updated));
        proof {
            assert(snapshot_view(out@) =~= snapshot_view(prev).push((era_id, era_view(updated@))));
            assert(snapshot_view(snapshot@.take(i + 1)) =~= snapshot_view(snapshot@.take(i as int)).push(
                (era_id, era_view(snapshot@[i as int].1@)),
            ));
            assert(snapshot_view(snapshot@.take(i + 1)).map_values(upd) =~= snapshot_view(snapshot@.take(i as int)).map_values(upd).push(
                upd((era_id, era_view(snapshot@[i as int].1@))),
            ));
        }
        i = i + 1;
    }
    proof {
        assert(snapshot@.take(i as int) =~= snapshot@);
    }
    out
}

/// The smallest total stake among the recipients.
pub open spec fn min_total_stake(s: Seq<(PublicKey, RecipientView)>) -> nat
    decreases s.len(),
{
    if s.len() <= 1 {
        total_stake_value(s[0].1)
    } else {
        let m = min_total_stake(s.drop_last());
        let t = total_stake_value(s.last().1);
        if t < m {
            t
        } else {
            m
        }
    }
}

/// The sum of the stakes of the delegations.
pub open spec fn delegations_sum(ds: Seq<DelegatorBid>) -> nat
    decreases ds.len(),
{
    if ds.len() == 0 {
        0
    } else {
        delegations_sum(ds.drop_last()) + ds.last().staked_amount.value()
    }
}

/// The validator of a unified or validator bid, when its bid outbids the new validators: it
/// is not one of them, and, for a unified bid, its total staked amount (zero if that does
/// not fit in 512 bits) exceeds the smallest total stake among them; for a validator bid, its
/// stake, or else its stake with its delegations' (zero if that sum does not fit in 512
/// bits), does.
pub open spec fn large_bid_of(
    b: BidKind,
    recs: Seq<(PublicKey, RecipientView)>,
    min: nat,
    bids: Seq<BidKind>,
) -> Option<PublicKey> {
    match b {
        BidKind::Unified(ub) => {
            let total = if ub.spec_total_stake() < u512_bound() {
                ub.spec_total_stake()
            } else {
                0
            };
            if total > min && map_get(recs, ub.validator_public_key) is None {
                Some(ub.validator_public_key)
            } else {
                None
            }
        },
        BidKind::Validator(vb) => {
            let pk = vb.validator_public_key;
            if map_get(recs, pk) is Some {
                None
            } else if vb.staked_amount.value() > min {
                Some(pk)
            } else {
                let t = vb.staked_amount.value() + delegations_sum(validator_delegators(bids, pk));
                let total = if t < u512_bound() {
                    t
                } else {
                    0
                };
                if total > min {
                    Some(pk)
                } else {
                    None
                }
            }
        },
        _ => None,
    }
}

/// The validators, among the records of `prefix`, whose bids outbid the new validators.
pub open spec fn large_bids(
    prefix: Seq<BidKind>,
    recs: Seq<(PublicKey, RecipientView)>,
    min: nat,
    bids: Seq<BidKind>,
) -> Seq<(PublicKey, ())>
    decreases prefix.len(),
{
    if prefix.len() == 0 {
        Seq::empty()
    } else {
        let prev = large_bids(prefix.drop_last(), recs, min, bids);
        match large_bid_of(prefix.last(), recs, min, bids) {
            Some(pk) => map_insert(prev, pk, ()),
            None => prev,
        }
    }
}

/// The record is a bid of validator `pk` that exceeds `min`: a unified bid by its total
/// staked amount (fitting in 512 bits), or a validator bid by its own stake, or by its stake
/// with its delegations' (fitting in 512 bits).
pub open spec fn bid_exceeds(b: BidKind, pk: PublicKey, min: nat, bids: Seq<BidKind>) -> bool {
    match b {
        BidKind::Unified(ub) => ub.validator_public_key == pk && ub.spec_total_stake() < u512_bound()
            && ub.spec_total_stake() > min,
        BidKind::Validator(vb) => vb.validator_public_key == pk && (vb.staked_amount.value() > min
            || (vb.staked_amount.value() + delegations_sum(validator_delegators(bids, pk))
            < u512_bound() && vb.staked_amount.value() + delegations_sum(
            validator_delegators(bids, pk),
        ) > min)),
        _ => false,
    }
}

/// Every validator a record of the prefix names as outbidding is among the large bids, and
/// the large bids are keyed in order.
proof fn lemma_large_bids_complete(
    prefix: Seq<BidKind>,
    recs: Seq<(PublicKey, RecipientView)>,
    min: nat,
    bids: Seq<BidKind>,
)
    ensures
        sorted(large_bids(prefix, recs, min, bids)),
        forall|i: int|
            0 <= i < prefix.len() && large_bid_of(#[trigger] prefix[i], recs, min, bids) is Some
                ==> map_get(
                large_bids(prefix, recs, min, bids),
                large_bid_of(prefix[i], recs, min, bids)->0,
            ) is Some,
    decreases prefix.len(),
{
    let r = large_bids(prefix, recs, min, bids);
    if prefix.len() > 0 {
        let t = prefix.drop_last();
        lemma_large_bids_complete(t, recs, min, bids);
        let prev = large_bids(t, recs, min, bids);
        if let Some(pk) = large_bid_of(prefix.last(), recs, min, bids) {
            lemma_map_insert(prev, pk, ());
        }
        assert forall|i: int|
            0 <= i < prefix.len() && large_bid_of(#[trigger] prefix[i], recs, min, bids) is Some
                implies map_get(r, large_bid_of(prefix[i], recs, min, bids)->0) is Some by {
            if i < t.len() {
                assert(prefix[i] == t[i]);
            }
        }
    }
}

/// The large bids are keyed in order; no new validator is among them; each is a validator
/// with a record whose bid exceeds `min`; and every key that is not a new validator and has a unified bid whose total staked amount fits in 512 bits and
/// exceeds `min`, or a validator bid whose own stake exceeds `min`, or whose stake with its
/// delegations' fits in 512 bits and exceeds `min`, is among them.
pub proof fn law_large_bids(
    prefix: Seq<BidKind>,
    recs: Seq<(PublicKey, RecipientView)>,
    min: nat,
    bids: Seq<BidKind>,
)
    ensures
        sorted(large_bids(prefix, recs, min, bids)),
        forall|i: int|
            0 <= i < large_bids(prefix, recs, min, bids).len() ==> map_get(
                recs,
                (#[trigger] large_bids(prefix, recs, min, bids)[i]).0,
            ) is None,
        forall|i: int|
            0 <= i < large_bids(prefix, recs, min, bids).len() ==> exists|j: int|
                0 <= j < prefix.len() && bid_exceeds(
                    #[trigger] prefix[j],
                    (#[trigger] large_bids(prefix, recs, min, bids)[i]).0,
                    min,
                    bids,
                ),
        forall|i: int|
            0 <= i < prefix.len() && (#[trigger] prefix[i] matches BidKind::Unified(ub) && ub.spec_total_stake()
                < u512_bound() && ub.spec_total_stake() > min && map_get(recs, ub.validator_public_key)
                is None) ==> map_get(
                large_bids(prefix, recs, min, bids),
                prefix[i]->Unified_0.validator_public_key,
            ) is Some,
        forall|i: int|
            0 <= i < prefix.len() && (#[trigger] prefix[i] matches BidKind::Validator(vb) && map_get(
                recs,
                vb.validator_public_key,
            ) is None && (vb.staked_amount.value() > min || (vb.staked_amount.value()
                + delegations_sum(validator_delegators(bids, vb.validator_public_key)) < u512_bound()
                && vb.staked_amount.value() + delegations_sum(
                validator_delegators(bids, vb.validator_public_key),
            ) > min))) ==> map_get(
                large_bids(prefix, recs, min, bids),
                prefix[i]->Validator_0.validator_public_key,
            ) is Some,
    decreases prefix.len(),
{
    lemma_large_bids_complete(prefix, recs, min, bids);
    let r = large_bids(prefix, recs, min, bids);
    if prefix.len() > 0 {
        let t = prefix.drop_last();
        law_large_bids(t, recs, min, bids);
        let prev = large_bids(t, recs, min, bids);
        if let Some(pk) = large_bid_of(prefix.last(), recs, min, bids) {
            assert(map_get(recs, pk) is None);
            lemma_map_insert(prev, pk, ());
            assert forall|i: int| 0 <= i < r.len() implies map_get(recs, (#[trigger] r[i]).0) is None by {
                let k = r[i].0;
                lemma_map_get(r, k);
                if k != pk {
                    lemma_map_get(prev, k);
                    let j = choose|j: int| 0 <= j < prev.len() && #[trigger] prev[j].0 == k;
                    assert(map_get(recs, prev[j].0) is None);
                }
            }
            assert forall|i: int| 0 <= i < r.len() implies exists|j: int|
                0 <= j < prefix.len() && bid_exceeds(#[trigger] prefix[j], (#[trigger] r[i]).0, min, bids) by {
                let k = r[i].0;
                lemma_map_get(r, k);
                if k != pk {
                    lemma_map_get(prev, k);
                    let q = choose|q: int| 0 <= q < prev.len() && #[trigger] prev[q].0 == k;
                    let j = choose|j: int| 0 <= j < t.len() && bid_exceeds(#[trigger] t[j], prev[q].0, min, bids);
                    assert(prefix[j] == t[j]);
                } else {
                    assert(bid_exceeds(prefix[prefix.len() - 1], k, min, bids));
                }
            }
        } else {
            assert forall|i: int| 0 <= i < r.len() implies exists|j: int|
                0 <= j < prefix.len() && bid_exceeds(#[trigger] prefix[j], (#[trigger] r[i]).0, min, bids) by {
                let j = choose|j: int| 0 <= j < t.len() && bid_exceeds(#[trigger] t[j], prev[i].0, min, bids);
                assert(prefix[j] == t[j]);
            }
        }
    }
    assert forall|i: int|
        0 <= i < prefix.len() && (#[trigger] prefix[i] matches BidKind::Unified(ub)
            && ub.spec_total_stake() < u512_bound() && ub.spec_total_stake() > min
            && map_get(recs, ub.validator_public_key) is None) implies map_get(
        r,
        prefix[i]->Unified_0.validator_public_key,
    ) is Some by {
        assert(large_bid_of(prefix[i], recs, min, bids) is Some);
    }
    assert forall|i: int|
        0 <= i < prefix.len() && (#[trigger] prefix[i] matches BidKind::Validator(vb) && map_get(
            recs,
            vb.validator_public_key,
        ) is None && (vb.staked_amount.value() > min || (vb.staked_amount.value()
            + delegations_sum(validator_delegators(bids, vb.validator_public_key)) < u512_bound()
            && vb.staked_amount.value() + delegations_sum(
            validator_delegators(bids, vb.validator_public_key),
        ) > min))) implies map_get(r, prefix[i]->Validator_0.validator_public_key) is Some by {
        assert(large_bid_of(prefix[i], recs, min, bids) is Some);
    }
}

/// Finding the large bids would stop: a validator's delegations, examined because its own
/// stake does not outbid the new validators, sum to more than 512 bits.
pub open spec fn large_bids_overflow(
    bids: Seq<BidKind>,
    recs: Seq<(PublicKey, RecipientView)>,
    min: nat,
) -> bool {
    exists|i: int|
        0 <= i < bids.len() && match #[trigger] bids[i] {
            BidKind::Validator(vb) => {
                &&& map_get(recs, vb.validator_public_key) is None
                &&& vb.staked_amount.value() <= min
                &&& delegations_sum(validator_delegators(bids, vb.validator_public_key)) >= u512_bound()
            },
            _ => false,
        }
}

/// A prefix of delegations sums to no more than the whole.
proof fn lemma_delegations_sum_step(ds: Seq<DelegatorBid>, i: int)
    requires
        0 <= i < ds.len(),
    ensures
        delegations_sum(ds.take(i + 1)) == delegations_sum(ds.take(i)) + ds[i].staked_amount.value(),
{
    assert(ds.take(i + 1).drop_last() =~= ds.take(i));
}

proof fn lemma_delegations_sum_mono(ds: Seq<DelegatorBid>, i: int)
    requires
        0 <= i <= ds.len(),
    ensures
        delegations_sum(ds.take(i)) <= delegations_sum(ds),
    decreases ds.len() - i,
{
    if i < ds.len() {
        lemma_delegations_sum_step(ds, i);
        lemma_delegations_sum_mono(ds, i + 1);
    } else {
        assert(ds.take(i) =~= ds);
    }
}

/// The sum of the stakes of the delegations to validator `pk`.
fn delegated_stake(bids: &Vec<BidKind>, pk: &PublicKey) -> (r: U512)
    requires
        delegations_sum(validator_delegators(bids@, *pk)) < u512_bound(),
    ensures
        r.value() == delegations_sum(validator_delegators(bids@, *pk)),
{
    let delegators = match delegators_by_validator_public_key(bids, pk) {
        Some(d) => d,
        None => {
            let r = U512::zero();
            return r;
        },
    };
    let ghost ds = delegators@;
    let mut sum = U512::zero();
    let mut i: usize = 0;
    while i < delegators.len()
        invariant
            i <= ds.len(),
            ds == delegators@,
            ds == validator_delegators(bids@, *pk),
            delegations_sum(ds) < u512_bound(),
            sum.value() == delegations_sum(ds.take(i as int)),
        decreases ds.len() - i,
    {
        proof {
            lemma_delegations_sum_step(ds, i as int);
            lemma_delegations_sum_mono(ds, i + 1);
        }
        sum = match sum.checked_add(&delegators[i].staked_amount) {
            Some(t) => t,
            None => {
                proof {
                    assert(false);
                }
                sum
            },
        };
        i = i + 1;
    }
    proof {
        assert(ds.take(i as int) =~= ds);
    }
    sum
}

/// The smallest total stake among an era's recipients.
fn min_stake(recipients: &Vec<(PublicKey, SeigniorageRecipientV2)>) -> (r: U512)
    requires
        recipients@.len() > 0,
        forall|j: int| 0 <= j < recipients@.len() ==> total_stake_value(#[trigger] recipients@[j].1@) < u512_bound(),
    ensures
        r.value() == min_total_stake(era_view(recipients@)),
{
    let ghost v = era_view(recipients@);
    let mut min_bid = match recipients[0].1.total_stake() {
        Some(t) => t,
        None => {
            proof {
                assert(false);
            }
            U512::zero()
        },
    };
    proof {
        assert(v.take(1).len() == 1);
        assert(v.take(1)[0] == v[0]);
    }
    let mut j: usize = 1;
    while j < recipients.len()
        invariant
            1 <= j <= recipients@.len(),
            v == era_view(recipients@),
            forall|q: int| 0 <= q < recipients@.len() ==> total_stake_value(#[trigger] recipients@[q].1@) < u512_bound(),
            min_bid.value() == min_total_stake(v.take(j as int)),
        decreases recipients@.len() - j,
    {
        let t = match recipients[j].1.total_stake() {
            Some(t) => t,
            None => {
                proof {
                    assert(false);
                }
                U512::zero()
            },
        };
        proof {
            assert(v.take(j + 1).drop_last() =~= v.take(j as int));
            assert(v.take(j + 1).last() == v[j as int]);
        }
        if t.lt(&min_bid) {
            min_bid = t;
        }
        j = j + 1;
    }
    proof {
        assert(v.take(j as int) =~= v);
    }
    min_bid
}

/// The validators whose bids are larger than the smallest total stake among the new
/// validators (those of the snapshot's first era), and who are not new validators: by a
/// unified bid's total staked amount, or by a validator bid's own stake, or its stake with its
/// delegations'.
pub fn find_large_bids<T: StateTracker>(state: &mut T, snapshot: &SeigniorageRecipientsSnapshotV2) -> (r: Vec<(PublicKey, ())>)
    requires
        snapshot@.len() > 0,
        snapshot@[0].1@.len() > 0,
        sorted(snapshot@[0].1@),
        forall|j: int| 0 <= j < snapshot@[0].1@.len() ==> total_stake_value(#[trigger] snapshot@[0].1@[j].1@) < u512_bound(),
        !large_bids_overflow(
            old(state).spec_bids(),
            era_view(snapshot@[0].1@),
            min_total_stake(era_view(snapshot@[0].1@)),
        ),
    ensures
        sorted(r@),
        ({
            let recs = era_view(snapshot@[0].1@);
            let bids = old(state).spec_bids();
            r@ == large_bids(bids, recs, min_total_stake(recs), bids)
        }),
        final(state).spec_effects().len() > old(state).spec_effects().len(),
        final(state).spec_effects().take(old(state).spec_effects().len() as int) == old(state).spec_effects(),
        forall|i: int| old(state).spec_effects().len() <= i < final(state).spec_effects().len() ==>
            #[trigger] final(state).spec_effects()[i] == TrackerEffect::ReadBids(old(state).spec_bids()),
        final(state).spec_bids() == old(state).spec_bids(),
{
    let recipients = &snapshot[0].1;
    let ghost recs = era_view(recipients@);
    let min_bid = min_stake(recipients);
    let ghost min = min_bid.value();
    let ghost n = state.spec_effects().len() as int;
    let ghost b0 = state.spec_bids();
    let bids = state.get_bids();
    proof {
        crate::ordered::lemma_sorted_view(recipients@, |r: SeigniorageRecipientV2| r@);
    }
    let mut ret: Vec<(PublicKey, ())> = Vec::new();
    let mut i: usize = 0;
    while i < bids.len()
        invariant
            i <= bids@.len(),
            bids@ == b0,
            recs == era_view(recipients@),
            sorted(recipients@),
            sorted(ret@),
            min_bid.value() == min,
            min == min_total_stake(recs),
            !large_bids_overflow(b0, recs, min),
            ret@ == large_bids(b0.take(i as int), recs, min, b0),
            state.spec_bids() == b0,
            state.spec_effects().len() > n,
            state.spec_effects().take(n) == old(state).spec_effects(),
            n == old(state).spec_effects().len(),
            forall|q: int| n <= q < state.spec_effects().len() ==> #[trigger] state.spec_effects()[q]
                == TrackerEffect::ReadBids(b0),
        decreases bids@.len() - i,
    {
        proof {
            assert(b0.take(i + 1).drop_last() =~= b0.take(i as int));
            assert(b0.take(i + 1).last() == b0[i as int]);
        }
        match &bids[i] {
            BidKind::Validator(validator_bid) => {
                let pk = validator_bid.validator_public_key;
                proof {
                    crate::ordered::lemma_get_view(recipients@, |r: SeigniorageRecipientV2| r@, pk);
                }
                if map_get_exec(recipients, &pk).is_some() {
                } else if min_bid.lt(&validator_bid.staked_amount) {
                    proof {
                        lemma_map_insert(ret@, pk, ());
                    }
                    map_insert_exec(&mut ret, pk, ());
                } else {
                    let ghost before = state.spec_effects();
                    let all = state.get_bids();
                    proof {
                        assert(state.spec_effects().take(n) =~= before.take(n));
                        if delegations_sum(validator_delegators(b0, pk)) >= u512_bound() {
                            assert(large_bids_overflow(b0, recs, min));
                        }
                    }
                    let delegator_stake = delegated_stake(&all, &pk);
                    let total = match validator_bid.staked_amount.checked_add(&delegator_stake) {
                        Some(t) => t,
                        None => U512::zero(),
                    };
                    if min_bid.lt(&total) {
                        proof {
                            lemma_map_insert(ret@, pk, ());
                        }
                        map_insert_exec(&mut ret, pk, ());
                    }
                }
            },
            BidKind::Unified(bid) => {
                let pk = bid.validator_public_key;
                proof {
                    crate::ordered::lemma_get_view(recipients@, |r: SeigniorageRecipientV2| r@, pk);
                }
                let total = match bid.total_staked_amount() {
                    Some(t) => t,
                    None => U512::zero(),
                };
                if min_bid.lt(&total) && map_get_exec(recipients, &pk).is_none() {
                    proof {
                        lemma_map_insert(ret@, pk, ());
                    }
                    map_insert_exec(&mut ret, pk, ());
                }
            },
            _ => {},
        }
        i = i + 1;
    }
    proof {
        assert(b0.take(i as int) =~= b0);
    }
    ret
}

/// The record is the unified or validator bid of validator `pk`.
pub open spec fn is_validator_record(b: BidKind, pk: PublicKey) -> bool {
    (b is Unified || b is Validator) && spec_validator_public_key(b) == pk
}

/// The index of the first unified or validator bid of `pk` from index `i` on.
pub open spec fn first_record_from(bids: Seq<BidKind>, pk: PublicKey, i: int) -> Option<int>
    decreases bids.len() - i,
{
    if i < 0 || i >= bids.len() {
        None
    } else if is_validator_record(bids[i], pk) {
        Some(i)
    } else {
        first_record_from(bids, pk, i + 1)
    }
}

/// The first record found from `i` on is a unified or validator bid of `pk`, at an index of
/// the records.
proof fn lemma_first_record(bids: Seq<BidKind>, pk: PublicKey, i: int)
    ensures
        first_record_from(bids, pk, i) matches Some(j) ==> 0 <= j < bids.len() && is_validator_record(bids[j], pk),
    decreases bids.len() - i,
{
    if 0 <= i < bids.len() && !is_validator_record(bids[i], pk) {
        lemma_first_record(bids, pk, i + 1);
    }
}

/// Finds the first unified or validator bid of `pk`.
fn find_validator_record(bids: &Vec<BidKind>, pk: &PublicKey) -> (r: Option<usize>)
    ensures
        match r {
            Some(i) => first_record_from(bids@, *pk, 0) == Some(i as int),
            None => first_record_from(bids@, *pk, 0) is None,
        },
{
    let mut i: usize = 0;
    while i < bids.len()
        invariant
            i <= bids@.len(),
            first_record_from(bids@, *pk, 0) == first_record_from(bids@, *pk, i as int),
        decreases bids@.len() - i,
    {
        if (bids[i].is_unified() || bids[i].is_validator()) && same_public_key(&bids[i].validator_public_key(), pk) {
            return Some(i);
        }
        i = i + 1;
    }
    None
}

/// The reservations' rates by delegator; a later reservation for a delegator replaces an
/// earlier one.
pub open spec fn reservation_rates(rs: Seq<Reservation>) -> Seq<(DelegatorKind, DelegationRate)>
    decreases rs.len(),
{
    if rs.len() == 0 {
        Seq::empty()
    } else {
        map_insert(reservation_rates(rs.drop_last()), rs.last().delegator_kind, rs.last().delegation_rate)
    }
}

/// The delegations' stakes by delegator; a later delegation of a delegator replaces an
/// earlier one.
pub open spec fn delegation_stakes(ds: Seq<DelegatorBid>) -> Seq<(DelegatorKind, U512)>
    decreases ds.len(),
{
    if ds.len() == 0 {
        Seq::empty()
    } else {
        map_insert(delegation_stakes(ds.drop_last()), ds.last().delegator_kind, ds.last().staked_amount)
    }
}

/// A unified bid's delegators' stakes, by delegator.
pub open spec fn unified_stakes(ds: Seq<(PublicKey, U512)>) -> Seq<(DelegatorKind, U512)>
    decreases ds.len(),
{
    if ds.len() == 0 {
        Seq::empty()
    } else {
        map_insert(unified_stakes(ds.drop_last()), DelegatorKind::PublicKey(ds.last().0), ds.last().1)
    }
}

/// What the update keeps of an existing validator record: its bonding purse, its recipient
/// view (stake, rate, delegations and reservations), and its delegation limits and reserved
/// slots.
pub struct ExistingTerms {
    pub purse: URef,
    pub recipient: RecipientView,
    pub min: u64,
    pub max: u64,
    pub slots: u32,
}

/// The terms of the existing validator record `b` of `pk` among `bids`: a unified bid's own
/// delegators, with no limits and no reserved slots; a validator bid's delegation records,
/// with its limits and slots.
pub open spec fn existing_terms(b: BidKind, bids: Seq<BidKind>, pk: PublicKey) -> ExistingTerms {
    let res = reservation_rates(validator_reservations(bids, pk));
    match b {
        BidKind::Unified(bid) => ExistingTerms {
            purse: bid.bonding_purse,
            recipient: RecipientView {
                stake: bid.staked_amount,
                delegation_rate: bid.delegation_rate,
                delegator_stake: unified_stakes(bid.delegators@),
                reservation_delegation_rates: res,
            },
            min: 0,
            max: u64::MAX,
            slots: 0,
        },
        BidKind::Validator(vb) => ExistingTerms {
            purse: vb.bonding_purse,
            recipient: RecipientView {
                stake: vb.staked_amount,
                delegation_rate: vb.delegation_rate,
                delegator_stake: delegation_stakes(validator_delegators(bids, pk)),
                reservation_delegation_rates: res,
            },
            min: vb.minimum_delegation_amount,
            max: vb.maximum_delegation_amount,
            slots: vb.reserved_slots,
        },
        _ => arbitrary(),
    }
}

/// The delegation `d` as the recipient `up` sets it: its new stake, or none when `up` has
/// no stake for its delegator.
pub open spec fn updated_delegation(d: DelegatorBid, up: RecipientView, pk: PublicKey) -> DelegatorBid {
    match map_get(up.delegator_stake, d.delegator_kind) {
        None => empty_delegator_bid(d.validator_public_key, d.delegator_kind, d.bonding_purse),
        Some(s) => unlocked_delegator_bid(d.delegator_kind, s, d.bonding_purse, pk),
    }
}

/// The writes that set each delegation to what `up` says, where its stake changes.
pub open spec fn delegator_updates(ds: Seq<DelegatorBid>, up: RecipientView, pk: PublicKey, slash: bool) -> Seq<TrackerEffect>
    decreases ds.len(),
{
    if ds.len() == 0 {
        Seq::empty()
    } else {
        let prev = delegator_updates(ds.drop_last(), up, pk, slash);
        let nd = updated_delegation(ds.last(), up, pk);
        if ds.last().staked_amount == nd.staked_amount {
            prev
        } else {
            prev.push(TrackerEffect::SetBid(BidKind::Delegator(Box::new(nd)), slash))
        }
    }
}

/// The entries whose delegator `existing` lacks.
pub open spec fn new_entries(s: Seq<(DelegatorKind, U512)>, existing: Seq<(DelegatorKind, U512)>) -> Seq<(DelegatorKind, U512)>
    decreases s.len(),
{
    if s.len() == 0 {
        Seq::empty()
    } else {
        let prev = new_entries(s.drop_last(), existing);
        if map_get(existing, s.last().0) is None {
            prev.push(s.last())
        } else {
            prev
        }
    }
}

/// The effects create, for each entry in order, a purse with its stake and then a delegation
/// of that stake from that purse to `pk`.
pub open spec fn purse_pairs(e: Seq<TrackerEffect>, entries: Seq<(DelegatorKind, U512)>, pk: PublicKey, slash: bool) -> bool {
    &&& e.len() == 2 * entries.len()
    &&& forall|j: int|
        0 <= j < entries.len() ==> match e[2 * j] {
            TrackerEffect::CreatePurse(a, p) => a == (#[trigger] entries[j]).1 && e[2 * j + 1]
                == TrackerEffect::SetBid(
                BidKind::Delegator(Box::new(unlocked_delegator_bid(entries[j].0, entries[j].1, p, pk))),
                slash,
            ),
            _ => false,
        }
}

/// Sets each delegation to what `updated` says, where its stake changes.
fn update_delegators<T: StateTracker>(
    state: &mut T,
    delegators: &Vec<DelegatorBid>,
    updated: &SeigniorageRecipientV2,
    pk: &PublicKey,
    slash: bool,
)
    requires
        sorted(updated.delegator_stake@),
    ensures
        final(state).spec_effects() == old(state).spec_effects() + delegator_updates(delegators@, updated@, *pk, slash),
{
    let mut i: usize = 0;
    while i < delegators.len()
        invariant
            i <= delegators@.len(),
            sorted(updated.delegator_stake@),
            state.spec_effects() == old(state).spec_effects() + delegator_updates(delegators@.take(i as int), updated@, *pk, slash),
        decreases delegators@.len() - i,
    {
        let delegator = delegators[i];
        proof {
            assert(delegators@.take(i + 1).drop_last() =~= delegators@.take(i as int));
            assert(delegators@.take(i + 1).last() == delegator);
        }
        let delegator_bid = match map_get_exec(&updated.delegator_stake, &delegator.delegator_kind) {
            None => DelegatorBid::empty(delegator.validator_public_key, delegator.delegator_kind, delegator.bonding_purse),
            Some(stake) => DelegatorBid::unlocked(delegator.delegator_kind, *stake, delegator.bonding_purse, *pk),
        };
        if !delegator.staked_amount.same(&delegator_bid.staked_amount) {
            let ghost before = state.spec_effects();
            state.set_bid(BidKind::Delegator(Box::new(delegator_bid)), slash);
            proof {
                assert(state.spec_effects() =~= old(state).spec_effects() + delegator_updates(delegators@.take(i + 1), updated@, *pk, slash));
            }
        }
        i = i + 1;
    }
    proof {
        assert(delegators@.take(i as int) =~= delegators@);
    }
}

/// For each entry whose delegator `existing` lacks, in order: creates a purse with its stake
/// and writes a delegation of that stake from that purse to `pk`.
fn add_delegators<T: StateTracker>(
    state: &mut T,
    entries: &Vec<(DelegatorKind, U512)>,
    existing: &Vec<(DelegatorKind, U512)>,
    pk: &PublicKey,
    slash: bool,
)
    requires
        sorted(existing@),
    ensures
        final(state).spec_effects().len() >= old(state).spec_effects().len(),
        final(state).spec_effects().take(old(state).spec_effects().len() as int) == old(state).spec_effects(),
        purse_pairs(
            final(state).spec_effects().skip(old(state).spec_effects().len() as int),
            new_entries(entries@, existing@),
            *pk,
            slash,
        ),
        final(state).spec_bids() == old(state).spec_bids() || new_entries(entries@, existing@).len() > 0,
{
    let ghost n = old(state).spec_effects().len() as int;
    let mut i: usize = 0;
    while i < entries.len()
        invariant
            i <= entries@.len(),
            n == old(state).spec_effects().len(),
            sorted(existing@),
            state.spec_effects().len() >= n,
            state.spec_effects().take(n) == old(state).spec_effects(),
            purse_pairs(state.spec_effects().skip(n), new_entries(entries@.take(i as int), existing@), *pk, slash),
            state.spec_bids() == old(state).spec_bids() || new_entries(entries@.take(i as int), existing@).len() > 0,
        decreases entries@.len() - i,
    {
        let (kind, stake) = entries[i];
        proof {
            assert(entries@.take(i + 1).drop_last() =~= entries@.take(i as int));
            assert(entries@.take(i + 1).last() == (kind, stake));
        }
        if map_get_exec(existing, &kind).is_none() {
            let ghost e0 = state.spec_effects();
            let ghost prev = new_entries(entries@.take(i as int), existing@);
            let delegator_bonding_purse = state.create_purse(stake);
            let delegator_bid = DelegatorBid::unlocked(kind, stake, delegator_bonding_purse, *pk);
            state.set_bid(BidKind::Delegator(Box::new(delegator_bid)), slash);
            proof {
                let cur = new_entries(entries@.take(i + 1), existing@);
                assert(cur == prev.push((kind, stake)));
                let e = state.spec_effects();
                assert(e.take(n) =~= old(state).spec_effects());
                let seg = e.skip(n);
                assert(seg =~= e0.skip(n).push(TrackerEffect::CreatePurse(stake, delegator_bonding_purse)).push(
                    TrackerEffect::SetBid(BidKind::Delegator(Box::new(delegator_bid)), slash),
                ));
                assert forall|j: int| 0 <= j < cur.len() implies match seg[2 * j] {
                    TrackerEffect::CreatePurse(a, p) => a == (#[trigger] cur[j]).1 && seg[2 * j + 1]
                        == TrackerEffect::SetBid(
                        BidKind::Delegator(Box::new(unlocked_delegator_bid(cur[j].0, cur[j].1, p, *pk))),
                        slash,
                    ),
                    _ => false,
                } by {
                    if j < prev.len() {
                        assert(cur[j] == prev[j]);
                        assert(seg[2 * j] == e0.skip(n)[2 * j]);
                        assert(seg[2 * j + 1] == e0.skip(n)[2 * j + 1]);
                    }
                }
            }
        }
        i = i + 1;
    }
    proof {
        assert(entries@.take(i as int) =~= entries@);
    }
}

/// The reservations' rates by delegator.
fn reservation_rates_of(rs: &Vec<Reservation>) -> (r: Vec<(DelegatorKind, DelegationRate)>)
    ensures
        r@ == reservation_rates(rs@),
        sorted(r@),
{
    let mut map: Vec<(DelegatorKind, DelegationRate)> = Vec::new();
    let mut i: usize = 0;
    while i < rs.len()
        invariant
            i <= rs@.len(),
            map@ == reservation_rates(rs@.take(i as int)),
            sorted(map@),
        decreases rs@.len() - i,
    {
        proof {
            assert(rs@.take(i + 1).drop_last() =~= rs@.take(i as int));
            lemma_map_insert(map@, rs@[i as int].delegator_kind, rs@[i as int].delegation_rate);
        }
        map_insert_exec(&mut map, rs[i].delegator_kind, rs[i].delegation_rate);
        i = i + 1;
    }
    proof {
        assert(rs@.take(i as int) =~= rs@);
    }
    map
}

/// The delegations' stakes by delegator.
fn delegation_stakes_of(ds: &Vec<DelegatorBid>) -> (r: Vec<(DelegatorKind, U512)>)
    ensures
        r@ == delegation_stakes(ds@),
        sorted(r@),
{
    let mut map: Vec<(DelegatorKind, U512)> = Vec::new();
    let mut i: usize = 0;
    while i < ds.len()
        invariant
            i <= ds@.len(),
            map@ == delegation_stakes(ds@.take(i as int)),
            sorted(map@),
        decreases ds@.len() - i,
    {
        proof {
            assert(ds@.take(i + 1).drop_last() =~= ds@.take(i as int));
            lemma_map_insert(map@, ds@[i as int].delegator_kind, ds@[i as int].staked_amount);
        }
        map_insert_exec(&mut map, ds[i].delegator_kind, ds[i].staked_amount);
        i = i + 1;
    }
    proof {
        assert(ds@.take(i as int) =~= ds@);
    }
    map
}

/// A unified bid's delegators' stakes by delegator.
fn unified_stakes_of(ds: &Vec<(PublicKey, U512)>) -> (r: Vec<(DelegatorKind, U512)>)
    ensures
        r@ == unified_stakes(ds@),
        sorted(r@),
{
    let mut map: Vec<(DelegatorKind, U512)> = Vec::new();
    let mut i: usize = 0;
    while i < ds.len()
        invariant
            i <= ds@.len(),
            map@ == unified_stakes(ds@.take(i as int)),
            sorted(map@),
        decreases ds@.len() - i,
    {
        proof {
            assert(ds@.take(i + 1).drop_last() =~= ds@.take(i as int));
            lemma_map_insert(map@, DelegatorKind::PublicKey(ds@[i as int].0), ds@[i as int].1);
        }
        map_insert_exec(&mut map, DelegatorKind::PublicKey(ds[i].0), ds[i].1);
        i = i + 1;
    }
    proof {
        assert(ds@.take(i as int) =~= ds@);
    }
    map
}

/// The terms of an existing unified or validator record of `pk`.
fn existing_terms_of(b: &BidKind, bids: &Vec<BidKind>, pk: &PublicKey) -> (r: (URef, SeigniorageRecipientV2, u64, u64, u32))
    requires
        b is Unified || b is Validator,
    ensures
        ({
            let t = existing_terms(*b, bids@, *pk);
            &&& r.0 == t.purse
            &&& r.1@ == t.recipient
            &&& r.2 == t.min
            &&& r.3 == t.max
            &&& r.4 == t.slots
        }),
        sorted(r.1.delegator_stake@),
{
    let reservations = match reservations_by_validator_public_key(bids, pk) {
        None => Vec::new(),
        Some(reservations) => reservations,
    };
    let reservation_delegation_rates = reservation_rates_of(&reservations);
    match b {
        BidKind::Unified(bid) => {
            let delegator_stake = unified_stakes_of(&bid.delegators);
            (
                bid.bonding_purse,
                SeigniorageRecipientV2::new(bid.staked_amount, bid.delegation_rate, delegator_stake, reservation_delegation_rates),
                0,
                u64::MAX,
                0,
            )
        },
        BidKind::Validator(validator_bid) => {
            let delegators = match delegators_by_validator_public_key(bids, pk) {
                None => Vec::new(),
                Some(delegators) => delegators,
            };
            let delegator_stake = delegation_stakes_of(&delegators);
            (
                validator_bid.bonding_purse,
                SeigniorageRecipientV2::new(
                    validator_bid.staked_amount,
                    validator_bid.delegation_rate,
                    delegator_stake,
                    reservation_delegation_rates,
                ),
                validator_bid.minimum_delegation_amount,
                validator_bid.maximum_delegation_amount,
                validator_bid.reserved_slots,
            )
        },
        _ => {
            proof {
                assert(false);
            }
            (URef::new([0u8; 32], crate::keys::AccessRights(0)), SeigniorageRecipientV2::new(U512::zero(), 0, Vec::new(), Vec::new()), 0, 0, 0)
        },
    }
}

/// Entries with no existing entry to skip are all new.
proof fn lemma_new_entries_empty(s: Seq<(DelegatorKind, U512)>)
    ensures
        new_entries(s, Seq::empty()) == s,
    decreases s.len(),
{
    if s.len() > 0 {
        lemma_new_entries_empty(s.drop_last());
        assert(s =~= s.drop_last().push(s.last()));
    }
}

/// The writes that make validator `pk`'s bids match `updated`, after the bids `bids` were
/// read, in the effects `rest`.
pub open spec fn bid_update_effects(
    rest: Seq<TrackerEffect>,
    bids: Seq<BidKind>,
    pk: PublicKey,
    up: RecipientView,
    slash: bool,
) -> bool {
    match first_record_from(bids, pk, 0) {
        Some(i) => {
            let t = existing_terms(bids[i], bids, pk);
            if t.recipient == up {
                rest.len() == 0
            } else {
                let u = delegator_updates(validator_delegators(bids, pk), up, pk, slash);
                let fresh = new_entries(up.delegator_stake, t.recipient.delegator_stake);
                &&& rest.len() >= u.len()
                &&& rest.take(u.len() as int) == u
                &&& if t.recipient.stake == up.stake {
                    purse_pairs(rest.skip(u.len() as int), fresh, pk, slash)
                } else {
                    &&& rest.len() > u.len()
                    &&& purse_pairs(rest.skip(u.len() as int).drop_last(), fresh, pk, slash)
                    &&& rest.last() == TrackerEffect::SetBid(
                        BidKind::Validator(
                            Box::new(
                                unlocked_validator_bid(
                                    pk,
                                    t.purse,
                                    up.stake,
                                    up.delegation_rate,
                                    t.min,
                                    t.max,
                                    t.slots,
                                ),
                            ),
                        ),
                        slash,
                    )
                }
            }
        },
        None => if up.stake.value() == 0 {
            rest.len() == 0
        } else {
            let k = up.delegator_stake.len() as int;
            &&& rest.len() == 2 * k + 2
            &&& purse_pairs(rest.take(2 * k), up.delegator_stake, pk, slash)
            &&& match rest[2 * k] {
                TrackerEffect::CreatePurse(a, p) => a == up.stake && rest[2 * k + 1] == TrackerEffect::SetBid(
                    BidKind::Validator(
                        Box::new(unlocked_validator_bid(pk, p, up.stake, up.delegation_rate, 0, u64::MAX, 0)),
                    ),
                    slash,
                ),
                _ => false,
            }
        },
    }
}

/// Makes validator `validator_public_key`'s bids match `updated_recipient`. With an existing
/// unified or validator bid that differs: each delegation of the validator takes its new
/// stake (none when the recipient lacks the delegator) where it changes; each delegator new
/// to the validator gets a new purse with its stake and a delegation; and the validator bid
/// takes the new stake and rate, keeping its purse, limits and slots, when the stake changed.
/// With none: unless the stake is zero, each delegator gets a new purse and a delegation, and
/// the validator a new purse and a bid with no limits.
pub fn create_or_update_bid<T: StateTracker>(
    state: &mut T,
    validator_public_key: &PublicKey,
    updated_recipient: &SeigniorageRecipientV2,
    slash_instead_of_unbonding: bool,
)
    requires
        sorted(updated_recipient.delegator_stake@),
    ensures
        ({
            let bids = old(state).spec_bids();
            let n = old(state).spec_effects().len() as int;
            let e = final(state).spec_effects();
            &&& e.len() > n
            &&& e.take(n) == old(state).spec_effects()
            &&& e[n] == TrackerEffect::ReadBids(bids)
            &&& bid_update_effects(
                e.skip(n + 1),
                bids,
                *validator_public_key,
                updated_recipient@,
                slash_instead_of_unbonding,
            )
        }),
{
    let ghost n = old(state).spec_effects().len() as int;
    let existing_bids = state.get_bids();
    let ghost n1 = n + 1;
    let ghost bids = existing_bids@;
    let ghost pk = *validator_public_key;
    let ghost up = updated_recipient@;
    let ghost slash = slash_instead_of_unbonding;
    match find_validator_record(&existing_bids, validator_public_key) {
        Some(idx) => {
            proof {
                lemma_first_record(bids, pk, 0);
            }
            let (bonding_purse, existing_recipient, min_delegation_amount, max_delegation_amount, reserved_slots) =
                existing_terms_of(&existing_bids[idx], &existing_bids, validator_public_key);
            if existing_recipient.same(updated_recipient) {
                proof {
                    assert(state.spec_effects().skip(n1).len() == 0);
                }
                return;
            }
            let delegators = match delegators_by_validator_public_key(&existing_bids, validator_public_key) {
                Some(delegators) => delegators,
                None => Vec::new(),
            };
            proof {
                assert(delegators@ == validator_delegators(bids, pk));
            }
            let ghost e1 = state.spec_effects();
            update_delegators(state, &delegators, updated_recipient, validator_public_key, slash_instead_of_unbonding);
            let ghost e2 = state.spec_effects();
            add_delegators(
                state,
                &updated_recipient.delegator_stake,
                &existing_recipient.delegator_stake,
                validator_public_key,
                slash_instead_of_unbonding,
            );
            let ghost e3 = state.spec_effects();
            let ghost u = delegator_updates(validator_delegators(bids, pk), up, pk, slash);
            proof {
                assert(e1.len() == n1);
                assert(e2 == e1 + u);
                assert(e3.take(e2.len() as int) == e2);
                assert(e3.take(n) =~= old(state).spec_effects());
                assert(e3[n] == e3.take(e2.len() as int)[n]);
                assert(e2[n] == e1[n]);
                assert(e3[n] == e1[n]);
                assert(e3.skip(n1).take(u.len() as int) =~= e2.skip(n1));
                assert(e2.skip(n1) =~= u);
                assert(e3.skip(n1).take(u.len() as int) =~= u);
                assert(e3.skip(n1).skip(u.len() as int) =~= e3.skip(e2.len() as int));
            }
            if existing_recipient.stake.same(&updated_recipient.stake) {
                return;
            }
            let updated_bid = ValidatorBid::unlocked(
                *validator_public_key,
                bonding_purse,
                updated_recipient.stake,
                updated_recipient.delegation_rate,
                min_delegation_amount,
                max_delegation_amount,
                reserved_slots,
            );
            state.set_bid(BidKind::Validator(Box::new(updated_bid)), slash_instead_of_unbonding);
            proof {
                let e4 = state.spec_effects();
                assert(e4.take(n) =~= old(state).spec_effects());
                assert(e4[n] == e1[n]);
                assert(e4.skip(n1).take(u.len() as int) =~= u);
                assert(e4.skip(n1).skip(u.len() as int).drop_last() =~= e3.skip(e2.len() as int));
            }
        },
        None => {
            if updated_recipient.stake.is_zero() {
                proof {
                    assert(state.spec_effects().skip(n1).len() == 0);
                }
                return;
            }
            let ghost e1 = state.spec_effects();
            let no_existing: Vec<(DelegatorKind, U512)> = Vec::new();
            add_delegators(
                state,
                &updated_recipient.delegator_stake,
                &no_existing,
                validator_public_key,
                slash_instead_of_unbonding,
            );
            proof {
                lemma_new_entries_empty(up.delegator_stake);
            }
            let ghost e2 = state.spec_effects();
            proof {
                assert(e2.take(n) =~= e2.take(e1.len() as int).take(n));
                assert(e1.take(n) == old(state).spec_effects());
                assert(e2[n] == e2.take(e1.len() as int)[n]);
            }
            let stake = updated_recipient.stake;
            let bonding_purse = state.create_purse(stake);
            let validator_bid = ValidatorBid::unlocked(
                *validator_public_key,
                bonding_purse,
                stake,
                updated_recipient.delegation_rate,
                0,
                u64::MAX,
                0,
            );
            state.set_bid(BidKind::Validator(Box::new(validator_bid)), slash_instead_of_unbonding);
            proof {
                let e4 = state.spec_effects();
                let k = up.delegator_stake.len() as int;
                assert(e4.take(n) =~= old(state).spec_effects());
                assert(e4[n] == e1[n]);
                assert(e2.skip(n1).len() == 2 * k);
                assert(e4.skip(n1).take(2 * k) =~= e2.skip(n1));
                assert(e4.skip(n1)[2 * k] == TrackerEffect::CreatePurse(stake, bonding_purse));
            }
        },
    }
}

/// The validators added to and removed from the validator set.
#[derive(Debug)]
pub struct ValidatorsDiff {
    /// The validators added, ordered by key.
    pub added: Vec<(PublicKey, ())>,
    /// The validators removed, ordered by key.
    pub removed: Vec<(PublicKey, ())>,
}

/// `nb` is the record `b` reset for validator `pk`: with no stake (a unified or validator
/// bid also with a zero rate, no vesting, active; a validator bid keeping its delegation
/// limits; a unified bid with no delegators), keeping its purse, delegator, era or rate, and an
/// unbond its validator, unbonder and eras.
pub open spec fn is_reset_of(b: BidKind, nb: BidKind, pk: PublicKey) -> bool {
    match b {
        BidKind::Unified(bid) => match nb {
            BidKind::Unified(n) => {
                &&& n.validator_public_key == pk
                &&& n.bonding_purse == bid.bonding_purse
                &&& n.staked_amount == zero_u512()
                &&& n.delegation_rate == 0
                &&& n.vesting_schedule is None
                &&& !n.inactive
                &&& n.delegators@.len() == 0
            },
            _ => false,
        },
        BidKind::Validator(vb) => nb == BidKind::Validator(
            Box::new(
                ValidatorBid {
                    validator_public_key: pk,
                    bonding_purse: vb.bonding_purse,
                    staked_amount: zero_u512(),
                    delegation_rate: 0,
                    vesting_schedule: None,
                    inactive: false,
                    minimum_delegation_amount: vb.minimum_delegation_amount,
                    maximum_delegation_amount: vb.maximum_delegation_amount,
                    reserved_slots: 0,
                },
            ),
        ),
        BidKind::Delegator(d) => nb == BidKind::Delegator(
            Box::new(empty_delegator_bid(pk, d.delegator_kind, d.bonding_purse)),
        ),
        BidKind::Credit(c) => nb == BidKind::Credit(
            Box::new(ValidatorCredit { validator_public_key: pk, era_id: c.era_id, amount: zero_u512() }),
        ),
        BidKind::Reservation(r) => nb == BidKind::Reservation(
            Box::new(
                Reservation {
                    delegator_kind: r.delegator_kind,
                    validator_public_key: pk,
                    delegation_rate: r.delegation_rate,
                },
            ),
        ),
        BidKind::Unbond(u) => nb matches BidKind::Unbond(nu) && nu.validator_public_key
            == u.validator_public_key && nu.unbond_kind == u.unbond_kind && nu.eras@ == u.eras@,
        BidKind::Bridge(_) => false,
    }
}

/// The record `b` reset for validator `pk`; bridges are left alone.
fn reset_bid(b: &BidKind, pk: &PublicKey) -> (r: Option<BidKind>)
    ensures
        r is None <==> b is Bridge,
        r matches Some(nb) ==> is_reset_of(*b, nb, *pk),
{
    match b {
        BidKind::Unified(bid) => {
            let nb = Bid::empty(*pk, bid.bonding_purse);
            proof {
                U512::lemma_value_injective(nb.staked_amount, zero_u512());
            }
            Some(BidKind::Unified(Box::new(nb)))
        },
        BidKind::Validator(validator_bid) => {
            let mut new_bid = ValidatorBid::empty(*pk, validator_bid.bonding_purse);
            new_bid.set_delegation_amount_boundaries(
                validator_bid.minimum_delegation_amount,
                validator_bid.maximum_delegation_amount,
            );
            proof {
                U512::lemma_value_injective(new_bid.staked_amount, zero_u512());
            }
            Some(BidKind::Validator(Box::new(new_bid)))
        },
        BidKind::Delegator(delegator_bid) => Some(
            BidKind::Delegator(
                Box::new(DelegatorBid::empty(*pk, delegator_bid.delegator_kind, delegator_bid.bonding_purse)),
            ),
        ),
        BidKind::Bridge(_) => None,
        BidKind::Credit(credit) => {
            let c = ValidatorCredit::empty(*pk, credit.era_id);
            proof {
                U512::lemma_value_injective(c.amount, zero_u512());
            }
            Some(BidKind::Credit(Box::new(c)))
        },
        BidKind::Reservation(reservation_bid) => Some(
            BidKind::Reservation(
                Box::new(Reservation::new(*pk, reservation_bid.delegator_kind, reservation_bid.delegation_rate)),
            ),
        ),
        BidKind::Unbond(unbond) => Some(
            BidKind::Unbond(Box::new(Unbond::new(unbond.validator_public_key, unbond.unbond_kind, unbond.eras.clone()))),
        ),
    }
}

/// The records of validator `pk`, other than bridges, with `pk`, in their order.
pub open spec fn reset_targets(bids: Seq<BidKind>, pk: PublicKey) -> Seq<(BidKind, PublicKey)>
    decreases bids.len(),
{
    if bids.len() == 0 {
        Seq::empty()
    } else {
        let prev = reset_targets(bids.drop_last(), pk);
        let b = bids.last();
        if spec_validator_public_key(b) == pk && !(b is Bridge) {
            prev.push((b, pk))
        } else {
            prev
        }
    }
}

/// The records to reset for each validator in `pks`, in order.
pub open spec fn unbid_targets(pks: Seq<(PublicKey, ())>, bids: Seq<BidKind>) -> Seq<(BidKind, PublicKey)>
    decreases pks.len(),
{
    if pks.len() == 0 {
        Seq::empty()
    } else {
        unbid_targets(pks.drop_last(), bids) + reset_targets(bids, pks.last().0)
    }
}

/// The record an effect writes and its flag.
pub open spec fn written_bid(e: TrackerEffect) -> (BidKind, bool) {
    match e {
        TrackerEffect::SetBid(b, s) => (b, s),
        _ => arbitrary(),
    }
}

/// The effect resets `target`.
pub open spec fn resets(e: TrackerEffect, target: (BidKind, PublicKey), slash: bool) -> bool {
    &&& e is SetBid
    &&& written_bid(e).1 == slash
    &&& is_reset_of(target.0, written_bid(e).0, target.1)
}

/// The effects reset each target in order.
pub open spec fn unbid_log(e: Seq<TrackerEffect>, targets: Seq<(BidKind, PublicKey)>, slash: bool) -> bool {
    &&& e.len() == targets.len()
    &&& forall|k: int| 0 <= k < targets.len() ==> resets(e[k], #[trigger] targets[k], slash)
}

/// The effects are, for each recipient in order, a read of the bids and the writes that
/// make the recipient's validator's bids match it.
pub open spec fn update_log(e: Seq<TrackerEffect>, recs: Seq<(PublicKey, RecipientView)>, slash: bool) -> bool
    decreases recs.len(),
{
    if recs.len() == 0 {
        e.len() == 0
    } else {
        exists|m: int|
            0 <= m <= e.len() && update_log(#[trigger] e.take(m), recs.drop_last(), slash) && e.skip(m).len() >= 1
                && e.skip(m)[0] is ReadBids && bid_update_effects(
                e.skip(m).skip(1),
                read_bids(e.skip(m)[0]),
                recs.last().0,
                recs.last().1,
                slash,
            )
    }
}

/// The keys of both sets.
pub open spec fn key_union(a: Seq<(PublicKey, ())>, b: Seq<(PublicKey, ())>) -> Seq<(PublicKey, ())>
    decreases b.len(),
{
    if b.len() == 0 {
        a
    } else {
        map_insert(key_union(a, b.drop_last()), b.last().0, ())
    }
}

/// The keys of both sets.
fn union_keys(a: &Vec<(PublicKey, ())>, b: &Vec<(PublicKey, ())>) -> (r: Vec<(PublicKey, ())>)
    requires
        sorted(a@),
    ensures
        r@ == key_union(a@, b@),
        sorted(r@),
{
    let mut out = copy_entries(a);
    let mut i: usize = 0;
    while i < b.len()
        invariant
            i <= b@.len(),
            out@ == key_union(a@, b@.take(i as int)),
            sorted(out@),
        decreases b@.len() - i,
    {
        proof {
            assert(b@.take(i + 1).drop_last() =~= b@.take(i as int));
            lemma_map_insert(out@, b@[i as int].0, ());
        }
        map_insert_exec(&mut out, b[i].0, ());
        i = i + 1;
    }
    proof {
        assert(b@.take(i as int) =~= b@);
    }
    out
}

/// Resets the records of validator `pk`, other than bridges, in order.
fn reset_validator_bids<T: StateTracker>(state: &mut T, bids: &Vec<BidKind>, pk: &PublicKey, slash: bool)
    ensures
        final(state).spec_effects().len() >= old(state).spec_effects().len(),
        final(state).spec_effects().take(old(state).spec_effects().len() as int) == old(state).spec_effects(),
        unbid_log(
            final(state).spec_effects().skip(old(state).spec_effects().len() as int),
            reset_targets(bids@, *pk),
            slash,
        ),
{
    let ghost n = old(state).spec_effects().len() as int;
    let mut k: usize = 0;
    while k < bids.len()
        invariant
            k <= bids@.len(),
            n == old(state).spec_effects().len(),
            state.spec_effects().len() >= n,
            state.spec_effects().take(n) == old(state).spec_effects(),
            unbid_log(state.spec_effects().skip(n), reset_targets(bids@.take(k as int), *pk), slash),
        decreases bids@.len() - k,
    {
        proof {
            assert(bids@.take(k + 1).drop_last() =~= bids@.take(k as int));
            assert(bids@.take(k + 1).last() == bids@[k as int]);
        }
        if same_public_key(&bids[k].validator_public_key(), pk) {
            match reset_bid(&bids[k], pk) {
                Some(nb) => {
                    let ghost e0 = state.spec_effects();
                    let ghost prev = reset_targets(bids@.take(k as int), *pk);
                    state.set_bid(nb, slash);
                    proof {
                        let cur = reset_targets(bids@.take(k + 1), *pk);
                        assert(cur == prev.push((bids@[k as int], *pk)));
                        let e = state.spec_effects();
                        assert(e.take(n) =~= old(state).spec_effects());
                        assert(e.skip(n) =~= e0.skip(n).push(TrackerEffect::SetBid(nb, slash)));
                        assert forall|q: int| 0 <= q < cur.len() implies resets(e.skip(n)[q], #[trigger] cur[q], slash) by {
                            if q < prev.len() {
                                assert(cur[q] == prev[q]);
                                assert(e.skip(n)[q] == e0.skip(n)[q]);
                            } else {
                                assert(cur[q] == (bids@[k as int], *pk));
                                assert(e.skip(n)[q] == TrackerEffect::SetBid(nb, slash));
                            }
                        }
                        assert(e.skip(n).len() == cur.len());
                        assert(unbid_log(e.skip(n), cur, slash));
                    }
                },
                None => {
                    proof {
                        assert(reset_targets(bids@.take(k + 1), *pk) == reset_targets(bids@.take(k as int), *pk));
                    }
                },
            }
        } else {
            proof {
                assert(reset_targets(bids@.take(k + 1), *pk) == reset_targets(bids@.take(k as int), *pk));
            }
        }
        k = k + 1;
    }
    proof {
        assert(bids@.take(k as int) =~= bids@);
    }
}

/// The bids an effect read.
pub open spec fn read_bids(e: TrackerEffect) -> Seq<BidKind> {
    match e {
        TrackerEffect::ReadBids(b) => b,
        _ => arbitrary(),
    }
}

/// A log that extends another agrees with it on every entry the other has.
proof fn lemma_extends<A>(a: Seq<A>, b: Seq<A>)
    requires
        b.len() >= a.len(),
        b.take(a.len() as int) == a,
    ensures
        forall|i: int| 0 <= i < a.len() ==> #[trigger] b[i] == a[i],
{
    assert forall|i: int| 0 <= i < a.len() implies #[trigger] b[i] == a[i] by {
        assert(b.take(a.len() as int)[i] == b[i]);
    }
}

/// The updates of one more recipient, logged after those of the ones before, log the
/// updates of all of them.
proof fn lemma_update_log_step(
    e: Seq<TrackerEffect>,
    before: Seq<TrackerEffect>,
    m1: int,
    recs: Seq<(PublicKey, RecipientView)>,
    j: int,
    b: Seq<BidKind>,
    slash: bool,
)
    requires
        0 <= m1 <= before.len() < e.len(),
        e.take(before.len() as int) == before,
        0 <= j < recs.len(),
        update_log(before.subrange(m1, before.len() as int), recs.take(j), slash),
        e[before.len() as int] == TrackerEffect::ReadBids(b),
        bid_update_effects(e.skip(before.len() as int + 1), b, recs[j].0, recs[j].1, slash),
    ensures
        update_log(e.subrange(m1, e.len() as int), recs.take(j + 1), slash),
{
    lemma_extends(before, e);
    let m = before.len() - m1;
    let seg = e.subrange(m1, e.len() as int);
    assert(seg.take(m) =~= before.subrange(m1, before.len() as int));
    assert(seg.skip(m) =~= e.skip(before.len() as int));
    assert(seg.skip(m).skip(1) =~= e.skip(before.len() as int + 1));
    assert(seg.skip(m)[0] == TrackerEffect::ReadBids(b));
    assert(recs.take(j + 1).drop_last() =~= recs.take(j));
    assert(recs.take(j + 1).last() == recs[j]);
    let r2 = recs.take(j + 1);
    assert(update_log(seg.take(m), r2.drop_last(), slash));
    assert(seg.skip(m).len() >= 1);
    assert(read_bids(seg.skip(m)[0]) == b);
    assert(bid_update_effects(seg.skip(m).skip(1), read_bids(seg.skip(m)[0]), r2.last().0, r2.last().1, slash));
    assert(r2.len() > 0);
    assert(0 <= m <= seg.len());
    assert(update_log(seg, r2, slash));
}

/// Resets logged one after the other reset the targets one after the other.
proof fn lemma_unbid_log_concat(
    a: Seq<TrackerEffect>,
    t1: Seq<(BidKind, PublicKey)>,
    b: Seq<TrackerEffect>,
    t2: Seq<(BidKind, PublicKey)>,
    slash: bool,
)
    requires
        unbid_log(a, t1, slash),
        unbid_log(b, t2, slash),
    ensures
        unbid_log(a + b, t1 + t2, slash),
{
    assert forall|k: int| 0 <= k < (t1 + t2).len() implies resets((a + b)[k], #[trigger] (t1 + t2)[k], slash) by {
        if k < t1.len() {
            assert(resets(a[k], t1[k], slash));
        } else {
            assert(resets(b[k - t1.len()], t2[k - t1.len()], slash));
        }
    }
}

/// The validators whose bids `add_and_remove_bids` resets: the removed ones, and, when only
/// the listed validators stay, those whose bids outbid them.
pub open spec fn unbid_validators(
    removed: Seq<(PublicKey, ())>,
    snapshot: Seq<(EraId, Seq<(PublicKey, RecipientView)>)>,
    only_listed_validators: bool,
    bids: Seq<BidKind>,
) -> Seq<(PublicKey, ())> {
    if only_listed_validators {
        let recs = snapshot[0].1;
        key_union(removed, large_bids(bids, recs, min_total_stake(recs), bids))
    } else {
        removed
    }
}

/// The effects from `n` on split at `m1` and `m2`: up to `m1`, reads of `bids0` (none when
/// not only the listed validators stay); up to `m2`, the updates of the recipients `recs`;
/// at `m2`, a read of the bids; then the resets of the records of `targets` among them.
pub open spec fn split_log(
    e: Seq<TrackerEffect>,
    n: int,
    m1: int,
    m2: int,
    bids0: Seq<BidKind>,
    only_listed_validators: bool,
    recs: Seq<(PublicKey, RecipientView)>,
    targets: Seq<(PublicKey, ())>,
    slash: bool,
) -> bool {
    &&& n <= m1 <= m2 < e.len()
    &&& only_listed_validators ==> m1 > n && forall|i: int| n <= i < m1 ==> #[trigger] e[i] == TrackerEffect::ReadBids(bids0)
    &&& !only_listed_validators ==> m1 == n
    &&& update_log(e.subrange(m1, m2), recs, slash)
    &&& e[m2] is ReadBids
    &&& unbid_log(e.skip(m2 + 1), unbid_targets(targets, read_bids(e[m2])), slash)
}

/// Makes the bids match the new snapshot: sets the bids of the validators of its last era
/// to their recipients, then resets the records of the removed validators and, when only
/// the listed validators stay, of those whose bids outbid the new validators.
pub fn add_and_remove_bids<T: StateTracker>(
    state: &mut T,
    validators_diff: &ValidatorsDiff,
    new_snapshot: &SeigniorageRecipientsSnapshotV2,
    only_listed_validators: bool,
    slash_instead_of_unbonding: bool,
)
    requires
        sorted(validators_diff.removed@),
        new_snapshot@.len() > 0,
        forall|j: int| 0 <= j < new_snapshot@.last().1@.len() ==> sorted(
            #[trigger] new_snapshot@.last().1@[j].1.delegator_stake@,
        ),
        only_listed_validators ==> {
            &&& new_snapshot@[0].1@.len() > 0
            &&& sorted(new_snapshot@[0].1@)
            &&& forall|j: int| 0 <= j < new_snapshot@[0].1@.len() ==> total_stake_value(#[trigger] new_snapshot@[0].1@[j].1@) < u512_bound()
            &&& !large_bids_overflow(
                old(state).spec_bids(),
                era_view(new_snapshot@[0].1@),
                min_total_stake(era_view(new_snapshot@[0].1@)),
            )
        },
    ensures
        ({
            let n = old(state).spec_effects().len() as int;
            let e = final(state).spec_effects();
            let bids0 = old(state).spec_bids();
            let targets = unbid_validators(validators_diff.removed@, snapshot_view(new_snapshot@), only_listed_validators, bids0);
            &&& e.take(n) == old(state).spec_effects()
            &&& exists|m1: int, m2: int|
                #[trigger] split_log(
                    e,
                    n,
                    m1,
                    m2,
                    bids0,
                    only_listed_validators,
                    era_view(new_snapshot@.last().1@),
                    targets,
                    slash_instead_of_unbonding,
                )
        }),
{
    let ghost n = old(state).spec_effects().len() as int;
    let ghost bids0 = old(state).spec_bids();
    let to_unbid = if only_listed_validators {
        let large_bids = find_large_bids(state, new_snapshot);
        union_keys(&validators_diff.removed, &large_bids)
    } else {
        copy_entries(&validators_diff.removed)
    };
    proof {
        assert(snapshot_view(new_snapshot@)[0].1 == era_view(new_snapshot@[0].1@));
        assert(to_unbid@ == unbid_validators(validators_diff.removed@, snapshot_view(new_snapshot@), only_listed_validators, bids0));
    }
    let ghost m1 = state.spec_effects().len() as int;
    let ghost e1 = state.spec_effects();
    let last = &new_snapshot[new_snapshot.len() - 1].1;
    let ghost recs = era_view(last@);
    proof {
        assert(last@ == new_snapshot@.last().1@);
        assert forall|q: int| 0 <= q < last@.len() implies sorted(#[trigger] last@[q].1.delegator_stake@) by {
            assert(last@[q] == new_snapshot@.last().1@[q]);
        }
        assert(state.spec_effects().subrange(m1, m1) =~= Seq::<TrackerEffect>::empty());
        assert(recs.take(0) =~= Seq::<(PublicKey, RecipientView)>::empty());
        assert(state.spec_effects().take(m1) =~= e1);
    }
    let mut j: usize = 0;
    while j < last.len()
        invariant
            j <= last@.len(),
            recs == era_view(last@),
            0 <= n <= m1,
            last@ == new_snapshot@.last().1@,
            forall|q: int| 0 <= q < last@.len() ==> sorted(#[trigger] last@[q].1.delegator_stake@),
            state.spec_effects().len() >= m1,
            state.spec_effects().take(m1) == e1,
            update_log(state.spec_effects().subrange(m1, state.spec_effects().len() as int), recs.take(j as int), slash_instead_of_unbonding),
        decreases last@.len() - j,
    {
        let ghost before = state.spec_effects();
        let ghost b = state.spec_bids();
        create_or_update_bid(state, &last[j].0, &last[j].1, slash_instead_of_unbonding);
        proof {
            assert(m1 <= before.len());
            assert(before.len() < state.spec_effects().len());
            assert(recs[j as int] == (last@[j as int].0, last@[j as int].1@));
            lemma_update_log_step(state.spec_effects(), before, m1, recs, j as int, b, slash_instead_of_unbonding);
            lemma_extends(before, state.spec_effects());
            assert(state.spec_effects().take(m1) =~= before.take(m1));
        }
        j = j + 1;
    }
    proof {
        assert(recs.take(j as int) =~= recs);
    }
    let ghost m2 = state.spec_effects().len() as int;
    let ghost e2 = state.spec_effects();
    let bids = state.get_bids();
    proof {
        assert(state.spec_effects().skip(m2 + 1) =~= Seq::<TrackerEffect>::empty());
        assert(to_unbid@.take(0) =~= Seq::<(PublicKey, ())>::empty());
        assert(state.spec_effects().take(m2 + 1) =~= e2.push(TrackerEffect::ReadBids(bids@)));
    }
    let mut i: usize = 0;
    while i < to_unbid.len()
        invariant
            i <= to_unbid@.len(),
            0 <= m2,
            state.spec_effects().len() > m2,
            state.spec_effects().take(m2 + 1) == e2.push(TrackerEffect::ReadBids(bids@)),
            unbid_log(state.spec_effects().skip(m2 + 1), unbid_targets(to_unbid@.take(i as int), bids@), slash_instead_of_unbonding),
        decreases to_unbid@.len() - i,
    {
        let ghost before = state.spec_effects();
        reset_validator_bids(state, &bids, &to_unbid[i].0, slash_instead_of_unbonding);
        proof {
            let e = state.spec_effects();
            lemma_extends(before, e);
            assert(to_unbid@.take(i + 1).drop_last() =~= to_unbid@.take(i as int));
            assert(e.skip(m2 + 1) =~= before.skip(m2 + 1) + e.skip(before.len() as int));
            lemma_unbid_log_concat(
                before.skip(m2 + 1),
                unbid_targets(to_unbid@.take(i as int), bids@),
                e.skip(before.len() as int),
                reset_targets(bids@, to_unbid@[i as int].0),
                slash_instead_of_unbonding,
            );
            assert(e.take(m2 + 1) =~= e.take(before.len() as int).take(m2 + 1));
        }
        i = i + 1;
    }
    proof {
        assert(to_unbid@.take(i as int) =~= to_unbid@);
        let e = state.spec_effects();
        lemma_extends(e2.push(TrackerEffect::ReadBids(bids@)), e);
        lemma_extends(e1, e2);
        assert(e.take(n) =~= old(state).spec_effects()) by {
            assert(e.take(n) =~= e.take(m2 + 1).take(n));
            assert(e2.take(n) =~= e2.take(m1).take(n));
        }
        assert(e.subrange(m1, m2) =~= e2.subrange(m1, m2));
        assert(e[m2] == TrackerEffect::ReadBids(bids@));
        if only_listed_validators {
            assert forall|q: int| n <= q < m1 implies #[trigger] e[q] == TrackerEffect::ReadBids(bids0) by {
                assert(e[q] == e2[q]);
                assert(e2[q] == e1[q]);
            }
        }
        assert(update_log(e.subrange(m1, m2), era_view(new_snapshot@.last().1@), slash_instead_of_unbonding));
        assert(read_bids(e[m2]) == bids@);
        assert(unbid_log(e.skip(m2 + 1), unbid_targets(to_unbid@, read_bids(e[m2])), slash_instead_of_unbonding));
        assert(split_log(
            e,
            n,
            m1,
            m2,
            bids0,
            only_listed_validators,
            era_view(new_snapshot@.last().1@),
            to_unbid@,
            slash_instead_of_unbonding,
        ));
    }
}

/// Makes each configured transfer, in order.
pub fn process_transfers<T: StateTracker>(state: &mut T, transfers: &[Transfer])
    ensures
        final(state).spec_effects() == old(state).spec_effects() + transfers@.map_values(
            |t: Transfer| TrackerEffect::Transfer(t),
        ),
        kept_auction(*old(state), *final(state)),
{
    let mut i: usize = 0;
    while i < transfers.len()
        invariant
            i <= transfers@.len(),
            state.spec_effects() == old(state).spec_effects() + transfers@.take(i as int).map_values(
                |t: Transfer| TrackerEffect::Transfer(t),
            ),
            kept_auction(*old(state), *state),
        decreases transfers@.len() - i,
    {
        state.execute_transfer(&transfers[i]);
        proof {
            assert(transfers@.take(i + 1).map_values(|t: Transfer| TrackerEffect::Transfer(t)) =~= transfers@.take(
                i as int,
            ).map_values(|t: Transfer| TrackerEffect::Transfer(t)).push(TrackerEffect::Transfer(transfers@[i as int])));
        }
        i = i + 1;
    }
    proof {
        assert(transfers@.take(i as int) =~= transfers@);
    }
}

/// The accounts that set a balance, in order.
pub open spec fn balance_accounts(accounts: Seq<AccountConfigView>) -> Seq<AccountConfigView>
    decreases accounts.len(),
{
    if accounts.len() == 0 {
        Seq::empty()
    } else {
        let prev = balance_accounts(accounts.drop_last());
        if accounts.last().balance is Some {
            prev.push(accounts.last())
        } else {
            prev
        }
    }
}

/// The effect sets account `a`'s balance: the balance of its main purse, when its account
/// exists, else a new account with that balance.
pub open spec fn sets_balance(e: TrackerEffect, a: AccountConfigView) -> bool {
    match e {
        TrackerEffect::SetPurseBalance(_, b) => Some(b) == a.balance,
        TrackerEffect::CreateEntityForAccount(h, b) => Some(b) == a.balance && is_account_hash_of(h, a.public_key),
        _ => false,
    }
}

/// Sets the balance of each account that configures one: the balance of its main purse when
/// the account exists, else a new account and entity with that balance.
pub fn update_account_balances<T: StateTracker>(state: &mut T, accounts: &[AccountConfig])
    ensures
        ({
            let n = old(state).spec_effects().len() as int;
            let e = final(state).spec_effects();
            let bal = balance_accounts(accounts_view(accounts@));
            &&& e.len() == n + bal.len()
            &&& e.take(n) == old(state).spec_effects()
            &&& forall|k: int| 0 <= k < bal.len() ==> sets_balance(e[n + k], #[trigger] bal[k])
        }),
        kept_auction(*old(state), *final(state)),
{
    let ghost n = old(state).spec_effects().len() as int;
    let mut i: usize = 0;
    while i < accounts.len()
        invariant
            i <= accounts@.len(),
            n == old(state).spec_effects().len(),
            ({
                let e = state.spec_effects();
                let bal = balance_accounts(accounts_view(accounts@.take(i as int)));
                &&& e.len() == n + bal.len()
                &&& e.take(n) == old(state).spec_effects()
                &&& forall|k: int| 0 <= k < bal.len() ==> sets_balance(e[n + k], #[trigger] bal[k])
            }),
            kept_auction(*old(state), *state),
        decreases accounts@.len() - i,
    {
        let ghost e0 = state.spec_effects();
        let ghost prev = balance_accounts(accounts_view(accounts@.take(i as int)));
        proof {
            assert(accounts_view(accounts@.take(i + 1)).drop_last() =~= accounts_view(accounts@.take(i as int)));
            assert(accounts_view(accounts@.take(i + 1)).last() == accounts@[i as int]@);
        }
        match accounts[i].balance {
            Some(target_balance) => {
                let account_hash = accounts[i].public_key.to_account_hash();
                match state.get_account(&account_hash) {
                    Some(main_purse) => {
                        state.set_purse_balance(main_purse, target_balance);
                    },
                    None => {
                        state.create_addressable_entity_for_account(account_hash, target_balance);
                    },
                }
                proof {
                    let e = state.spec_effects();
                    let cur = balance_accounts(accounts_view(accounts@.take(i + 1)));
                    assert(cur == prev.push(accounts@[i as int]@));
                    assert(e.take(n) =~= e0.take(n));
                    assert forall|k: int| 0 <= k < cur.len() implies sets_balance(e[n + k], #[trigger] cur[k]) by {
                        if k < prev.len() {
                            assert(cur[k] == prev[k]);
                            assert(e[n + k] == e0[n + k]);
                        }
                    }
                }
            },
            None => {},
        }
        i = i + 1;
    }
    proof {
        assert(accounts@.take(i as int) =~= accounts@);
    }
}

} // verus!

verus! {

/// Every recipient's delegator stakes are ordered by delegator.
pub open spec fn stakes_sorted(s: Seq<(PublicKey, RecipientView)>) -> bool {
    forall|i: int| 0 <= i < s.len() ==> sorted(#[trigger] s[i].1.delegator_stake)
}

/// A recipient made from settings has its delegators in order.
proof fn lemma_recipient_of_sorted(v: ValidatorConfigView)
    ensures
        sorted(recipient_of(v).delegator_stake),
{
    if let Some(d) = v.delegators {
        super::config::lemma_entries_sorted(d, Seq::empty());
    }
}

/// Settings keep a recipient's delegators in order.
proof fn lemma_modified_sorted(r: RecipientView, v: ValidatorConfigView)
    requires
        sorted(r.delegator_stake),
    ensures
        sorted(modified(r, v).delegator_stake),
{
    if let Some(d) = v.delegators {
        super::config::lemma_entries_sorted(d, Seq::empty());
    }
}

/// Inserting a recipient with ordered delegators keeps every recipient's delegators ordered.
proof fn lemma_insert_stakes_sorted(s: Seq<(PublicKey, RecipientView)>, k: PublicKey, r: RecipientView)
    requires
        stakes_sorted(s),
        sorted(r.delegator_stake),
    ensures
        stakes_sorted(map_insert(s, k, r)),
{
    let t = map_insert(s, k, r);
    assert forall|i: int| 0 <= i < t.len() implies sorted(#[trigger] t[i].1.delegator_stake) by {
        lemma_map_insert_values(s, k, r, i);
        if t[i].1 != r {
            let m = choose|m: int| 0 <= m < s.len() && #[trigger] s[m].1 == t[i].1;
            assert(sorted(s[m].1.delegator_stake));
        }
    }
}

/// The listed validators are ordered by key, and each one's delegators by delegator.
pub proof fn lemma_listed_validators_sorted(accounts: Seq<AccountConfigView>)
    ensures
        sorted(listed_validators(accounts)),
        stakes_sorted(listed_validators(accounts)),
    decreases accounts.len(),
{
    if accounts.len() > 0 {
        lemma_listed_validators_sorted(accounts.drop_last());
        let prev = listed_validators(accounts.drop_last());
        let a = accounts.last();
        if let Some(v) = a.validator {
            lemma_map_insert(prev, a.public_key, recipient_of(v));
            lemma_recipient_of_sorted(v);
            lemma_insert_stakes_sorted(prev, a.public_key, recipient_of(v));
        }
    }
}

/// Retaining keeps every recipient's delegators ordered.
proof fn lemma_retained_stakes_sorted(
    s: Seq<(PublicKey, RecipientView)>,
    vmap: Seq<(PublicKey, ValidatorConfigView)>,
)
    requires
        stakes_sorted(s),
    ensures
        stakes_sorted(retained(s, vmap)),
    decreases s.len(),
{
    if s.len() > 0 {
        let t = s.drop_last();
        assert(stakes_sorted(t)) by {
            assert forall|i: int| 0 <= i < t.len() implies sorted(#[trigger] t[i].1.delegator_stake) by {
                assert(t[i] == s[i]);
            }
        }
        lemma_retained_stakes_sorted(t, vmap);
        let (pk, r) = s.last();
        assert(sorted(s[s.len() - 1].1.delegator_stake));
        if let Some(v) = map_get(vmap, pk) {
            lemma_modified_sorted(r, v);
        }
    }
}

/// Adding keeps every recipient's delegators ordered.
proof fn lemma_added_stakes_sorted(
    s: Seq<(PublicKey, RecipientView)>,
    vmap: Seq<(PublicKey, ValidatorConfigView)>,
)
    requires
        stakes_sorted(s),
    ensures
        stakes_sorted(added(s, vmap)),
    decreases vmap.len(),
{
    if vmap.len() > 0 {
        lemma_added_stakes_sorted(s, vmap.drop_last());
        let prev = added(s, vmap.drop_last());
        let (pk, v) = vmap.last();
        lemma_recipient_of_sorted(v);
        lemma_insert_stakes_sorted(prev, pk, recipient_of(v));
    }
}

/// An updated era of ordered recipients with ordered delegators is ordered in both ways too.
pub proof fn lemma_updated_era_sorted(
    s: Seq<(PublicKey, RecipientView)>,
    vmap: Seq<(PublicKey, ValidatorConfigView)>,
)
    requires
        sorted(s),
        stakes_sorted(s),
    ensures
        sorted(updated_era(s, vmap)),
        stakes_sorted(updated_era(s, vmap)),
{
    lemma_retained(s, vmap);
    lemma_added_sorted(retained(s, vmap), vmap);
    lemma_retained_stakes_sorted(s, vmap);
    lemma_added_stakes_sorted(retained(s, vmap), vmap);
}

} // verus!
