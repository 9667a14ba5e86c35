//! The auction part of the generic update: a new snapshot of seigniorage recipients, the
//! validators it adds and removes, and the bids that follow from it.
use vstd::prelude::*;

use super::config::{accounts_view, AccountConfig, AccountConfigView, Config, Transfer};
use super::generic::{
    add_and_remove_bids, balance_accounts, gen_snapshot_from_old, gen_snapshot_only_listed,
    large_bids_overflow, process_transfers, sets_balance, update_account_balances,
    lemma_listed_validators_sorted, lemma_updated_era_sorted, listed_validators, min_total_stake,
    split_log, stakes_sorted, unbid_validators, updated_era, validators_entries, ValidatorsDiff,
};
use super::recipients::{
    copy_era, era_view, snapshot_view, snapshot_wf, total_stake_value, RecipientView,
    SeigniorageRecipientsSnapshotV2,
};
use super::tracker::{StateTracker, TrackerEffect};
use crate::auction::bid_kind::{same_public_key, spec_validator_public_key, BidKind};
use crate::auction::bids::EraId;
use crate::keys::{PublicKey, URef};
use crate::ordered::{
    lemma_map_get, lemma_map_insert, lemma_sorted_view, map_get, map_get_exec, map_insert,
    map_insert_exec, sorted, key_lt,
};
use crate::u512::{u512_bound, U512};

verus! {

/// A snapshot, as the update speaks of it: eras with their recipients.
pub type SnapshotView = Seq<(EraId, Seq<(PublicKey, RecipientView)>)>;

/// A validator of the next era and its weight: its stake with its delegators'.
#[derive(Debug, Clone, Copy, PartialEq, Eq)]
pub struct ValidatorInfo {
    /// The validator.
    pub public_key: PublicKey,
    /// Its total stake.
    pub weight: U512,
}

/// The new snapshot: with only the listed validators, as many eras as the old one from its
/// first era on, each with the listed validators; otherwise each era of the old one updated
/// by the accounts' validator settings.
pub open spec fn new_snapshot_view(old: SnapshotView, accounts: Seq<AccountConfigView>, only_listed: bool) -> SnapshotView {
    if only_listed {
        Seq::new(
            old.len(),
            |i: int| (EraId((old[0].0.0 + i) as u64), listed_validators(accounts)),
        )
    } else {
        old.map_values(
            |e: (EraId, Seq<(PublicKey, RecipientView)>)| (e.0, updated_era(e.1, validators_entries(accounts))),
        )
    }
}

/// The keys of an era's recipients, added to `acc`.
pub open spec fn era_keys_into(acc: Seq<(PublicKey, ())>, era: Seq<(PublicKey, RecipientView)>) -> Seq<(PublicKey, ())>
    decreases era.len(),
{
    if era.len() == 0 {
        acc
    } else {
        map_insert(era_keys_into(acc, era.drop_last()), era.last().0, ())
    }
}

/// The validators of every era of a snapshot, ordered by key.
pub open spec fn snapshot_keys(s: SnapshotView) -> Seq<(PublicKey, ())>
    decreases s.len(),
{
    if s.len() == 0 {
        Seq::empty()
    } else {
        era_keys_into(snapshot_keys(s.drop_last()), s.last().1)
    }
}

/// The keys of `a` that `b` lacks, in their order.
pub open spec fn key_difference(a: Seq<(PublicKey, ())>, b: Seq<(PublicKey, ())>) -> Seq<(PublicKey, ())>
    decreases a.len(),
{
    if a.len() == 0 {
        Seq::empty()
    } else {
        let prev = key_difference(a.drop_last(), b);
        if map_get(b, a.last().0) is None {
            prev.push(a.last())
        } else {
            prev
        }
    }
}

/// The validators that the new snapshot has and the old one lacks.
pub open spec fn added_validators(old: SnapshotView, new: SnapshotView) -> Seq<(PublicKey, ())> {
    key_difference(snapshot_keys(new), snapshot_keys(old))
}

/// The validators that the old snapshot has and the new one lacks.
pub open spec fn removed_validators(old: SnapshotView, new: SnapshotView) -> Seq<(PublicKey, ())> {
    key_difference(snapshot_keys(old), snapshot_keys(new))
}

/// Adding keys keeps a key set ordered.
proof fn lemma_era_keys_sorted(acc: Seq<(PublicKey, ())>, era: Seq<(PublicKey, RecipientView)>)
    requires
        sorted(acc),
    ensures
        sorted(era_keys_into(acc, era)),
    decreases era.len(),
{
    if era.len() > 0 {
        lemma_era_keys_sorted(acc, era.drop_last());
        lemma_map_insert(era_keys_into(acc, era.drop_last()), era.last().0, ());
    }
}

/// The keys of a snapshot are ordered.
proof fn lemma_snapshot_keys_sorted(s: SnapshotView)
    ensures
        sorted(snapshot_keys(s)),
    decreases s.len(),
{
    if s.len() > 0 {
        lemma_snapshot_keys_sorted(s.drop_last());
        lemma_era_keys_sorted(snapshot_keys(s.drop_last()), s.last().1);
    }
}

/// The difference of ordered keys is ordered, and holds keys of the first only.
proof fn lemma_key_difference(a: Seq<(PublicKey, ())>, b: Seq<(PublicKey, ())>)
    ensures
        forall|i: int| 0 <= i < key_difference(a, b).len() ==> a.contains(#[trigger] key_difference(a, b)[i]),
        sorted(a) ==> sorted(key_difference(a, b)),
    decreases a.len(),
{
    if a.len() > 0 {
        let t = a.drop_last();
        lemma_key_difference(t, b);
        let prev = key_difference(t, b);
        let d = key_difference(a, b);
        assert forall|i: int| 0 <= i < d.len() implies a.contains(#[trigger] d[i]) by {
            if i < prev.len() {
                assert(d[i] == prev[i]);
                assert(t.contains(prev[i]));
                let j = choose|j: int| 0 <= j < t.len() && t[j] == prev[i];
                assert(a[j] == t[j]);
            } else {
                assert(d[i] == a[a.len() - 1]);
            }
        }
        if sorted(a) {
            assert(sorted(t)) by {
                assert forall|x: int, y: int| 0 <= x < y < t.len() implies key_lt(#[trigger] t[x].0, #[trigger] t[y].0) by {
                    assert(t[x] == a[x] && t[y] == a[y]);
                }
            }
            assert forall|x: int, y: int| 0 <= x < y < d.len() implies key_lt(#[trigger] d[x].0, #[trigger] d[y].0) by {
                if y < prev.len() {
                    assert(d[x] == prev[x] && d[y] == prev[y]);
                } else {
                    assert(d[x] == prev[x]);
                    assert(t.contains(prev[x]));
                    let j = choose|j: int| 0 <= j < t.len() && t[j] == prev[x];
                    assert(a[j] == t[j]);
                    assert(d[y] == a[a.len() - 1]);
                }
            }
        }
    }
}

/// Validator `k` has recipients in some era of the snapshot.
pub open spec fn in_snapshot(s: SnapshotView, k: PublicKey) -> bool {
    exists|i: int, j: int| 0 <= i < s.len() && 0 <= j < s[i].1.len() && #[trigger] s[i].1[j].0 == k
}

/// In ordered keys, a key is found exactly when some entry has it.
proof fn lemma_has_key(s: Seq<(PublicKey, ())>, k: PublicKey)
    requires
        sorted(s),
    ensures
        map_get(s, k) is Some <==> exists|i: int| 0 <= i < s.len() && #[trigger] s[i].0 == k,
{
    lemma_map_get(s, k);
}

/// The keys of an era added to ordered keys are those keys and the era's validators.
proof fn lemma_era_keys_into_get(acc: Seq<(PublicKey, ())>, era: Seq<(PublicKey, RecipientView)>, k: PublicKey)
    requires
        sorted(acc),
    ensures
        map_get(era_keys_into(acc, era), k) is Some <==> (map_get(acc, k) is Some || exists|j: int|
            0 <= j < era.len() && #[trigger] era[j].0 == k),
    decreases era.len(),
{
    if era.len() > 0 {
        let t = era.drop_last();
        lemma_era_keys_into_get(acc, t, k);
        lemma_era_keys_sorted(acc, t);
        lemma_map_insert(era_keys_into(acc, t), era.last().0, ());
        if exists|j: int| 0 <= j < t.len() && #[trigger] t[j].0 == k {
            let j = choose|j: int| 0 <= j < t.len() && #[trigger] t[j].0 == k;
            assert(era[j].0 == k);
        }
        if exists|j: int| 0 <= j < era.len() && #[trigger] era[j].0 == k {
            let j = choose|j: int| 0 <= j < era.len() && #[trigger] era[j].0 == k;
            if j < t.len() {
                assert(t[j].0 == k);
            }
        }
    }
}

/// The keys of a snapshot are its validators.
proof fn lemma_snapshot_keys_get(s: SnapshotView, k: PublicKey)
    ensures
        map_get(snapshot_keys(s), k) is Some <==> in_snapshot(s, k),
    decreases s.len(),
{
    if s.len() > 0 {
        let t = s.drop_last();
        lemma_snapshot_keys_get(t, k);
        lemma_snapshot_keys_sorted(t);
        lemma_era_keys_into_get(snapshot_keys(t), s.last().1, k);
        if in_snapshot(t, k) {
            let (i, j) = choose|i: int, j: int| 0 <= i < t.len() && 0 <= j < t[i].1.len() && #[trigger] t[i].1[j].0 == k;
            assert(s[i].1[j].0 == k);
        }
        if in_snapshot(s, k) {
            let (i, j) = choose|i: int, j: int| 0 <= i < s.len() && 0 <= j < s[i].1.len() && #[trigger] s[i].1[j].0 == k;
            if i < t.len() {
                assert(t[i].1[j].0 == k);
            } else {
                assert(s.last().1[j].0 == k);
            }
        }
    } else {
        assert(map_get(Seq::<(PublicKey, ())>::empty(), k) is None);
    }
}

/// The difference of ordered keys holds the keys of the first that the second lacks.
proof fn lemma_key_difference_get(a: Seq<(PublicKey, ())>, b: Seq<(PublicKey, ())>, k: PublicKey)
    requires
        sorted(a),
        sorted(b),
    ensures
        map_get(key_difference(a, b), k) is Some <==> (map_get(a, k) is Some && map_get(b, k) is None),
    decreases a.len(),
{
    lemma_key_difference(a, b);
    lemma_has_key(a, k);
    lemma_has_key(key_difference(a, b), k);
    if a.len() > 0 {
        let t = a.drop_last();
        assert(sorted(t)) by {
            assert forall|x: int, y: int| 0 <= x < y < t.len() implies key_lt(#[trigger] t[x].0, #[trigger] t[y].0) by {
                assert(t[x] == a[x] && t[y] == a[y]);
            }
        }
        lemma_key_difference_get(t, b, k);
        lemma_key_difference(t, b);
        lemma_has_key(t, k);
        lemma_has_key(key_difference(t, b), k);
        let d = key_difference(a, b);
        let p = key_difference(t, b);
        if map_get(b, a.last().0) is None {
            assert(d[p.len() as int] == a.last());
            assert(a[a.len() - 1] == a.last());
        }
        if exists|i: int| 0 <= i < p.len() && #[trigger] p[i].0 == k {
            let i = choose|i: int| 0 <= i < p.len() && #[trigger] p[i].0 == k;
            assert(d[i] == p[i]);
        }
        if exists|i: int| 0 <= i < d.len() && #[trigger] d[i].0 == k {
            let i = choose|i: int| 0 <= i < d.len() && #[trigger] d[i].0 == k;
            if i < p.len() {
                assert(p[i] == d[i]);
            }
        }
        if exists|i: int| 0 <= i < t.len() && #[trigger] t[i].0 == k {
            let i = choose|i: int| 0 <= i < t.len() && #[trigger] t[i].0 == k;
            assert(a[i] == t[i]);
        }
        if exists|i: int| 0 <= i < a.len() && #[trigger] a[i].0 == k {
            let i = choose|i: int| 0 <= i < a.len() && #[trigger] a[i].0 == k;
            if i < t.len() {
                assert(t[i] == a[i]);
            }
        }
    }
}

/// The validators that a new snapshot adds are those in some era of it and in no era of the
/// old one; those it removes, the other way round.
pub proof fn lemma_validators_diff_membership(old: SnapshotView, new: SnapshotView, k: PublicKey)
    ensures
        map_get(added_validators(old, new), k) is Some <==> (in_snapshot(new, k) && !in_snapshot(old, k)),
        map_get(removed_validators(old, new), k) is Some <==> (in_snapshot(old, k) && !in_snapshot(new, k)),
{
    lemma_snapshot_keys_sorted(old);
    lemma_snapshot_keys_sorted(new);
    lemma_snapshot_keys_get(old, k);
    lemma_snapshot_keys_get(new, k);
    lemma_key_difference_get(snapshot_keys(new), snapshot_keys(old), k);
    lemma_key_difference_get(snapshot_keys(old), snapshot_keys(new), k);
}

/// Collects the keys of an era's recipients into `acc`.
fn collect_era_keys(acc: &mut Vec<(PublicKey, ())>, era: &Vec<(PublicKey, super::recipients::SeigniorageRecipientV2)>)
    requires
        sorted(old(acc)@),
    ensures
        final(acc)@ == era_keys_into(old(acc)@, era_view(era@)),
        sorted(final(acc)@),
{
    let ghost base = acc@;
    let mut i: usize = 0;
    while i < era.len()
        invariant
            i <= era@.len(),
            acc@ == era_keys_into(base, era_view(era@.take(i as int))),
            sorted(acc@),
        decreases era@.len() - i,
    {
        proof {
            lemma_map_insert(acc@, era@[i as int].0, ());
            let v = era_view(era@.take(i + 1));
            assert(v.drop_last() =~= era_view(era@.take(i as int)));
            assert(v.last().0 == era@[i as int].0);
        }
        map_insert_exec(acc, era[i].0, ());
        i = i + 1;
    }
    assert(era@.take(i as int) =~= era@);
}

/// The validators of every era of a snapshot, ordered by key.
fn collect_snapshot_keys(s: &SeigniorageRecipientsSnapshotV2) -> (r: Vec<(PublicKey, ())>)
    ensures
        r@ == snapshot_keys(snapshot_view(s@)),
        sorted(r@),
{
    let mut keys: Vec<(PublicKey, ())> = Vec::new();
    let mut i: usize = 0;
    while i < s.len()
        invariant
            i <= s@.len(),
            keys@ == snapshot_keys(snapshot_view(s@.take(i as int))),
            sorted(keys@),
        decreases s@.len() - i,
    {
        proof {
            let v = snapshot_view(s@.take(i + 1));
            assert(v.drop_last() =~= snapshot_view(s@.take(i as int)));
            assert(v.last().1 == era_view(s@[i as int].1@));
        }
        collect_era_keys(&mut keys, &s[i].1);
        i = i + 1;
    }
    assert(s@.take(i as int) =~= s@);
    keys
}

/// The keys of `a` that `b` lacks, in their order.
fn difference(a: &Vec<(PublicKey, ())>, b: &Vec<(PublicKey, ())>) -> (r: Vec<(PublicKey, ())>)
    requires
        sorted(b@),
    ensures
        r@ == key_difference(a@, b@),
{
    let mut out: Vec<(PublicKey, ())> = Vec::new();
    let mut i: usize = 0;
    while i < a.len()
        invariant
            i <= a@.len(),
            sorted(b@),
            out@ == key_difference(a@.take(i as int), b@),
        decreases a@.len() - i,
    {
        proof {
            assert(a@.take(i + 1).drop_last() =~= a@.take(i as int));
        }
        if map_get_exec(b, &a[i].0).is_none() {
            out.push(a[i]);
        }
        i = i + 1;
    }
    assert(a@.take(i as int) =~= a@);
    out
}

/// The validators that the new snapshot adds and those it removes, each ordered by key.
pub fn validators_diff(
    old_snapshot: &SeigniorageRecipientsSnapshotV2,
    new_snapshot: &SeigniorageRecipientsSnapshotV2,
) -> (r: ValidatorsDiff)
    ensures
        r.added@ == added_validators(snapshot_view(old_snapshot@), snapshot_view(new_snapshot@)),
        r.removed@ == removed_validators(snapshot_view(old_snapshot@), snapshot_view(new_snapshot@)),
        sorted(r.added@),
        sorted(r.removed@),
{
    let old_keys = collect_snapshot_keys(old_snapshot);
    let new_keys = collect_snapshot_keys(new_snapshot);
    proof {
        lemma_key_difference(new_keys@, old_keys@);
        lemma_key_difference(old_keys@, new_keys@);
    }
    ValidatorsDiff { added: difference(&new_keys, &old_keys), removed: difference(&old_keys, &new_keys) }
}

/// Two eras hold the same recipients.
fn same_era(
    a: &Vec<(PublicKey, super::recipients::SeigniorageRecipientV2)>,
    b: &Vec<(PublicKey, super::recipients::SeigniorageRecipientV2)>,
) -> (r: bool)
    ensures
        r == (era_view(a@) == era_view(b@)),
{
    if a.len() != b.len() {
        proof {
            assert(era_view(a@).len() != era_view(b@).len());
        }
        return false;
    }
    let mut i: usize = 0;
    while i < a.len()
        invariant
            i <= a@.len(),
            a@.len() == b@.len(),
            forall|j: int| 0 <= j < i ==> #[trigger] era_view(a@)[j] == era_view(b@)[j],
        decreases a@.len() - i,
    {
        if !same_public_key(&a[i].0, &b[i].0) || !a[i].1.same(&b[i].1) {
            proof {
                assert(era_view(a@)[i as int] != era_view(b@)[i as int]);
            }
            return false;
        }
        i = i + 1;
    }
    assert(era_view(a@) =~= era_view(b@));
    true
}

/// Two snapshots hold the same eras with the same recipients.
pub fn same_snapshot(a: &SeigniorageRecipientsSnapshotV2, b: &SeigniorageRecipientsSnapshotV2) -> (r: bool)
    ensures
        r == (snapshot_view(a@) == snapshot_view(b@)),
{
    if a.len() != b.len() {
        proof {
            assert(snapshot_view(a@).len() != snapshot_view(b@).len());
        }
        return false;
    }
    let mut i: usize = 0;
    while i < a.len()
        invariant
            i <= a@.len(),
            a@.len() == b@.len(),
            forall|j: int| 0 <= j < i ==> #[trigger] snapshot_view(a@)[j] == snapshot_view(b@)[j],
        decreases a@.len() - i,
    {
        if a[i].0.0 != b[i].0.0 || !same_era(&a[i].1, &b[i].1) {
            proof {
                assert(snapshot_view(a@)[i as int] != snapshot_view(b@)[i as int]);
            }
            return false;
        }
        i = i + 1;
    }
    assert(snapshot_view(a@) =~= snapshot_view(b@));
    true
}

/// A copy of a snapshot.
fn copy_snapshot(s: &SeigniorageRecipientsSnapshotV2) -> (r: SeigniorageRecipientsSnapshotV2)
    ensures
        snapshot_view(r@) == snapshot_view(s@),
{
    let mut out: SeigniorageRecipientsSnapshotV2 = Vec::new();
    let mut i: usize = 0;
    while i < s.len()
        invariant
            i <= s@.len(),
            snapshot_view(out@) == snapshot_view(s@.take(i as int)),
        decreases s@.len() - i,
    {
        let era = copy_era(&s[i].1);
        let ghost prev = out@;
        out.push((s[i].0, era));
        proof {
            assert(snapshot_view(out@) =~= snapshot_view(prev).push((s@[i as int].0, era_view(s@[i as int].1@))));
            assert(snapshot_view(s@.take(i + 1)) =~= snapshot_view(s@.take(i as int)).push(
                (s@[i as int].0, era_view(s@[i as int].1@)),
            ));
        }
        i = i + 1;
    }
    assert(s@.take(i as int) =~= s@);
    out
}

/// The bonding purse of a record, if it has one.
pub open spec fn record_purse(b: BidKind) -> Option<URef> {
    match b {
        BidKind::Unified(x) => Some(x.bonding_purse),
        BidKind::Validator(x) => Some(x.bonding_purse),
        BidKind::Delegator(x) => Some(x.bonding_purse),
        _ => None,
    }
}

/// The removals of the withdrawals and unbonds from the bonding purses of the records of
/// removed validators, in the records' order.
pub open spec fn purse_purges(bids: Seq<BidKind>, removed: Seq<(PublicKey, ())>) -> Seq<TrackerEffect>
    decreases bids.len(),
{
    if bids.len() == 0 {
        Seq::empty()
    } else {
        let prev = purse_purges(bids.drop_last(), removed);
        let b = bids.last();
        if map_get(removed, spec_validator_public_key(b)) is Some && record_purse(b) is Some {
            prev.push(TrackerEffect::RemoveWithdrawsAndUnbonds(record_purse(b)->0))
        } else {
            prev
        }
    }
}

/// Removes the withdrawals and unbonds from the bonding purses of the records of removed
/// validators.
fn purge_removed<T: StateTracker>(state: &mut T, bids: &Vec<BidKind>, removed: &Vec<(PublicKey, ())>)
    requires
        sorted(removed@),
    ensures
        final(state).spec_effects() == old(state).spec_effects() + purse_purges(bids@, removed@),
        final(state).spec_bids() == old(state).spec_bids(),
{
    let ghost e0 = state.spec_effects();
    let mut i: usize = 0;
    while i < bids.len()
        invariant
            i <= bids@.len(),
            sorted(removed@),
            state.spec_effects() == e0 + purse_purges(bids@.take(i as int), removed@),
            state.spec_bids() == old(state).spec_bids(),
        decreases bids@.len() - i,
    {
        proof {
            assert(bids@.take(i + 1).drop_last() =~= bids@.take(i as int));
        }
        let pk = bids[i].validator_public_key();
        if map_get_exec(removed, &pk).is_some() {
            if let Some(bonding_purse) = bids[i].bonding_purse() {
                let ghost before = state.spec_effects();
                state.remove_withdraws_and_unbonds_with_bonding_purse(&bonding_purse);
                proof {
                    assert(state.spec_effects() =~= e0 + purse_purges(bids@.take(i + 1), removed@));
                }
            }
        }
        i = i + 1;
    }
    assert(bids@.take(i as int) =~= bids@);
}

/// The update is defined: with only the listed validators, the old snapshot has an era and
/// its eras can be counted on from the first; when the snapshot changes, the next era's
/// total stakes fit in 512 bits and, with only the listed validators, the next era has a
/// validator and the stakes of the bids that are compared with it fit in 512 bits.
pub open spec fn auction_update_defined(
    old: SnapshotView,
    bids: Seq<BidKind>,
    accounts: Seq<AccountConfigView>,
    only_listed: bool,
) -> bool {
    let new = new_snapshot_view(old, accounts, only_listed);
    &&& only_listed ==> old.len() > 0 && old[0].0.0 + old.len() <= u64::MAX
    &&& new != old ==> {
        &&& new.len() > 0
        &&& forall|j: int| 0 <= j < new[0].1.len() ==> total_stake_value(#[trigger] new[0].1[j].1) < u512_bound()
        &&& only_listed ==> new[0].1.len() > 0 && !large_bids_overflow(
            bids,
            new[0].1,
            min_total_stake(new[0].1),
        )
    }
}

/// The weights of the validators of an era.
pub open spec fn validator_weights(era: Seq<(PublicKey, RecipientView)>, infos: Seq<ValidatorInfo>) -> bool {
    &&& infos.len() == era.len()
    &&& forall|j: int|
        0 <= j < era.len() ==> (#[trigger] infos[j]).public_key == era[j].0 && infos[j].weight.value()
            == total_stake_value(era[j].1)
}

/// The validators of an era with their total stakes, in key order.
pub open spec fn era_weights(era: Seq<(PublicKey, RecipientView)>) -> Seq<(PublicKey, nat)> {
    era.map_values(|e: (PublicKey, RecipientView)| (e.0, total_stake_value(e.1)))
}

/// The validators of a list of validator infos with their weights, in its order.
pub open spec fn infos_weights(infos: Seq<ValidatorInfo>) -> Seq<(PublicKey, nat)> {
    infos.map_values(|i: ValidatorInfo| (i.public_key, i.weight.value()))
}

/// For eras sorted by key, the lists of validators with their weights differ exactly when
/// the sets of them do.
proof fn lemma_weights_differ(a: Seq<(PublicKey, RecipientView)>, b: Seq<(PublicKey, RecipientView)>)
    requires
        sorted(a),
        sorted(b),
    ensures
        (era_weights(a) != era_weights(b)) == (era_weights(a).to_set() != era_weights(b).to_set()),
{
    assert(sorted(era_weights(a)));
    assert(sorted(era_weights(b)));
    if era_weights(a).to_set() == era_weights(b).to_set() {
        crate::ordered::lemma_sorted_same_entries(era_weights(a), era_weights(b));
    }
}

/// Infos that give an era's weights list its validators with their total stakes.
proof fn lemma_validator_weights(era: Seq<(PublicKey, RecipientView)>, infos: Seq<ValidatorInfo>)
    requires
        validator_weights(era, infos),
    ensures
        infos_weights(infos) == era_weights(era),
{
    assert(infos_weights(infos) =~= era_weights(era));
}

/// Whether the infos list the validators of the era with their total stakes, in its order.
fn same_weights(era: &Vec<(PublicKey, super::recipients::SeigniorageRecipientV2)>, infos: &Vec<ValidatorInfo>) -> (r: bool)
    ensures
        r == (era_weights(era_view(era@)) == infos_weights(infos@)),
{
    let ghost a = era_weights(era_view(era@));
    let ghost b = infos_weights(infos@);
    if era.len() != infos.len() {
        proof {
            assert(a.len() != b.len());
        }
        return false;
    }
    let mut i: usize = 0;
    while i < era.len()
        invariant
            i <= era@.len(),
            era@.len() == infos@.len(),
            a == era_weights(era_view(era@)),
            b == infos_weights(infos@),
            forall|j: int| 0 <= j < i ==> #[trigger] a[j] == b[j],
        decreases era@.len() - i,
    {
        proof {
            assert(a[i as int] == (era@[i as int].0, total_stake_value(era@[i as int].1@)));
            assert(b[i as int] == (infos@[i as int].public_key, infos@[i as int].weight.value()));
        }
        if !same_public_key(&era[i].0, &infos[i].public_key) {
            return false;
        }
        match era[i].1.total_stake() {
            None => {
                proof {
                    infos@[i as int].weight.lemma_value_bound();
                }
                return false;
            },
            Some(t) => {
                if !t.same(&infos[i].weight) {
                    proof {
                        U512::lemma_value_injective(t, infos@[i as int].weight);
                    }
                    return false;
                }
            },
        }
        i = i + 1;
    }
    assert(a =~= b);
    true
}

/// The weights of the validators of the next era: the first of the snapshot.
fn next_validators(snapshot: &SeigniorageRecipientsSnapshotV2) -> (r: Vec<ValidatorInfo>)
    requires
        snapshot@.len() > 0,
        forall|j: int|
            0 <= j < snapshot@[0].1@.len() ==> total_stake_value(#[trigger] snapshot@[0].1@[j].1@) < u512_bound(),
    ensures
        validator_weights(era_view(snapshot@[0].1@), r@),
{
    let era = &snapshot[0].1;
    let mut out: Vec<ValidatorInfo> = Vec::new();
    let mut i: usize = 0;
    while i < era.len()
        invariant
            i <= era@.len(),
            era@ == snapshot@[0].1@,
            forall|j: int| 0 <= j < era@.len() ==> total_stake_value(#[trigger] era@[j].1@) < u512_bound(),
            out@.len() == i,
            forall|j: int|
                0 <= j < i ==> (#[trigger] out@[j]).public_key == era@[j].0 && out@[j].weight.value()
                    == total_stake_value(era@[j].1@),
        decreases era@.len() - i,
    {
        let weight = match era[i].1.total_stake() {
            Some(w) => w,
            None => {
                proof {
                    assert(total_stake_value(era@[i as int].1@) < u512_bound());
                }
                return out;
            },
        };
        out.push(ValidatorInfo { public_key: era[i].0, weight });
        i = i + 1;
    }
    out
}

/// The purges made when slashing; none otherwise.
pub open spec fn slash_purges(slash: bool, bids: Seq<BidKind>, removed: Seq<(PublicKey, ())>) -> Seq<TrackerEffect> {
    if slash {
        purse_purges(bids, removed)
    } else {
        Seq::empty()
    }
}

/// Where the effects of a changed snapshot's update stand after the snapshot was written,
/// the bids read and the purges made.
pub open spec fn after_purges(n: int, purges: Seq<TrackerEffect>) -> int {
    n + 2 + purges.len()
}

/// After a changed snapshot: the new snapshot was written, the bids read, the withdrawals and unbonds of the removed
/// validators' records removed when slashing, and the bids made to match the snapshot.
pub open spec fn auction_updated(
    old_s: SnapshotView,
    bids0: Seq<BidKind>,
    before: Seq<TrackerEffect>,
    e: Seq<TrackerEffect>,
    accounts: Seq<AccountConfigView>,
    only_listed: bool,
    slash: bool,
) -> bool {
    let new_s = new_snapshot_view(old_s, accounts, only_listed);
    let removed = removed_validators(old_s, new_s);
    let n = before.len() as int;
    let purges = slash_purges(slash, bids0, removed);
    let m = after_purges(n, purges);
    &&& e.take(n) =~= before
    &&& e.len() > m
    &&& e[n] == TrackerEffect::WriteSnapshot(new_s)
    &&& e[n + 1] == TrackerEffect::ReadBids(bids0)
    &&& e.subrange(n + 2, m) =~= purges
    &&& exists|m1: int, m2: int|
        #[trigger] split_log(
            e,
            m,
            m1,
            m2,
            bids0,
            only_listed,
            new_s.last().1,
            unbid_validators(removed, new_s, only_listed, bids0),
            slash,
        )
}

/// Updates the auction: when the new snapshot differs from the old one, writes it, removes
/// the withdrawals and unbonds of the removed validators' records when slashing, and makes
/// the bids match it. Returns the validators of the next era with their weights when that
/// set changed; `None` otherwise, changing nothing when the snapshot stays the same.
#[verifier::spinoff_prover]
#[verifier::rlimit(40)]
pub fn update_auction_state<T: StateTracker>(
    state: &mut T,
    accounts: &[AccountConfig],
    only_listed_validators: bool,
    slash_instead_of_unbonding: bool,
) -> (r: Option<Vec<ValidatorInfo>>)
    requires
        auction_update_defined(
            old(state).spec_snapshot(),
            old(state).spec_bids(),
            accounts_view(accounts@),
            only_listed_validators,
        ),
    ensures
        new_snapshot_view(old(state).spec_snapshot(), accounts_view(accounts@), only_listed_validators)
            == old(state).spec_snapshot() ==> r is None && final(state).spec_effects() == old(
            state,
        ).spec_effects(),
        ({
            let old_s = old(state).spec_snapshot();
            let new_s = new_snapshot_view(old_s, accounts_view(accounts@), only_listed_validators);
            new_s != old_s ==> {
                &&& auction_updated(
                    old_s,
                    old(state).spec_bids(),
                    old(state).spec_effects(),
                    final(state).spec_effects(),
                    accounts_view(accounts@),
                    only_listed_validators,
                    slash_instead_of_unbonding,
                )
                &&& (r is Some <==> era_weights(new_s[0].1).to_set() != era_weights(
                    old_s[0].1,
                ).to_set())
                &&& r matches Some(v) ==> validator_weights(new_s[0].1, v@)
            }
        }),
{
    let ghost accs = accounts_view(accounts@);
    let ghost s0 = *state;
    let old_snapshot = state.read_snapshot();
    let ghost old_s = snapshot_view(old_snapshot@);
    let new_snapshot = if only_listed_validators {
        let first_era = old_snapshot[0].0;
        gen_snapshot_only_listed(first_era, old_snapshot.len() as u64, accounts)
    } else {
        proof {
            assert forall|i: int| 0 <= i < old_snapshot@.len() implies sorted(#[trigger] old_snapshot@[i].1@) by {
                assert(old_s[i].1 == era_view(old_snapshot@[i].1@));
                lemma_sorted_view(old_snapshot@[i].1@, |r: super::recipients::SeigniorageRecipientV2| r@);
            }
        }
        let copy = copy_snapshot(&old_snapshot);
        proof {
            assert forall|i: int| 0 <= i < copy@.len() implies sorted(#[trigger] copy@[i].1@) by {
                assert(snapshot_view(copy@)[i].1 == era_view(copy@[i].1@));
                assert(snapshot_wf(old_s));
                assert(super::recipients::era_wf(old_s[i].1));
                lemma_sorted_view(copy@[i].1@, |r: super::recipients::SeigniorageRecipientV2| r@);
            }
        }
        gen_snapshot_from_old(copy, accounts)
    };
    let ghost new_s = snapshot_view(new_snapshot@);
    proof {
        assert(new_s =~= new_snapshot_view(old_s, accs, only_listed_validators));
    }
    if same_snapshot(&new_snapshot, &old_snapshot) {
        return None;
    }
    proof {
        if !only_listed_validators && old_s.len() == 0 {
            assert(new_s =~= old_s);
        }
    }
    state.write_snapshot(&new_snapshot);
    let validators_diff = validators_diff(&old_snapshot, &new_snapshot);
    let bids = state.get_bids();
    let ghost s1 = *state;
    if slash_instead_of_unbonding {
        purge_removed(state, &bids, &validators_diff.removed);
    }
    let ghost s2 = *state;
    proof {
        assert(new_s.len() > 0);
        let last = new_s.last().1;
        assert(last == era_view(new_snapshot@.last().1@));
        if only_listed_validators {
            lemma_listed_validators_sorted(accs);
            assert(last == listed_validators(accs));
        } else {
            let old_last = old_s.last().1;
            assert(last == updated_era(old_last, validators_entries(accs)));
            assert(snapshot_wf(old_s));
            assert(super::recipients::era_wf(old_last));
            assert(stakes_sorted(old_last)) by {
                assert forall|i: int| 0 <= i < old_last.len() implies sorted(#[trigger] old_last[i].1.delegator_stake) by {
                    assert(super::recipients::recipient_wf(old_last[i].1));
                }
            }
            lemma_updated_era_sorted(old_last, validators_entries(accs));
        }
        assert(stakes_sorted(last));
        assert forall|j: int| 0 <= j < new_snapshot@.last().1@.len() implies sorted(
            #[trigger] new_snapshot@.last().1@[j].1.delegator_stake@,
        ) by {
            assert(last[j].1 == new_snapshot@.last().1@[j].1@);
            assert(sorted(last[j].1.delegator_stake));
        }
        if only_listed_validators {
            let first = new_s[0].1;
            assert(first == era_view(new_snapshot@[0].1@));
            lemma_sorted_view(new_snapshot@[0].1@, |r: super::recipients::SeigniorageRecipientV2| r@);
            assert forall|j: int| 0 <= j < new_snapshot@[0].1@.len() implies total_stake_value(
                #[trigger] new_snapshot@[0].1@[j].1@,
            ) < u512_bound() by {
                assert(first[j].1 == new_snapshot@[0].1@[j].1@);
            }
        }
    }
    add_and_remove_bids(
        state,
        &validators_diff,
        &new_snapshot,
        only_listed_validators,
        slash_instead_of_unbonding,
    );
    proof {
        let first = new_s[0].1;
        assert forall|j: int| 0 <= j < new_snapshot@[0].1@.len() implies total_stake_value(
            #[trigger] new_snapshot@[0].1@[j].1@,
        ) < u512_bound() by {
            assert(first[j].1 == new_snapshot@[0].1@[j].1@);
        }
        let n = s0.spec_effects().len() as int;
        let e = state.spec_effects();
        let m = s2.spec_effects().len() as int;
        let bids0 = s0.spec_bids();
        let removed = removed_validators(old_s, new_s);
        assert(bids@ == bids0);
        assert(s1.spec_effects() == s0.spec_effects().push(TrackerEffect::WriteSnapshot(new_s)).push(
            TrackerEffect::ReadBids(bids0),
        ));
        let purges = slash_purges(slash_instead_of_unbonding, bids0, removed);
        assert(s2.spec_effects() =~= s1.spec_effects() + purges);
        assert(m == n + 2 + purges.len());
        assert(e.take(m) == s2.spec_effects());
        assert(e.take(n) =~= s2.spec_effects().take(n));
        assert(e[n] == s2.spec_effects()[n]);
        assert(e[n + 1] == s2.spec_effects()[n + 1]);
        assert(e.subrange(n + 2, m) =~= s2.spec_effects().subrange(n + 2, m));
        assert(s2.spec_effects().subrange(n + 2, m) =~= purges);
        assert(new_s.last().1 == era_view(new_snapshot@.last().1@));
        assert(s2.spec_bids() == bids0);
    }
    let infos = next_validators(&new_snapshot);
    proof {
        assert(era_view(new_snapshot@[0].1@) == new_s[0].1);
        let n = s0.spec_effects().len() as int;
        let e = state.spec_effects();
        let bids0 = s0.spec_bids();
        let removed = removed_validators(old_s, new_s);
        let purges = slash_purges(slash_instead_of_unbonding, bids0, removed);
        let m = after_purges(n, purges);
        assert(m == s2.spec_effects().len());
        assert(e.len() > m);
        assert(e.subrange(n + 2, m) == purges);
        assert(auction_updated(
            s0.spec_snapshot(),
            bids0,
            s0.spec_effects(),
            e,
            accs,
            only_listed_validators,
            slash_instead_of_unbonding,
        ));
        lemma_validator_weights(new_s[0].1, infos@);
        assert(old_s.len() > 0);
        assert(era_view(old_snapshot@[0].1@) == old_s[0].1);
        let old_first = old_s[0].1;
        assert(snapshot_wf(old_s));
        assert(super::recipients::era_wf(old_first));
        if only_listed_validators {
            lemma_listed_validators_sorted(accs);
        } else {
            assert(stakes_sorted(old_first)) by {
                assert forall|i: int| 0 <= i < old_first.len() implies sorted(#[trigger] old_first[i].1.delegator_stake) by {
                    assert(super::recipients::recipient_wf(old_first[i].1));
                }
            }
            lemma_updated_era_sorted(old_first, validators_entries(accs));
        }
        lemma_weights_differ(new_s[0].1, old_first);
    }
    if same_weights(&old_snapshot[0].1, &infos) {
        None
    } else {
        Some(infos)
    }
}

} // verus!

verus! {

/// The generic update of a configuration: its transfers, in order; then the balances of the
/// accounts that set one; then the auction. Returns the validators of the next era with their
/// weights when that set changes, `None` when it stays.
pub fn get_update<T: StateTracker>(state: &mut T, config: &Config) -> (r: Option<Vec<ValidatorInfo>>)
    requires
        auction_update_defined(
            old(state).spec_snapshot(),
            old(state).spec_bids(),
            accounts_view(config.accounts@),
            config.only_listed_validators,
        ),
    ensures
        ({
            let accounts = accounts_view(config.accounts@);
            let old_s = old(state).spec_snapshot();
            let n0 = old(state).spec_effects().len() as int;
            let e = final(state).spec_effects();
            let transfers = config.transfers@.map_values(|t: Transfer| TrackerEffect::Transfer(t));
            let bal = balance_accounts(accounts);
            let n1 = n0 + transfers.len();
            let n2 = n1 + bal.len();
            &&& e.len() >= n2
            &&& e.take(n1) == old(state).spec_effects() + transfers
            &&& forall|k: int| 0 <= k < bal.len() ==> sets_balance(e[n1 + k], #[trigger] bal[k])
            &&& new_snapshot_view(old_s, accounts, config.only_listed_validators) == old_s ==> r is None
                && e.len() == n2
            &&& new_snapshot_view(old_s, accounts, config.only_listed_validators) != old_s ==> {
                let new_s = new_snapshot_view(old_s, accounts, config.only_listed_validators);
                &&& auction_updated(
                    old_s,
                    old(state).spec_bids(),
                    e.take(n2),
                    e,
                    accounts,
                    config.only_listed_validators,
                    config.slash_instead_of_unbonding,
                )
                &&& (r is Some <==> era_weights(new_s[0].1).to_set() != era_weights(
                    old_s[0].1,
                ).to_set())
                &&& r matches Some(v) ==> validator_weights(new_s[0].1, v@)
            }
        }),
{
    let ghost s0 = *state;
    process_transfers(state, config.transfers.as_slice());
    let ghost s1 = *state;
    update_account_balances(state, config.accounts.as_slice());
    let ghost s2 = *state;
    let r = update_auction_state(
        state,
        config.accounts.as_slice(),
        config.only_listed_validators,
        config.slash_instead_of_unbonding,
    );
    proof {
        let n1 = s1.spec_effects().len() as int;
        let n2 = s2.spec_effects().len() as int;
        let e = state.spec_effects();
        assert(e.take(n2) == s2.spec_effects()) by {
            if r is Some {
                assert(e.take(n2) =~= s2.spec_effects());
            }
        }
        assert(e.take(n1) =~= s2.spec_effects().take(n1));
        assert forall|k: int| 0 <= k < balance_accounts(accounts_view(config.accounts@)).len() implies sets_balance(
            e[n1 + k],
            #[trigger] balance_accounts(accounts_view(config.accounts@))[k],
        ) by {
            assert(e[n1 + k] == s2.spec_effects()[n1 + k]);
        }
    }
    r
}

} // verus!
