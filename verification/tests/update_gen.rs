use casper_core::auction::bid_kind::BidKind;
use casper_core::auction::bids::{
    Bid, DelegatorBid, DelegatorKind, EraId, Reservation, ValidatorBid,
};
use casper_core::keys::{AccessRights, AccountHash, PublicKey, URef};
use casper_core::u512::U512;
use casper_core::update_gen::config::{
    AccountConfig, DelegatorConfig, ReservationConfig, Transfer, ValidatorConfig,
};
use casper_core::update_gen::generic::{
    add_and_remove_bids, create_or_update_bid, find_large_bids, gen_snapshot_from_old,
    gen_snapshot_only_listed, process_transfers, update_account_balances, ValidatorsDiff,
};
use casper_core::update_gen::auction_state::{
    get_update, same_snapshot, update_auction_state, validators_diff, ValidatorInfo,
};
use casper_core::update_gen::config::Config;
use casper_core::update_gen::recipients::{
    copy_era, RecipientView, SeigniorageRecipientV2, SeigniorageRecipientsSnapshotV2,
};
use casper_core::update_gen::tracker::{StateTracker, TrackerEffect, TrackerState};
use vstd::seq::Seq;

fn u(v: u64) -> U512 {
    U512::from_u64(v)
}

#[derive(Debug, Clone, PartialEq)]
enum Ev {
    ReadBids(usize),
    SetBid(BidKind, bool),
    CreatePurse(U512, URef),
    Transfer(Transfer),
    SetPurseBalance(URef, U512),
    CreateEntity(AccountHash, U512),
    RemoveWithdraws(URef),
    WriteSnapshot(usize),
}

/// Global state as a list of bid records and a list of accounts with their main purses.
struct TestTracker {
    bids: Vec<BidKind>,
    accounts: Vec<(AccountHash, URef)>,
    snapshot: SeigniorageRecipientsSnapshotV2,
    events: Vec<Ev>,
    next_purse: u8,
}

impl TestTracker {
    fn new(bids: Vec<BidKind>) -> Self {
        TestTracker { bids, accounts: vec![], snapshot: vec![], events: vec![], next_purse: 100 }
    }
}

fn copy_snapshot(s: &SeigniorageRecipientsSnapshotV2) -> SeigniorageRecipientsSnapshotV2 {
    s.iter().map(|(era, recipients)| (*era, copy_era(recipients))).collect()
}

impl TrackerState for TestTracker {
    fn spec_bids(&self) -> Seq<BidKind> {
        unreachable!("only used in proofs")
    }
    fn spec_main_purse(&self, _account_hash: AccountHash) -> Option<URef> {
        unreachable!("only used in proofs")
    }
    fn spec_snapshot(&self) -> Seq<(EraId, Seq<(PublicKey, RecipientView)>)> {
        unreachable!("only used in proofs")
    }
    fn spec_effects(&self) -> Seq<TrackerEffect> {
        unreachable!("only used in proofs")
    }
}

impl StateTracker for TestTracker {
    fn read_snapshot(&mut self) -> SeigniorageRecipientsSnapshotV2 {
        copy_snapshot(&self.snapshot)
    }
    fn write_snapshot(&mut self, snapshot: &SeigniorageRecipientsSnapshotV2) {
        self.events.push(Ev::WriteSnapshot(snapshot.len()));
        self.snapshot = copy_snapshot(snapshot);
    }
    fn get_bids(&mut self) -> Vec<BidKind> {
        self.events.push(Ev::ReadBids(self.bids.len()));
        self.bids.clone()
    }
    fn set_bid(&mut self, bid: BidKind, slash_instead_of_unbonding: bool) {
        self.events.push(Ev::SetBid(bid.clone(), slash_instead_of_unbonding));
        let addr = bid.bid_addr();
        match self.bids.iter_mut().find(|b| b.bid_addr() == addr) {
            Some(b) => *b = bid,
            None => self.bids.push(bid),
        }
    }
    fn create_purse(&mut self, amount: U512) -> URef {
        let purse = URef::new([self.next_purse; 32], AccessRights(7));
        self.next_purse += 1;
        self.events.push(Ev::CreatePurse(amount, purse));
        purse
    }
    fn execute_transfer(&mut self, transfer: &Transfer) {
        self.events.push(Ev::Transfer(*transfer));
    }
    fn get_account(&mut self, account_hash: &AccountHash) -> Option<URef> {
        self.accounts.iter().find(|(h, _)| h == account_hash).map(|(_, p)| *p)
    }
    fn set_purse_balance(&mut self, purse: URef, balance: U512) {
        self.events.push(Ev::SetPurseBalance(purse, balance));
    }
    fn create_addressable_entity_for_account(&mut self, account_hash: AccountHash, balance: U512) {
        self.events.push(Ev::CreateEntity(account_hash, balance));
    }
    fn remove_withdraws_and_unbonds_with_bonding_purse(&mut self, bonding_purse: &URef) {
        self.events.push(Ev::RemoveWithdraws(*bonding_purse));
    }
}

fn ed(b: u8) -> PublicKey {
    PublicKey::Ed25519([b; 32])
}

fn purse(b: u8) -> URef {
    URef::new([b; 32], AccessRights(7))
}

fn validator_account(pk: PublicKey, stake: u64, rate: Option<u8>, delegators: Option<Vec<DelegatorConfig>>) -> AccountConfig {
    AccountConfig {
        public_key: pk,
        balance: None,
        validator: Some(ValidatorConfig {
            bonded_amount: u(stake),
            delegation_rate: rate,
            delegators,
            reservations: None,
        }),
    }
}

fn recipient(stake: u64, rate: u8, delegators: Vec<(DelegatorKind, U512)>) -> SeigniorageRecipientV2 {
    SeigniorageRecipientV2::new(u(stake), rate, delegators, vec![])
}

fn keys_of(era: &[(PublicKey, SeigniorageRecipientV2)]) -> Vec<PublicKey> {
    era.iter().map(|(k, _)| *k).collect()
}

#[test]
fn snapshot_of_only_listed_validators() {
    let accounts = vec![
        validator_account(PublicKey::Secp256k1([1; 33]), 20, None, None),
        validator_account(ed(2), 9, Some(5), Some(vec![DelegatorConfig { public_key: ed(9), delegated_amount: u(3) }])),
        validator_account(ed(1), 0, None, None),
        AccountConfig { public_key: ed(4), balance: Some(u(1)), validator: None },
        // A later entry for the same key replaces the earlier one.
        validator_account(ed(2), 10, Some(5), Some(vec![DelegatorConfig { public_key: ed(9), delegated_amount: u(3) }])),
    ];
    let snapshot = gen_snapshot_only_listed(EraId::new(7), 3, &accounts);
    assert_eq!(snapshot.len(), 3);
    for (i, (era, recipients)) in snapshot.iter().enumerate() {
        assert_eq!(*era, EraId::new(7 + i as u64));
        // Ed25519 keys order before Secp256k1 keys.
        assert_eq!(keys_of(recipients), vec![ed(2), PublicKey::Secp256k1([1; 33])]);
        assert_eq!(*recipients[0].1.stake(), u(10));
        assert_eq!(*recipients[0].1.delegation_rate(), 5);
        assert_eq!(recipients[0].1.delegator_stake(), &vec![(DelegatorKind::PublicKey(ed(9)), u(3))]);
        assert_eq!(recipients[0].1.total_stake(), Some(u(13)));
        assert_eq!(*recipients[1].1.delegation_rate(), 0);
    }
    assert!(gen_snapshot_only_listed(EraId::new(7), 0, &accounts).is_empty());
}

#[test]
fn snapshot_from_old_updates_each_era() {
    let old: SeigniorageRecipientsSnapshotV2 = vec![
        (EraId::new(1), vec![(ed(1), recipient(5, 1, vec![])), (ed(3), recipient(7, 2, vec![]))]),
        (EraId::new(2), vec![(ed(3), recipient(8, 2, vec![]))]),
    ];
    let accounts = vec![
        validator_account(ed(1), 0, None, None),
        validator_account(ed(3), 9, None, None),
        validator_account(ed(2), 4, Some(6), None),
    ];
    let new = gen_snapshot_from_old(old, &accounts);
    assert_eq!(new.len(), 2);
    for (era, recipients) in &new {
        assert!(*era == EraId::new(1) || *era == EraId::new(2));
        assert_eq!(keys_of(recipients), vec![ed(2), ed(3)]);
        assert_eq!(*recipients[0].1.stake(), u(4));
        assert_eq!(*recipients[0].1.delegation_rate(), 6);
        assert_eq!(*recipients[1].1.stake(), u(9));
        // Without a configured rate the old one stays.
        assert_eq!(*recipients[1].1.delegation_rate(), 2);
    }
}

#[test]
fn delegators_map_keeps_the_last_entry_of_a_key() {
    let v = ValidatorConfig {
        bonded_amount: u(1),
        delegation_rate: None,
        delegators: Some(vec![
            DelegatorConfig { public_key: ed(9), delegated_amount: u(3) },
            DelegatorConfig { public_key: ed(8), delegated_amount: u(2) },
            DelegatorConfig { public_key: ed(9), delegated_amount: u(5) },
        ]),
        reservations: Some(vec![ReservationConfig { public_key: ed(7), delegation_rate: 10 }]),
    };
    assert_eq!(
        v.delegators_map(),
        Some(vec![(DelegatorKind::PublicKey(ed(8)), u(2)), (DelegatorKind::PublicKey(ed(9)), u(5))])
    );
    assert_eq!(v.reservations_map(), Some(vec![(DelegatorKind::PublicKey(ed(7)), 10)]));
    let none = ValidatorConfig { bonded_amount: u(1), delegation_rate: None, delegators: None, reservations: None };
    assert_eq!(none.delegators_map(), None);
}

#[test]
fn a_new_validator_gets_purses_and_bids() {
    let mut state = TestTracker::new(vec![]);
    let up = recipient(10, 5, vec![(DelegatorKind::PublicKey(ed(9)), u(3))]);
    create_or_update_bid(&mut state, &ed(2), &up, false);
    assert_eq!(
        state.events,
        vec![
            Ev::ReadBids(0),
            Ev::CreatePurse(u(3), purse(100)),
            Ev::SetBid(
                BidKind::Delegator(Box::new(DelegatorBid::unlocked(
                    DelegatorKind::PublicKey(ed(9)),
                    u(3),
                    purse(100),
                    ed(2)
                ))),
                false
            ),
            Ev::CreatePurse(u(10), purse(101)),
            Ev::SetBid(
                BidKind::Validator(Box::new(ValidatorBid::unlocked(ed(2), purse(101), u(10), 5, 0, u64::MAX, 0))),
                false
            ),
        ]
    );
    // Nothing is created for a validator with no stake.
    let mut state = TestTracker::new(vec![]);
    create_or_update_bid(&mut state, &ed(2), &recipient(0, 5, vec![]), true);
    assert_eq!(state.events, vec![Ev::ReadBids(0)]);
}

fn existing_bids() -> Vec<BidKind> {
    let mut vb = ValidatorBid::unlocked(ed(2), purse(20), u(10), 5, 1, 1_000, 3);
    vb.inactive = false;
    vec![
        BidKind::Validator(Box::new(vb)),
        BidKind::Delegator(Box::new(DelegatorBid::unlocked(DelegatorKind::PublicKey(ed(9)), u(3), purse(21), ed(2)))),
        BidKind::Reservation(Box::new(Reservation::new(ed(2), DelegatorKind::PublicKey(ed(7)), 10))),
    ]
}

#[test]
fn an_unchanged_validator_is_left_alone() {
    let mut state = TestTracker::new(existing_bids());
    let up = SeigniorageRecipientV2::new(
        u(10),
        5,
        vec![(DelegatorKind::PublicKey(ed(9)), u(3))],
        vec![(DelegatorKind::PublicKey(ed(7)), 10)],
    );
    create_or_update_bid(&mut state, &ed(2), &up, false);
    assert_eq!(state.events, vec![Ev::ReadBids(3)]);
}

#[test]
fn a_changed_validator_updates_its_delegations_and_bid() {
    let mut state = TestTracker::new(existing_bids());
    let up = recipient(12, 6, vec![(DelegatorKind::PublicKey(ed(9)), u(4)), (DelegatorKind::Purse([4; 32]), u(1))]);
    create_or_update_bid(&mut state, &ed(2), &up, true);
    let expected = vec![
            Ev::ReadBids(3),
            Ev::SetBid(
                BidKind::Delegator(Box::new(DelegatorBid::unlocked(DelegatorKind::PublicKey(ed(9)), u(4), purse(21), ed(2)))),
                true
            ),
            Ev::CreatePurse(u(1), purse(100)),
            Ev::SetBid(
                BidKind::Delegator(Box::new(DelegatorBid::unlocked(DelegatorKind::Purse([4; 32]), u(1), purse(100), ed(2)))),
                true
            ),
            Ev::SetBid(
                BidKind::Validator(Box::new(ValidatorBid::unlocked(ed(2), purse(20), u(12), 6, 1, 1_000, 3))),
                true
            ),
        ];
    assert_eq!(state.events, expected);
    // A delegator the recipient lacks is emptied.
    let mut state = TestTracker::new(existing_bids());
    create_or_update_bid(&mut state, &ed(2), &recipient(10, 5, vec![]), false);
    assert_eq!(
        state.events,
        vec![
            Ev::ReadBids(3),
            Ev::SetBid(
                BidKind::Delegator(Box::new(DelegatorBid::empty(ed(2), DelegatorKind::PublicKey(ed(9)), purse(21)))),
                false
            ),
        ]
    );
}

#[test]
fn a_unified_bid_is_compared_with_its_own_delegators() {
    let mut unified = Bid::unlocked(ed(2), purse(20), u(10), 5);
    unified.delegators = vec![(ed(9), u(3))];
    let mut state = TestTracker::new(vec![BidKind::Unified(Box::new(unified))]);
    create_or_update_bid(&mut state, &ed(2), &recipient(10, 5, vec![(DelegatorKind::PublicKey(ed(9)), u(3))]), false);
    assert_eq!(state.events, vec![Ev::ReadBids(1)]);
}

#[test]
fn large_bids_outbid_the_smallest_new_validator() {
    let bids = vec![
        BidKind::Validator(Box::new(ValidatorBid::unlocked(ed(5), purse(1), u(100), 0, 0, u64::MAX, 0))),
        BidKind::Validator(Box::new(ValidatorBid::unlocked(ed(6), purse(2), u(10), 0, 0, u64::MAX, 0))),
        BidKind::Delegator(Box::new(DelegatorBid::unlocked(DelegatorKind::Purse([3; 32]), u(50), purse(3), ed(6)))),
        BidKind::Validator(Box::new(ValidatorBid::unlocked(ed(7), purse(4), u(10), 0, 0, u64::MAX, 0))),
        BidKind::Validator(Box::new(ValidatorBid::unlocked(ed(2), purse(5), u(1_000), 0, 0, u64::MAX, 0))),
    ];
    let snapshot: SeigniorageRecipientsSnapshotV2 =
        vec![(EraId::new(1), vec![(ed(2), recipient(30, 0, vec![])), (ed(3), recipient(20, 0, vec![(DelegatorKind::Purse([1; 32]), u(5))]))])];
    let mut state = TestTracker::new(bids);
    // The smallest new total is 25: ed(5) outbids it alone, ed(6) with its delegation; ed(2)
    // is a new validator itself.
    assert_eq!(find_large_bids(&mut state, &snapshot), vec![(ed(5), ()), (ed(6), ())]);
    assert!(state.events.iter().all(|e| *e == Ev::ReadBids(5)));
}

#[test]
fn removed_validators_are_reset() {
    let bids = vec![
        BidKind::Validator(Box::new(ValidatorBid::unlocked(ed(1), purse(10), u(40), 3, 2, 900, 4))),
        BidKind::Delegator(Box::new(DelegatorBid::unlocked(DelegatorKind::Purse([3; 32]), u(5), purse(11), ed(1)))),
        BidKind::Validator(Box::new(ValidatorBid::unlocked(ed(2), purse(20), u(10), 5, 0, u64::MAX, 0))),
    ];
    let diff = ValidatorsDiff { added: vec![], removed: vec![(ed(1), ())] };
    let snapshot: SeigniorageRecipientsSnapshotV2 = vec![(EraId::new(3), vec![(ed(2), recipient(50, 5, vec![]))])];
    let mut state = TestTracker::new(bids);
    add_and_remove_bids(&mut state, &diff, &snapshot, false, true);
    let mut reset = ValidatorBid::unlocked(ed(1), purse(10), U512::zero(), 0, 2, 900, 0);
    reset.inactive = false;
    assert_eq!(state.events[0], Ev::ReadBids(3));
    assert_eq!(
        state.events[1],
        Ev::SetBid(BidKind::Validator(Box::new(ValidatorBid::unlocked(ed(2), purse(20), u(50), 5, 0, u64::MAX, 0))), true)
    );
    assert_eq!(state.events[2], Ev::ReadBids(3));
    assert_eq!(state.events[3], Ev::SetBid(BidKind::Validator(Box::new(reset)), true));
    assert_eq!(
        state.events[4],
        Ev::SetBid(BidKind::Delegator(Box::new(DelegatorBid::empty(ed(1), DelegatorKind::Purse([3; 32]), purse(11)))), true)
    );
    assert_eq!(state.events.len(), 5);
}

#[test]
fn transfers_and_balances() {
    let t1 = Transfer { from: AccountHash([1; 32]), to: AccountHash([2; 32]), amount: u(5) };
    let t2 = Transfer { from: AccountHash([2; 32]), to: AccountHash([3; 32]), amount: u(1) };
    let mut state = TestTracker::new(vec![]);
    process_transfers(&mut state, &[t1, t2]);
    assert_eq!(state.events, vec![Ev::Transfer(t1), Ev::Transfer(t2)]);

    let known = ed(1);
    let mut state = TestTracker::new(vec![]);
    state.accounts.push((known.to_account_hash(), purse(9)));
    let accounts = vec![
        AccountConfig { public_key: known, balance: Some(u(7)), validator: None },
        AccountConfig { public_key: ed(2), balance: None, validator: None },
        AccountConfig { public_key: ed(3), balance: Some(u(8)), validator: None },
    ];
    update_account_balances(&mut state, &accounts);
    assert_eq!(
        state.events,
        vec![Ev::SetPurseBalance(purse(9), u(7)), Ev::CreateEntity(ed(3).to_account_hash(), u(8))]
    );
}

#[test]
fn validators_diff_compares_all_eras() {
    let old: SeigniorageRecipientsSnapshotV2 = vec![
        (EraId::new(1), vec![(ed(1), recipient(5, 0, vec![])), (ed(3), recipient(5, 0, vec![]))]),
        (EraId::new(2), vec![(ed(4), recipient(5, 0, vec![]))]),
    ];
    let new: SeigniorageRecipientsSnapshotV2 = vec![
        (EraId::new(1), vec![(ed(2), recipient(5, 0, vec![])), (ed(3), recipient(5, 0, vec![]))]),
        (EraId::new(2), vec![(ed(5), recipient(5, 0, vec![]))]),
    ];
    let diff = validators_diff(&old, &new);
    assert_eq!(diff.added, vec![(ed(2), ()), (ed(5), ())]);
    assert_eq!(diff.removed, vec![(ed(1), ()), (ed(4), ())]);
    assert!(same_snapshot(&old, &copy_snapshot(&old)));
    assert!(!same_snapshot(&old, &new));
    let mut changed_rate = copy_snapshot(&old);
    changed_rate[1].1[0].1.delegation_rate = 9;
    assert!(!same_snapshot(&old, &changed_rate));
}

#[test]
fn an_unchanged_snapshot_updates_nothing() {
    let mut state = TestTracker::new(existing_bids());
    state.snapshot = vec![(EraId::new(1), vec![(ed(2), recipient(10, 5, vec![]))])];
    let accounts = vec![validator_account(ed(2), 10, None, None)];
    assert_eq!(update_auction_state(&mut state, &accounts, false, false), None);
    assert!(state.events.is_empty());
}

#[test]
fn a_changed_snapshot_is_written_and_the_bids_follow() {
    let mut state = TestTracker::new(vec![
        BidKind::Validator(Box::new(ValidatorBid::unlocked(ed(1), purse(10), u(40), 3, 0, u64::MAX, 0))),
        BidKind::Validator(Box::new(ValidatorBid::unlocked(ed(2), purse(20), u(10), 5, 0, u64::MAX, 0))),
    ]);
    state.snapshot = vec![
        (EraId::new(4), vec![(ed(1), recipient(40, 3, vec![])), (ed(2), recipient(10, 5, vec![]))]),
        (EraId::new(5), vec![(ed(1), recipient(40, 3, vec![])), (ed(2), recipient(10, 5, vec![]))]),
    ];
    let accounts = vec![
        validator_account(ed(2), 30, None, Some(vec![DelegatorConfig { public_key: ed(9), delegated_amount: u(7) }])),
    ];
    let validators = update_auction_state(&mut state, &accounts, true, true).unwrap();
    assert_eq!(validators, vec![ValidatorInfo { public_key: ed(2), weight: u(37) }]);
    assert_eq!(state.events[0], Ev::WriteSnapshot(2));
    assert_eq!(state.events[1], Ev::ReadBids(2));
    assert_eq!(state.events[2], Ev::RemoveWithdraws(purse(10)));
    assert_eq!(state.snapshot.len(), 2);
    assert_eq!(state.snapshot[1].0, EraId::new(5));
    assert_eq!(state.snapshot[1].1.len(), 1);
    // ed(1) is removed and its bid reset; ed(2) takes its new stake, the listed rate (none,
    // so zero) and its new delegator.
    let reset = ValidatorBid::unlocked(ed(1), purse(10), U512::zero(), 0, 0, u64::MAX, 0);
    assert!(state.events.contains(&Ev::SetBid(BidKind::Validator(Box::new(reset)), true)));
    assert!(state.events.contains(&Ev::SetBid(
        BidKind::Validator(Box::new(ValidatorBid::unlocked(ed(2), purse(20), u(30), 0, 0, u64::MAX, 0))),
        true
    )));
    assert!(state.events.contains(&Ev::CreatePurse(u(7), purse(100))));
}

#[test]
fn get_update_runs_transfers_balances_then_the_auction() {
    let mut state = TestTracker::new(vec![]);
    state.snapshot = vec![(EraId::new(1), vec![(ed(2), recipient(10, 5, vec![]))])];
    let t = Transfer { from: AccountHash([1; 32]), to: AccountHash([2; 32]), amount: u(5) };
    let config = Config {
        transfers: vec![t],
        accounts: vec![AccountConfig { public_key: ed(3), balance: Some(u(8)), validator: None }],
        only_listed_validators: false,
        slash_instead_of_unbonding: false,
        protocol_version: Default::default(),
    };
    assert_eq!(get_update(&mut state, &config), None);
    assert_eq!(state.events, vec![Ev::Transfer(t), Ev::CreateEntity(ed(3).to_account_hash(), u(8))]);
}

#[test]
fn a_changed_rate_keeps_the_validator_set() {
    let mut state = TestTracker::new(vec![BidKind::Validator(Box::new(ValidatorBid::unlocked(
        ed(2),
        purse(20),
        u(10),
        5,
        0,
        u64::MAX,
        0,
    )))]);
    state.snapshot = vec![(EraId::new(1), vec![(ed(2), recipient(10, 5, vec![]))])];
    let accounts = vec![validator_account(ed(2), 10, Some(9), None)];
    assert_eq!(update_auction_state(&mut state, &accounts, false, false), None);
    assert_eq!(state.events[0], Ev::WriteSnapshot(1));
    assert_eq!(state.snapshot[0].1[0].1.delegation_rate, 9);
}

#[test]
fn a_large_unified_bid_outbids_the_smallest_new_validator() {
    let mut large = Bid::unlocked(ed(8), purse(6), u(20), 0);
    large.delegators = vec![(ed(9), u(10))];
    let small = Bid::unlocked(ed(4), purse(7), u(20), 0);
    let bids = vec![BidKind::Unified(Box::new(large)), BidKind::Unified(Box::new(small))];
    let snapshot: SeigniorageRecipientsSnapshotV2 = vec![(EraId::new(1), vec![(ed(2), recipient(25, 0, vec![]))])];
    let mut state = TestTracker::new(bids);
    // ed(8) stakes 30 with its delegator, above the new validator's 25; ed(4) only 20.
    assert_eq!(find_large_bids(&mut state, &snapshot), vec![(ed(8), ())]);
    let mut total = Bid::unlocked(ed(8), purse(6), u(20), 0);
    total.delegators = vec![(ed(9), u(10)), (ed(10), u(5))];
    assert_eq!(total.total_staked_amount(), Some(u(35)));
}
