use casper_core::auction::bid_kind::{
    delegators_by_validator_public_key, reservations_by_validator_public_key, same_public_key,
    BidKind, BidKindTag,
};
use casper_core::auction::bids::{
    is_locked_with_vesting_schedule, Bid, BidAddr, Bridge, DelegatorBid, DelegatorKind, EraId,
    Reservation, UnbondKind, Unbond, ValidatorBid, ValidatorCredit, VestingSchedule,
    DEFAULT_VESTING_SCHEDULE_PERIOD_MILLIS,
};
use casper_core::keys::{AccessRights, AccountHash, PublicKey, URef};
use casper_core::u512::U512;

const SYSTEM_ACCOUNT_HASH: [u8; 32] = [
    97, 116, 207, 46, 111, 143, 237, 23, 21, 201, 163, 186, 206, 156, 80, 191, 229, 114, 238, 203,
    118, 59, 14, 211, 246, 68, 83, 38, 22, 69, 32, 8,
];
const ED25519_ONES_ACCOUNT_HASH: [u8; 32] = [
    158, 17, 242, 57, 55, 151, 207, 10, 36, 74, 126, 15, 148, 172, 106, 131, 189, 124, 170, 34, 9,
    239, 243, 182, 232, 2, 20, 162, 136, 218, 113, 238,
];
const SECP256K1_TWOS_ACCOUNT_HASH: [u8; 32] = [
    47, 54, 34, 69, 149, 116, 246, 179, 200, 163, 81, 34, 145, 100, 135, 20, 232, 136, 44, 114,
    192, 218, 24, 229, 159, 48, 82, 132, 248, 16, 242, 39,
];

fn validator() -> PublicKey {
    PublicKey::Ed25519([1u8; 32])
}

fn other_validator() -> PublicKey {
    PublicKey::Secp256k1([2u8; 33])
}

fn purse(b: u8) -> URef {
    URef::new([b; 32], AccessRights(7))
}

#[test]
fn account_hashes_are_blake2b_of_the_tagged_key() {
    assert_eq!(PublicKey::system_account_hash(), AccountHash(SYSTEM_ACCOUNT_HASH));
    assert_eq!(PublicKey::System.to_account_hash(), AccountHash(SYSTEM_ACCOUNT_HASH));
    assert_eq!(validator().to_account_hash(), AccountHash(ED25519_ONES_ACCOUNT_HASH));
    assert_eq!(other_validator().to_account_hash(), AccountHash(SECP256K1_TWOS_ACCOUNT_HASH));
    let mut preimage = b"ed25519\0".to_vec();
    preimage.extend_from_slice(&[1u8; 32]);
    assert_eq!(validator().account_hash_preimage(), preimage);
}

#[test]
fn bid_addresses_of_each_record() {
    let v_hash = AccountHash(ED25519_ONES_ACCOUNT_HASH);
    let d_hash = AccountHash(SECP256K1_TWOS_ACCOUNT_HASH);

    let unified = BidKind::Unified(Box::new(Bid::empty(validator(), purse(1))));
    assert_eq!(unified.bid_addr(), BidAddr::Unified(v_hash));

    let vb = BidKind::Validator(Box::new(ValidatorBid::empty(validator(), purse(1))));
    assert_eq!(vb.bid_addr(), BidAddr::Validator(v_hash));

    let by_key = BidKind::Delegator(Box::new(DelegatorBid::empty(
        validator(),
        DelegatorKind::PublicKey(other_validator()),
        purse(2),
    )));
    assert_eq!(by_key.bid_addr(), BidAddr::DelegatedAccount { validator: v_hash, delegator: d_hash });

    let by_purse = BidKind::Delegator(Box::new(DelegatorBid::empty(
        validator(),
        DelegatorKind::Purse([9u8; 32]),
        purse(2),
    )));
    assert_eq!(by_purse.bid_addr(), BidAddr::DelegatedPurse { validator: v_hash, delegator: [9u8; 32] });

    let bridge = BidKind::Bridge(Box::new(Bridge {
        old_validator_public_key: validator(),
        new_validator_public_key: other_validator(),
        era_id: EraId::new(4),
    }));
    assert_eq!(bridge.bid_addr(), BidAddr::Validator(v_hash));

    let credit = BidKind::Credit(Box::new(ValidatorCredit::new(validator(), EraId::new(3), U512::from_u64(5))));
    assert_eq!(credit.bid_addr(), BidAddr::Credit { validator: v_hash, era_id: EraId::new(3) });

    let reservation = BidKind::Reservation(Box::new(Reservation::new(
        validator(),
        DelegatorKind::PublicKey(other_validator()),
        10,
    )));
    assert_eq!(
        reservation.bid_addr(),
        BidAddr::ReservedDelegationAccount { validator: v_hash, delegator: d_hash }
    );
    let purse_reservation =
        BidKind::Reservation(Box::new(Reservation::new(validator(), DelegatorKind::Purse([8u8; 32]), 10)));
    assert_eq!(
        purse_reservation.bid_addr(),
        BidAddr::ReservedDelegationPurse { validator: v_hash, delegator: [8u8; 32] }
    );

    let unbond = BidKind::Unbond(Box::new(Unbond::new(validator(), UnbondKind::Validator(validator()), vec![])));
    assert_eq!(unbond.bid_addr(), BidAddr::UnbondAccount { validator: v_hash, unbonder: v_hash });
    let purse_unbond =
        BidKind::Unbond(Box::new(Unbond::new(validator(), UnbondKind::DelegatedPurse([7u8; 32]), vec![])));
    assert_eq!(purse_unbond.bid_addr(), BidAddr::UnbondPurse { validator: v_hash, unbonder: [7u8; 32] });
}

#[test]
fn tags_and_predicates_agree() {
    let records = vec![
        BidKind::Unified(Box::new(Bid::empty(validator(), purse(1)))),
        BidKind::Validator(Box::new(ValidatorBid::empty(validator(), purse(1)))),
        BidKind::Delegator(Box::new(DelegatorBid::empty(validator(), DelegatorKind::Purse([1; 32]), purse(1)))),
        BidKind::Bridge(Box::new(Bridge {
            old_validator_public_key: validator(),
            new_validator_public_key: other_validator(),
            era_id: EraId::new(1),
        })),
        BidKind::Credit(Box::new(ValidatorCredit::empty(validator(), EraId::new(1)))),
        BidKind::Reservation(Box::new(Reservation::new(validator(), DelegatorKind::Purse([1; 32]), 0))),
        BidKind::Unbond(Box::new(Unbond::new(validator(), UnbondKind::Validator(validator()), vec![]))),
    ];
    let tags = [
        BidKindTag::Unified,
        BidKindTag::Validator,
        BidKindTag::Delegator,
        BidKindTag::Bridge,
        BidKindTag::Credit,
        BidKindTag::Reservation,
        BidKindTag::Unbond,
    ];
    for (record, tag) in records.iter().zip(tags.iter()) {
        assert_eq!(record.tag(), *tag);
        assert_eq!(BidKindTag::from_value(tag.value()), Some(*tag));
        assert_eq!(record.is_unified(), *tag == BidKindTag::Unified);
        assert_eq!(record.is_validator(), *tag == BidKindTag::Validator);
        assert_eq!(record.is_delegator(), *tag == BidKindTag::Delegator);
        assert_eq!(record.is_bridge(), *tag == BidKindTag::Bridge);
        assert_eq!(record.is_credit(), *tag == BidKindTag::Credit);
        assert_eq!(record.is_reservation(), *tag == BidKindTag::Reservation);
        assert_eq!(record.is_unbond(), *tag == BidKindTag::Unbond);
        assert_eq!(record.validator_public_key(), validator());
    }
    assert_eq!(BidKindTag::from_value(7), None);
    assert_eq!(records[3].new_validator_public_key(), Some(other_validator()));
    assert_eq!(records[0].new_validator_public_key(), None);
    assert_eq!(records[3].era_id(), Some(EraId::new(1)));
    assert_eq!(records[4].era_id(), Some(EraId::new(1)));
    assert_eq!(records[1].era_id(), None);
    assert!(records[4].inactive());
    assert!(records[2].inactive());
    assert!(!records[0].inactive());
    assert_eq!(records[5].delegator_kind(), Some(DelegatorKind::Purse([1; 32])));
    assert_eq!(records[6].unbond_kind(), Some(UnbondKind::Validator(validator())));
    assert_eq!(records[0].staked_amount(), Some(U512::zero()));
    assert_eq!(records[3].staked_amount(), None);
    assert_eq!(records[2].bonding_purse(), Some(purse(1)));
    assert_eq!(records[5].bonding_purse(), None);
}

#[test]
fn vesting_schedule_locks_until_release_plus_period() {
    let mut bid = ValidatorBid::unlocked(validator(), purse(1), U512::from_u64(10), 5, 0, 100, 2);
    assert!(!BidKind::Validator(Box::new(bid)).is_locked(0));
    bid.vesting_schedule = Some(VestingSchedule::new(1000));
    let record = BidKind::Validator(Box::new(bid));
    assert!(record.is_locked(1000 + DEFAULT_VESTING_SCHEDULE_PERIOD_MILLIS - 1));
    assert!(!record.is_locked(1000 + DEFAULT_VESTING_SCHEDULE_PERIOD_MILLIS));
    assert!(record.is_locked_with_vesting_schedule(1009, 10));
    assert!(!record.is_locked_with_vesting_schedule(1010, 10));
    assert_eq!(record.vesting_schedule(), Some(&VestingSchedule::new(1000)));
    // The release time saturates instead of overflowing.
    assert!(VestingSchedule::new(u64::MAX - 1).is_vesting(u64::MAX - 1, 10));
    assert!(!is_locked_with_vesting_schedule(&None, 0, 10));
}

#[test]
fn validator_bid_constructors() {
    let mut bid = ValidatorBid::empty(validator(), purse(1));
    assert_eq!(bid.minimum_delegation_amount, 0);
    assert_eq!(bid.maximum_delegation_amount, u64::MAX);
    bid.set_delegation_amount_boundaries(5, 50);
    assert_eq!((bid.minimum_delegation_amount, bid.maximum_delegation_amount), (5, 50));
    let mut unified = Bid::unlocked(validator(), purse(3), U512::from_u64(77), 9);
    unified.inactive = true;
    let from = ValidatorBid::from_bid(&unified);
    assert_eq!(from.staked_amount, U512::from_u64(77));
    assert_eq!(from.delegation_rate, 9);
    assert!(from.inactive);
    assert_eq!(from.bonding_purse, purse(3));
    let d = DelegatorBid::unlocked(DelegatorKind::Purse([4; 32]), U512::from_u64(3), purse(4), validator());
    assert_eq!(d.staked_amount, U512::from_u64(3));
    assert_eq!(d.vesting_schedule, None);
}

#[test]
fn delegators_and_reservations_by_validator() {
    let d1 = DelegatorBid::unlocked(DelegatorKind::Purse([1; 32]), U512::from_u64(1), purse(1), validator());
    let d2 = DelegatorBid::unlocked(DelegatorKind::Purse([2; 32]), U512::from_u64(2), purse(2), other_validator());
    let d3 = DelegatorBid::unlocked(DelegatorKind::Purse([3; 32]), U512::from_u64(3), purse(3), validator());
    let r1 = Reservation::new(validator(), DelegatorKind::Purse([5; 32]), 4);
    let bids = vec![
        BidKind::Delegator(Box::new(d1)),
        BidKind::Validator(Box::new(ValidatorBid::empty(validator(), purse(9)))),
        BidKind::Delegator(Box::new(d2)),
        BidKind::Reservation(Box::new(r1)),
        BidKind::Delegator(Box::new(d3)),
    ];
    assert_eq!(delegators_by_validator_public_key(&bids, &validator()), Some(vec![d1, d3]));
    assert_eq!(delegators_by_validator_public_key(&bids, &other_validator()), Some(vec![d2]));
    assert_eq!(delegators_by_validator_public_key(&bids, &PublicKey::System), None);
    assert_eq!(reservations_by_validator_public_key(&bids, &validator()), Some(vec![r1]));
    assert_eq!(reservations_by_validator_public_key(&bids, &other_validator()), None);
    assert!(same_public_key(&validator(), &PublicKey::Ed25519([1u8; 32])));
    assert!(!same_public_key(&validator(), &other_validator()));
}
