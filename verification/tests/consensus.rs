use casper_core::consensus::evidence::{
    Context, Evidence, EvidenceError, Params, SignedEndorsement, SignedWireUnit, ValidatorIndex,
    Validators, WireUnit,
};
use casper_core::consensus::weight::Weight;

/// A signature is valid when it is the hash xor the validator's key.
struct XorContext;

impl Context for XorContext {
    type ValidatorId = u64;
    type Signature = u64;
    type Hash = u64;
    type InstanceId = u64;
    type UnitBody = u64;

    fn spec_verify_signature(hash: u64, public_key: u64, signature: u64) -> bool {
        signature == hash ^ public_key
    }

    fn verify_signature(hash: &u64, public_key: &u64, signature: &u64) -> bool {
        *signature == hash ^ public_key
    }
}

const INSTANCE: u64 = 77;

fn validators() -> Validators<u64> {
    Validators { ids: vec![1000, 2000, 3000] }
}

fn unit(
    creator: u32,
    seq_number: u64,
    hash: u64,
    previous: Option<u64>,
) -> SignedWireUnit<XorContext> {
    let key = [1000u64, 2000, 3000].get(creator as usize).copied().unwrap_or(0);
    SignedWireUnit {
        hash,
        wire_unit: WireUnit {
            creator: ValidatorIndex(creator),
            instance_id: INSTANCE,
            seq_number,
            previous,
            body: 0,
        },
        signature: hash ^ key,
    }
}

fn endorsement(unit: u64, creator: u32, hash: u64) -> SignedEndorsement<XorContext> {
    let key = [1000u64, 2000, 3000][creator as usize];
    SignedEndorsement { unit, creator: ValidatorIndex(creator), hash, signature: hash ^ key }
}

fn params() -> Params {
    Params { endorsement_evidence_limit: 10 }
}

fn validated(evidence: &Evidence<XorContext>) -> Result<(), EvidenceError> {
    evidence.validate(&validators(), &INSTANCE, &params())
}

#[test]
fn valid_equivocation_is_accepted() {
    let evidence = Evidence::Equivocation(unit(1, 5, 11, None), unit(1, 5, 12, None));
    assert_eq!(validated(&evidence), Ok(()));
    assert_eq!(evidence.perpetrator(), ValidatorIndex(1));
}

#[test]
fn equivocation_errors() {
    let unknown = Evidence::Equivocation(unit(7, 5, 11, None), unit(7, 5, 12, None));
    assert_eq!(validated(&unknown), Err(EvidenceError::UnknownPerpetrator));

    let creators = Evidence::Equivocation(unit(1, 5, 11, None), unit(2, 5, 12, None));
    assert_eq!(validated(&creators), Err(EvidenceError::EquivocationDifferentCreators));

    let seq = Evidence::Equivocation(unit(1, 5, 11, None), unit(1, 6, 12, None));
    assert_eq!(validated(&seq), Err(EvidenceError::EquivocationDifferentSeqNumbers));

    let mut other_instance = unit(1, 5, 12, None);
    other_instance.wire_unit.instance_id = 78;
    let instance = Evidence::Equivocation(unit(1, 5, 11, None), other_instance);
    assert_eq!(validated(&instance), Err(EvidenceError::EquivocationInstanceId));

    let same = Evidence::Equivocation(unit(1, 5, 11, None), unit(1, 5, 11, None));
    assert_eq!(validated(&same), Err(EvidenceError::EquivocationSameUnit));

    // Units that differ only in the rest of their content are two units.
    let mut other_body = unit(1, 5, 11, None);
    other_body.wire_unit.body = 1;
    let bodies = Evidence::Equivocation(unit(1, 5, 11, None), other_body);
    assert_eq!(validated(&bodies), Ok(()));

    let mut forged = unit(1, 5, 12, None);
    forged.signature = 0;
    let signature = Evidence::Equivocation(unit(1, 5, 11, None), forged);
    assert_eq!(validated(&signature), Err(EvidenceError::Signature));
}

fn endorsements(
    endorsement1: SignedEndorsement<XorContext>,
    unit1: SignedWireUnit<XorContext>,
    endorsement2: SignedEndorsement<XorContext>,
    unit2: SignedWireUnit<XorContext>,
    swimlane2: Vec<SignedWireUnit<XorContext>>,
) -> Evidence<XorContext> {
    Evidence::Endorsements { endorsement1, unit1, endorsement2, unit2, swimlane2 }
}

#[test]
fn valid_endorsement_evidence_is_accepted() {
    // unit2 (seq 7) cites 30 (seq 6) which cites 20 (seq 5); unit1 also has seq 5.
    let evidence = endorsements(
        endorsement(10, 2, 90),
        unit(0, 5, 10, None),
        endorsement(40, 2, 91),
        unit(0, 7, 40, Some(30)),
        vec![unit(0, 6, 30, Some(20)), unit(0, 5, 20, None)],
    );
    assert_eq!(validated(&evidence), Ok(()));
    assert_eq!(evidence.perpetrator(), ValidatorIndex(2));
}

#[test]
fn endorsement_errors() {
    let too_many = endorsements(
        endorsement(10, 2, 90),
        unit(0, 5, 10, None),
        endorsement(40, 2, 91),
        unit(0, 7, 40, Some(30)),
        vec![unit(0, 6, 30, Some(20)), unit(0, 5, 20, None)],
    );
    assert_eq!(
        too_many.validate(&validators(), &INSTANCE, &Params { endorsement_evidence_limit: 1 }),
        Err(EvidenceError::EndorsementTooManyUnits)
    );

    let mut stranger = endorsement(10, 2, 90);
    stranger.creator = ValidatorIndex(9);
    let unknown =
        endorsements(stranger, unit(0, 5, 10, None), endorsement(20, 2, 91), unit(0, 5, 20, None), vec![]);
    assert_eq!(validated(&unknown), Err(EvidenceError::UnknownPerpetrator));

    let wrong_hash = endorsements(
        endorsement(11, 2, 90),
        unit(0, 5, 10, None),
        endorsement(20, 2, 91),
        unit(0, 5, 20, None),
        vec![],
    );
    assert_eq!(validated(&wrong_hash), Err(EvidenceError::EndorsementWrongHash));

    let creators = endorsements(
        endorsement(10, 2, 90),
        unit(0, 5, 10, None),
        endorsement(20, 1, 91),
        unit(0, 5, 20, None),
        vec![],
    );
    assert_eq!(validated(&creators), Err(EvidenceError::EndorsementDifferentCreators));

    let broken_lane = endorsements(
        endorsement(10, 2, 90),
        unit(0, 5, 10, None),
        endorsement(40, 2, 91),
        unit(0, 6, 40, Some(31)),
        vec![unit(0, 5, 30, None)],
    );
    assert_eq!(validated(&broken_lane), Err(EvidenceError::EndorsementInvalidSwimlane));

    let no_conflict = endorsements(
        endorsement(10, 2, 90),
        unit(0, 5, 10, None),
        endorsement(40, 2, 91),
        unit(0, 6, 40, Some(30)),
        vec![unit(0, 4, 30, None)],
    );
    assert_eq!(validated(&no_conflict), Err(EvidenceError::EquivocationDifferentSeqNumbers));

    let mut forged = endorsement(20, 2, 91);
    forged.signature = 5;
    let signature =
        endorsements(endorsement(10, 2, 90), unit(0, 5, 10, None), forged, unit(0, 5, 20, None), vec![]);
    assert_eq!(validated(&signature), Err(EvidenceError::Signature));
}

#[test]
fn weight_arithmetic() {
    assert_eq!(Weight(3).checked_add(Weight(4)), Some(Weight(7)));
    assert_eq!(Weight(u64::MAX).checked_add(Weight(1)), None);
    assert_eq!(Weight(u64::MAX).saturating_add(Weight(1)), Weight(u64::MAX));
    assert_eq!(Weight(2).saturating_add(Weight(1)), Weight(3));
    assert_eq!(Weight(2).saturating_sub(Weight(5)), Weight(0));
    assert_eq!(Weight(9).saturating_sub(Weight(5)), Weight(4));
    assert!(Weight(0).is_zero());
    assert!(!Weight(1).is_zero());
    assert_eq!(Weight(6).mul(7), Weight(42));
    assert_eq!(Weight(43).div(7), Weight(6));
    assert_eq!(Weight(5).to_u128(), 5u128);
}

#[test]
fn weight_sum_adds_every_weight() {
    assert_eq!(Weight::sum(&[]), Weight(0));
    assert_eq!(Weight::sum(&[Weight(1), Weight(20), Weight(300)]), Weight(321));
}
