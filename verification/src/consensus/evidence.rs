//! Evidence that a validator is faulty, and its validation.
use vstd::laws_eq::obeys_concrete_eq;
use vstd::prelude::*;

verus! {

/// The index of a validator in the validator set of an era.
#[derive(Debug, Clone, Copy, PartialEq, Eq, PartialOrd, Ord, Hash, Structural)]
pub struct ValidatorIndex(pub u32);

/// The types and the signature check of a consensus instance.
///
/// `verify_signature` must be deterministic: its answer is `spec_verify_signature` of its
/// arguments.
pub trait Context {
    /// The ID of a validator.
    type ValidatorId;
    /// A validator's signature.
    type Signature: PartialEq;
    /// A unique identifier for units and endorsements.
    type Hash: PartialEq;
    /// The ID of a consensus protocol instance.
    type InstanceId: PartialEq;
    /// The rest of a unit, which validation only compares as a whole: its panorama, value,
    /// timestamp, round exponent and endorsements.
    type UnitBody: PartialEq;

    /// Whether `signature` is a valid signature of `hash` by `public_key`.
    spec fn spec_verify_signature(
        hash: Self::Hash,
        public_key: Self::ValidatorId,
        signature: Self::Signature,
    ) -> bool;

    /// Returns whether `signature` is a valid signature of `hash` by `public_key`.
    fn verify_signature(
        hash: &Self::Hash,
        public_key: &Self::ValidatorId,
        signature: &Self::Signature,
    ) -> (valid: bool)
        ensures
            valid == Self::spec_verify_signature(*hash, *public_key, *signature),
    ;
}

/// The parameters of a consensus protocol instance that evidence validation reads.
#[derive(Debug, Clone, Copy, PartialEq, Eq, Structural)]
pub struct Params {
    /// The most units that endorsement evidence may contain in its swimlane.
    pub endorsement_evidence_limit: u64,
}

/// The set of validators of an era, by index.
pub struct Validators<VID> {
    /// The validator IDs, in index order.
    pub ids: Vec<VID>,
}

impl<VID> Validators<VID> {
    /// Returns the ID of the validator with the given index, if there is one.
    pub fn id(&self, idx: ValidatorIndex) -> (id: Option<&VID>)
        ensures
            (idx.0 as int) < self.ids@.len() ==> (id matches Some(v) && *v == self.ids@[idx.0 as int]),
            (idx.0 as int) >= self.ids@.len() ==> id is None,
    {
        if (idx.0 as usize) < self.ids.len() {
            Some(&self.ids[idx.0 as usize])
        } else {
            None
        }
    }
}

/// The parts of a unit that evidence validation reads.
pub struct WireUnit<C: Context> {
    /// The validator who created and sent this unit.
    pub creator: ValidatorIndex,
    /// The consensus instance ID for which this unit was created.
    pub instance_id: C::InstanceId,
    /// The number of earlier messages by the same creator.
    pub seq_number: u64,
    /// The hash of the creator's previous unit, if any.
    pub previous: Option<C::Hash>,
    /// The rest of the unit.
    pub body: C::UnitBody,
}

/// A unit with its hash and its creator's signature.
pub struct SignedWireUnit<C: Context> {
    /// The hash of the unit.
    pub hash: C::Hash,
    /// The unit.
    pub wire_unit: WireUnit<C>,
    /// The creator's signature of the hash.
    pub signature: C::Signature,
}

/// An endorsement of a unit by a validator, with its hash and signature.
pub struct SignedEndorsement<C: Context> {
    /// The hash of the endorsed unit.
    pub unit: C::Hash,
    /// The endorsing validator.
    pub creator: ValidatorIndex,
    /// The hash of the endorsement, which is what is signed.
    pub hash: C::Hash,
    /// The endorser's signature of the hash.
    pub signature: C::Signature,
}

/// An error due to invalid evidence.
#[derive(Debug, Clone, Copy, PartialEq, Eq, Structural)]
pub enum EvidenceError {
    /// The sequence numbers in the equivocating units are different.
    EquivocationDifferentSeqNumbers,
    /// The creators in the equivocating units are different.
    EquivocationDifferentCreators,
    /// The units were created for a different instance ID.
    EquivocationInstanceId,
    /// The two units are equal.
    EquivocationSameUnit,
    /// The endorsements don't match the unit hashes.
    EndorsementWrongHash,
    /// The creators of the conflicting endorsements are different.
    EndorsementDifferentCreators,
    /// The swimlane is not a contiguous sequence of units.
    EndorsementInvalidSwimlane,
    /// Includes more units than allowed.
    EndorsementTooManyUnits,
    /// The perpetrator is not a validator.
    UnknownPerpetrator,
    /// The signature is invalid.
    Signature,
}

/// Evidence that a validator is faulty.
pub enum Evidence<C: Context> {
    /// The validator produced two units with the same sequence number.
    Equivocation(SignedWireUnit<C>, SignedWireUnit<C>),
    /// The validator endorsed two conflicting units.
    Endorsements {
        /// The endorsement for `unit1`.
        endorsement1: SignedEndorsement<C>,
        /// The unit with the lower (or equal) sequence number.
        unit1: SignedWireUnit<C>,
        /// The endorsement for `unit2`, by the same creator as endorsement1.
        endorsement2: SignedEndorsement<C>,
        /// The unit with the higher (or equal) sequence number, on a conflicting fork of the
        /// same creator as `unit1`.
        unit2: SignedWireUnit<C>,
        /// The predecessors of `unit2`, back to the same sequence number as `unit1`, in
        /// reverse chronological order.
        swimlane2: Vec<SignedWireUnit<C>>,
    },
}

/// Two signed units are the same unit: same hash, same unit in every part, same signature.
pub open spec fn same_unit<C: Context>(u1: SignedWireUnit<C>, u2: SignedWireUnit<C>) -> bool {
    &&& u1.hash == u2.hash
    &&& u1.wire_unit.creator == u2.wire_unit.creator
    &&& u1.wire_unit.instance_id == u2.wire_unit.instance_id
    &&& u1.wire_unit.seq_number == u2.wire_unit.seq_number
    &&& u1.wire_unit.previous == u2.wire_unit.previous
    &&& u1.wire_unit.body == u2.wire_unit.body
    &&& u1.signature == u2.signature
}

/// The outcome of checking that two units are an equivocation by a validator of the set.
pub open spec fn spec_validate_equivocation<C: Context>(
    unit1: SignedWireUnit<C>,
    unit2: SignedWireUnit<C>,
    instance_id: C::InstanceId,
    validators: Seq<C::ValidatorId>,
) -> Result<(), EvidenceError> {
    let w1 = unit1.wire_unit;
    let w2 = unit2.wire_unit;
    if w1.creator.0 >= validators.len() {
        Err(EvidenceError::UnknownPerpetrator)
    } else if w1.creator != w2.creator {
        Err(EvidenceError::EquivocationDifferentCreators)
    } else if w1.seq_number != w2.seq_number {
        Err(EvidenceError::EquivocationDifferentSeqNumbers)
    } else if w1.instance_id != instance_id || w2.instance_id != instance_id {
        Err(EvidenceError::EquivocationInstanceId)
    } else if same_unit(unit1, unit2) {
        Err(EvidenceError::EquivocationSameUnit)
    } else if !C::spec_verify_signature(
        unit1.hash,
        validators[w1.creator.0 as int],
        unit1.signature,
    ) || !C::spec_verify_signature(unit2.hash, validators[w1.creator.0 as int], unit2.signature) {
        Err(EvidenceError::Signature)
    } else {
        Ok(())
    }
}

/// `unit2` followed by `swimlane2` is a chain: each unit's previous unit is the next one.
pub open spec fn spec_swimlane_is_chain<C: Context>(
    unit2: SignedWireUnit<C>,
    swimlane2: Seq<SignedWireUnit<C>>,
) -> bool {
    let chain = seq![unit2] + swimlane2;
    forall|i: int|
        0 <= i < swimlane2.len() ==> #[trigger] chain[i].wire_unit.previous == Some(
            chain[i + 1].hash,
        )
}

/// The outcome of validating evidence.
pub open spec fn spec_validate<C: Context>(
    evidence: Evidence<C>,
    validators: Seq<C::ValidatorId>,
    instance_id: C::InstanceId,
    params: Params,
) -> Result<(), EvidenceError> {
    match evidence {
        Evidence::Equivocation(unit1, unit2) => spec_validate_equivocation(
            unit1,
            unit2,
            instance_id,
            validators,
        ),
        Evidence::Endorsements { endorsement1, unit1, endorsement2, unit2, swimlane2 } => {
            let lane = swimlane2@;
            let last = if lane.len() == 0 { unit2 } else { lane.last() };
            if lane.len() > params.endorsement_evidence_limit {
                Err(EvidenceError::EndorsementTooManyUnits)
            } else if endorsement1.creator.0 >= validators.len() {
                Err(EvidenceError::UnknownPerpetrator)
            } else if endorsement1.unit != unit1.hash || endorsement2.unit != unit2.hash {
                Err(EvidenceError::EndorsementWrongHash)
            } else if endorsement1.creator != endorsement2.creator {
                Err(EvidenceError::EndorsementDifferentCreators)
            } else if !spec_swimlane_is_chain(unit2, lane) {
                Err(EvidenceError::EndorsementInvalidSwimlane)
            } else if spec_validate_equivocation(unit1, last, instance_id, validators) is Err {
                spec_validate_equivocation(unit1, last, instance_id, validators)
            } else if !C::spec_verify_signature(
                endorsement1.hash,
                validators[endorsement1.creator.0 as int],
                endorsement1.signature,
            ) || !C::spec_verify_signature(
                endorsement2.hash,
                validators[endorsement1.creator.0 as int],
                endorsement2.signature,
            ) {
                Err(EvidenceError::Signature)
            } else {
                Ok(())
            }
        },
    }
}

/// Valid equivocation evidence consists of two different units of one known validator with
/// the same sequence number, both for this instance and both signed by that validator.
pub proof fn law_valid_equivocation<C: Context>(
    unit1: SignedWireUnit<C>,
    unit2: SignedWireUnit<C>,
    validators: Seq<C::ValidatorId>,
    instance_id: C::InstanceId,
    params: Params,
)
    requires
        spec_validate(Evidence::Equivocation(unit1, unit2), validators, instance_id, params) is Ok,
    ensures
        unit1.wire_unit.creator.0 < validators.len(),
        unit1.wire_unit.creator == unit2.wire_unit.creator,
        unit1.wire_unit.seq_number == unit2.wire_unit.seq_number,
        unit1.wire_unit.instance_id == instance_id,
        unit2.wire_unit.instance_id == instance_id,
        !same_unit(unit1, unit2),
        C::spec_verify_signature(
            unit1.hash,
            validators[unit1.wire_unit.creator.0 as int],
            unit1.signature,
        ),
        C::spec_verify_signature(
            unit2.hash,
            validators[unit1.wire_unit.creator.0 as int],
            unit2.signature,
        ),
{
}

/// Endorsement evidence is valid only if its swimlane leads back from `unit2`: each of
/// its units is the previous unit of the one before it (of `unit2`, for the first).
pub proof fn law_valid_endorsements_swimlane_is_chain<C: Context>(
    endorsement1: SignedEndorsement<C>,
    unit1: SignedWireUnit<C>,
    endorsement2: SignedEndorsement<C>,
    unit2: SignedWireUnit<C>,
    swimlane2: Vec<SignedWireUnit<C>>,
    validators: Seq<C::ValidatorId>,
    instance_id: C::InstanceId,
    params: Params,
)
    requires
        spec_validate(
            Evidence::Endorsements { endorsement1, unit1, endorsement2, unit2, swimlane2 },
            validators,
            instance_id,
            params,
        ) is Ok,
    ensures
        swimlane2@.len() <= params.endorsement_evidence_limit,
        endorsement1.creator.0 < validators.len(),
        endorsement1.unit == unit1.hash,
        endorsement2.unit == unit2.hash,
        endorsement1.creator == endorsement2.creator,
        swimlane2@.len() > 0 ==> unit2.wire_unit.previous == Some(swimlane2@[0].hash),
        forall|i: int|
            0 < i < swimlane2@.len() ==> (#[trigger] swimlane2@[i - 1]).wire_unit.previous == Some(
                swimlane2@[i].hash,
            ),
{
    let lane = swimlane2@;
    let chain = seq![unit2] + lane;
    if lane.len() > 0 {
        assert(chain[0] == unit2);
        assert(chain[1] == lane[0]);
    }
    assert forall|i: int| 0 < i < lane.len() implies (#[trigger] lane[i - 1]).wire_unit.previous
        == Some(lane[i].hash) by {
        assert(chain[i] == lane[i - 1]);
        assert(chain[i + 1] == lane[i]);
    }
}

/// The equality of the consensus types is the mathematical one.
pub open spec fn context_eq_is_equality<C: Context>() -> bool {
    &&& obeys_concrete_eq::<C::Hash>()
    &&& obeys_concrete_eq::<C::InstanceId>()
    &&& obeys_concrete_eq::<C::Signature>()
    &&& obeys_concrete_eq::<C::UnitBody>()
}

fn eq_hash<C: Context>(a: &C::Hash, b: &C::Hash) -> (r: bool)
    requires
        context_eq_is_equality::<C>(),
    ensures
        r == (*a == *b),
{
    proof {
        reveal(obeys_concrete_eq);
    }
    *a == *b
}

fn eq_instance_id<C: Context>(a: &C::InstanceId, b: &C::InstanceId) -> (r: bool)
    requires
        context_eq_is_equality::<C>(),
    ensures
        r == (*a == *b),
{
    proof {
        reveal(obeys_concrete_eq);
    }
    *a == *b
}

fn eq_signature<C: Context>(a: &C::Signature, b: &C::Signature) -> (r: bool)
    requires
        context_eq_is_equality::<C>(),
    ensures
        r == (*a == *b),
{
    proof {
        reveal(obeys_concrete_eq);
    }
    *a == *b
}

fn eq_unit_body<C: Context>(a: &C::UnitBody, b: &C::UnitBody) -> (r: bool)
    requires
        context_eq_is_equality::<C>(),
    ensures
        r == (*a == *b),
{
    proof {
        reveal(obeys_concrete_eq);
    }
    *a == *b
}

fn eq_option_hash<C: Context>(a: &Option<C::Hash>, b: &Option<C::Hash>) -> (r: bool)
    requires
        context_eq_is_equality::<C>(),
    ensures
        r == (*a == *b),
{
    match (a, b) {
        (Some(x), Some(y)) => eq_hash::<C>(x, y),
        (None, None) => true,
        _ => false,
    }
}

impl<C: Context> SignedWireUnit<C> {
    /// Returns true if the two signed units are the same unit.
    pub fn same_as(&self, other: &Self) -> (r: bool)
        requires
            context_eq_is_equality::<C>(),
        ensures
            r == same_unit(*self, *other),
    {
        eq_hash::<C>(&self.hash, &other.hash) && self.wire_unit.creator == other.wire_unit.creator
            && eq_instance_id::<C>(&self.wire_unit.instance_id, &other.wire_unit.instance_id)
            && self.wire_unit.seq_number == other.wire_unit.seq_number && eq_option_hash::<C>(
            &self.wire_unit.previous,
            &other.wire_unit.previous,
        ) && eq_unit_body::<C>(&self.wire_unit.body, &other.wire_unit.body) && eq_signature::<C>(
            &self.signature,
            &other.signature,
        )
    }
}

impl<C: Context> Evidence<C> {
    /// Returns the ID of the faulty validator.
    pub fn perpetrator(&self) -> (v: ValidatorIndex)
        ensures
            v == match *self {
                Evidence::Equivocation(unit1, _) => unit1.wire_unit.creator,
                Evidence::Endorsements { endorsement1, .. } => endorsement1.creator,
            },
    {
        match self {
            Evidence::Equivocation(unit1, _) => unit1.wire_unit.creator,
            Evidence::Endorsements { endorsement1, .. } => endorsement1.creator,
        }
    }

    /// Validates the evidence and returns `Ok(())` if it is valid.
    ///
    /// - For an equivocation, it checks whether the creators, sequence numbers and instance
    ///   IDs of the two units are the same.
    /// - For endorsements, it checks the endorsed hashes, the endorsers, that the swimlane
    ///   leads from `unit2` back to a unit that equivocates with `unit1`, and the signatures.
    #[verifier::loop_isolation(false)]
    pub fn validate(
        &self,
        validators: &Validators<C::ValidatorId>,
        instance_id: &C::InstanceId,
        params: &Params,
    ) -> (res: Result<(), EvidenceError>)
        requires
            context_eq_is_equality::<C>(),
        ensures
            res == spec_validate(*self, validators.ids@, *instance_id, *params),
    {
        match self {
            Evidence::Equivocation(unit1, unit2) => {
                Self::validate_equivocation(unit1, unit2, instance_id, validators)
            },
            Evidence::Endorsements { endorsement1, unit1, endorsement2, unit2, swimlane2 } => {
                if swimlane2.len() as u64 > params.endorsement_evidence_limit {
                    return Err(EvidenceError::EndorsementTooManyUnits);
                }
                let v_id = match validators.id(endorsement1.creator) {
                    Some(v) => v,
                    None => return Err(EvidenceError::UnknownPerpetrator),
                };
                if !eq_hash::<C>(&endorsement1.unit, &unit1.hash) || !eq_hash::<C>(
                    &endorsement2.unit,
                    &unit2.hash,
                ) {
                    return Err(EvidenceError::EndorsementWrongHash);
                }
                if endorsement1.creator != endorsement2.creator {
                    return Err(EvidenceError::EndorsementDifferentCreators);
                }
                let ghost chain = seq![*unit2] + swimlane2@;
                let mut i: usize = 0;
                while i < swimlane2.len()
                    invariant
                        context_eq_is_equality::<C>(),
                        i <= swimlane2@.len(),
                        chain == seq![*unit2] + swimlane2@,
                        forall|j: int|
                            0 <= j < i ==> #[trigger] chain[j].wire_unit.previous == Some(
                                chain[j + 1].hash,
                            ),
                    decreases swimlane2@.len() - i,
                {
                    let unit = if i == 0 {
                        unit2
                    } else {
                        &swimlane2[i - 1]
                    };
                    let pred = &swimlane2[i];
                    assert(*unit == chain[i as int]);
                    assert(*pred == chain[i + 1]);
                    let linked = match &unit.wire_unit.previous {
                        Some(h) => eq_hash::<C>(h, &pred.hash),
                        None => false,
                    };
                    if !linked {
                        return Err(EvidenceError::EndorsementInvalidSwimlane);
                    }
                    i = i + 1;
                }
                let last = if swimlane2.len() == 0 {
                    unit2
                } else {
                    &swimlane2[swimlane2.len() - 1]
                };
                Self::validate_equivocation(unit1, last, instance_id, validators)?;
                if !C::verify_signature(&endorsement1.hash, v_id, &endorsement1.signature)
                    || !C::verify_signature(&endorsement2.hash, v_id, &endorsement2.signature) {
                    return Err(EvidenceError::Signature);
                }
                Ok(())
            },
        }
    }

    fn validate_equivocation(
        unit1: &SignedWireUnit<C>,
        unit2: &SignedWireUnit<C>,
        instance_id: &C::InstanceId,
        validators: &Validators<C::ValidatorId>,
    ) -> (res: Result<(), EvidenceError>)
        requires
            context_eq_is_equality::<C>(),
        ensures
            res == spec_validate_equivocation(*unit1, *unit2, *instance_id, validators.ids@),
    {
        let wunit1 = &unit1.wire_unit;
        let wunit2 = &unit2.wire_unit;
        let v_id = match validators.id(wunit1.creator) {
            Some(v) => v,
            None => return Err(EvidenceError::UnknownPerpetrator),
        };
        if wunit1.creator != wunit2.creator {
            return Err(EvidenceError::EquivocationDifferentCreators);
        }
        if wunit1.seq_number != wunit2.seq_number {
            return Err(EvidenceError::EquivocationDifferentSeqNumbers);
        }
        if !eq_instance_id::<C>(&wunit1.instance_id, instance_id) || !eq_instance_id::<C>(
            &wunit2.instance_id,
            instance_id,
        ) {
            return Err(EvidenceError::EquivocationInstanceId);
        }
        if unit1.same_as(unit2) {
            return Err(EvidenceError::EquivocationSameUnit);
        }
        if !C::verify_signature(&unit1.hash, v_id, &unit1.signature) || !C::verify_signature(
            &unit2.hash,
            v_id,
            &unit2.signature,
        ) {
            return Err(EvidenceError::Signature);
        }
        Ok(())
    }
}

/// Valid evidence of an equivocation names two distinct units of one creator, with one
/// sequence number, in the given instance, both signed by that creator.
pub proof fn lemma_valid_equivocation_is_conflict<C: Context>(
    unit1: SignedWireUnit<C>,
    unit2: SignedWireUnit<C>,
    validators: Seq<C::ValidatorId>,
    instance_id: C::InstanceId,
    params: Params,
)
    requires
        spec_validate(Evidence::Equivocation(unit1, unit2), validators, instance_id, params) is Ok,
    ensures
        unit1.wire_unit.creator == unit2.wire_unit.creator,
        unit1.wire_unit.seq_number == unit2.wire_unit.seq_number,
        unit1.wire_unit.instance_id == instance_id,
        unit2.wire_unit.instance_id == instance_id,
        !same_unit(unit1, unit2),
        (unit1.wire_unit.creator.0 as int) < validators.len(),
        C::spec_verify_signature(
            unit1.hash,
            validators[unit1.wire_unit.creator.0 as int],
            unit1.signature,
        ),
        C::spec_verify_signature(
            unit2.hash,
            validators[unit1.wire_unit.creator.0 as int],
            unit2.signature,
        ),
{
}

} // verus!
