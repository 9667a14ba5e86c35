//! The mint: creation, transfer and destruction of tokens, on top of the runtime, storage
//! and system services that its implementor provides.
use vstd::prelude::*;

use crate::keys::{
    bytes32_eq, is_account_hash_of, lemma_account_hash_unique, Key, spec_is_addable, spec_is_writeable, AccountHash, PublicKey,
    URef,
};
use crate::ratio::{round_reward, spec_round_reward, SeigniorageRate};
use crate::u512::U512;

verus! {

/// Name of the key under which the total supply is kept.
pub const TOTAL_SUPPLY_KEY: &'static str = "total_supply";

/// Name of the key under which the seigniorage rate of a round is kept.
pub const ROUND_SEIGNIORAGE_RATE_KEY: &'static str = "round_seigniorage_rate";

/// Errors of the mint.
#[derive(Debug, Clone, Copy, PartialEq, Eq, Structural)]
pub enum MintError {
    /// Insufficient funds to complete the transfer.
    InsufficientFunds,
    /// Source purse not found.
    SourceNotFound,
    /// Destination purse not found.
    DestNotFound,
    /// The given `URef` does not reference the right type.
    InvalidURef,
    /// The given `URef` does not have the required access rights.
    InvalidAccessRights,
    /// A non-zero purse was requested by a caller other than the system.
    InvalidNonEmptyPurseCreation,
    /// Failed to read from the storage.
    Storage,
    /// Purse not found while trying to get balance.
    PurseNotFound,
    /// Unable to obtain a key by its name.
    MissingKey,
    /// Total supply not found.
    TotalSupplyNotFound,
    /// Failed to record a transfer.
    RecordTransferFailure,
    /// Only the system may reduce the total supply.
    InvalidTotalSupplyReductionAttempt,
    /// Failed to create a new purse.
    NewURef,
    /// Failed to put a key.
    PutKey,
    /// Failed to write to a purse.
    WriteDictionary,
    /// Failed to create a `CLValue`.
    CLValue,
    /// Failed to serialize data.
    Serialize,
    /// The reference is forged.
    ForgedReference,
    /// The amount exceeds the approved spending limit.
    UnapprovedSpendingAmount,
    /// The caller may not perform this operation in this context.
    InvalidContext,
    /// Arithmetic overflow.
    ArithmeticOverflow,
    /// Unrestricted transfers are disabled.
    DisabledUnrestrictedTransfers,
    /// The system entity registry could not be read.
    UnableToGetSystemRegistry,
}

/// An error of a runtime service.
#[derive(Debug, Clone, Copy, PartialEq, Eq, Structural)]
pub struct ProviderError;

/// The immediate caller of the mint.
#[derive(Debug, Clone, Copy, PartialEq, Eq)]
pub enum Caller {
    /// The account that initiated the deploy.
    Initiator { account_hash: AccountHash },
    /// An addressable entity, by its package hash and entity address.
    Entity { package_hash: [u8; 32], entity_addr: [u8; 32] },
    /// A legacy smart contract.
    SmartContract { contract_package_hash: [u8; 32], contract_hash: [u8; 32] },
}

/// The hashes of the system entities.
#[derive(Debug, Clone, PartialEq, Eq)]
pub struct SystemHashRegistry {
    /// The hashes.
    pub hashes: Vec<[u8; 32]>,
}

impl SystemHashRegistry {
    /// Returns true if `hash` is the hash of a system entity.
    pub fn contains_hash(&self, hash: &[u8; 32]) -> (b: bool)
        ensures
            b == self.hashes@.contains(*hash),
    {
        let mut i: usize = 0;
        while i < self.hashes.len()
            invariant
                i <= self.hashes@.len(),
                forall|j: int| 0 <= j < i ==> self.hashes@[j] != *hash,
            decreases self.hashes@.len() - i,
        {
            if bytes32_eq(&self.hashes[i], hash) {
                assert(self.hashes@[i as int] == *hash);
                return true;
            }
            i = i + 1;
        }
        false
    }
}

/// What the mint reads of an account's runtime footprint.
#[derive(Debug, Clone, Copy, PartialEq, Eq)]
pub struct RuntimeFootprint {
    /// The account's main purse, if it has one.
    pub main_purse: Option<URef>,
}

/// A change that the mint asks its storage and system services to make.
#[derive(Debug, Clone, Copy, PartialEq, Eq)]
pub enum MintEffect {
    /// A new purse was created.
    NewURef(URef),
    /// A purse balance was set.
    WriteBalance(URef, U512),
    /// An amount was added to a purse balance.
    AddBalance(URef, U512),
    /// An amount was added to the value under a reference.
    Add(URef, U512),
    /// The value under a reference was set to an amount.
    WriteAmount(URef, U512),
    /// The approved spending limit was reduced.
    SubApprovedSpendingLimit(U512),
    /// A transfer was recorded.
    RecordTransfer {
        maybe_to: Option<AccountHash>,
        source: URef,
        target: URef,
        amount: U512,
        id: Option<u64>,
    },
}

/// The account is the system account.
pub open spec fn is_system(a: AccountHash) -> bool {
    is_account_hash_of(a, PublicKey::System)
}

/// The runtime's answers are the same in both states (the approved spending limit, the
/// references the context holds and what storage holds aside).
pub open spec fn same_runtime<M: MintState>(a: M, b: M) -> bool {
    &&& a.spec_caller() == b.spec_caller()
    &&& a.spec_immediate_caller() == b.spec_immediate_caller()
    &&& a.spec_is_called_from_standard_payment() == b.spec_is_called_from_standard_payment()
    &&& a.spec_system_entity_registry() == b.spec_system_entity_registry()
    &&& a.spec_main_purse() == b.spec_main_purse()
    &&& a.spec_allow_unrestricted_transfers() == b.spec_allow_unrestricted_transfers()
    &&& forall|n: Seq<char>| #[trigger] a.spec_key(n) == b.spec_key(n)
    &&& forall|h: AccountHash| #[trigger] a.spec_is_administrator(h) == b.spec_is_administrator(h)
    &&& forall|h: AccountHash| #[trigger] a.spec_runtime_footprint(h) == b.spec_runtime_footprint(
        h,
    )
}

/// The context holds the same references in both states.
pub open spec fn refs_kept<M: MintState>(a: M, b: M) -> bool {
    forall|u: URef| #[trigger] a.spec_is_valid_uref(u) == b.spec_is_valid_uref(u)
}

/// Every stored amount and rate other than those under `uref`'s address reads the same in
/// both states.
pub open spec fn amounts_kept_except<M: MintState>(a: M, b: M, uref: URef) -> bool {
    &&& forall|u: URef| u.addr != uref.addr ==> #[trigger] a.spec_read_amount(u) == b.spec_read_amount(u)
    &&& forall|u: URef| u.addr != uref.addr ==> #[trigger] a.spec_read_rate(u) == b.spec_read_rate(u)
}

/// Every stored amount and rate reads the same in both states, and the context holds the
/// same references.
pub open spec fn reads_kept<M: MintState>(a: M, b: M) -> bool {
    &&& refs_kept(a, b)
    &&& forall|u: URef| #[trigger] a.spec_read_amount(u) == b.spec_read_amount(u)
    &&& forall|u: URef| #[trigger] a.spec_read_rate(u) == b.spec_read_rate(u)
}

/// Where the amount under `uref` could be read in `a`, it reads `delta` more in `b`.
pub open spec fn amount_moved<M: MintState>(a: M, b: M, uref: URef, delta: int) -> bool {
    a.spec_read_amount(uref) matches Ok(Some(t0)) ==> b.spec_read_amount(uref) matches Ok(Some(t))
        && t.value() == t0.value() + delta
}

/// Both states give the same answers to every question, and record the same effects.
pub open spec fn unchanged<M: MintState>(a: M, b: M) -> bool {
    &&& same_runtime(a, b)
    &&& reads_kept(a, b)
    &&& a.spec_approved_spending_limit() == b.spec_approved_spending_limit()
    &&& a.spec_effects() == b.spec_effects()
    &&& a.spec_requests() == b.spec_requests()
    &&& forall|u: URef| #[trigger] a.spec_available_balance(u) == b.spec_available_balance(u)
    &&& forall|u: URef| #[trigger] a.spec_total_balance(u) == b.spec_total_balance(u)
    &&& forall|u: URef| #[trigger] a.spec_purse_exists(u) == b.spec_purse_exists(u)
}

/// A mutation recorded `e` when it succeeded, and nothing when it failed; it was asked for,
/// with its outcome; and it left the runtime's answers as they were.
pub open spec fn recorded<M: MintState>(old: M, new: M, ok: bool, e: MintEffect) -> bool {
    &&& same_runtime(old, new)
    &&& ok ==> new.spec_effects() == old.spec_effects().push(e)
    &&& !ok ==> new.spec_effects() == old.spec_effects()
    &&& new.spec_requests() == old.spec_requests().push((e, ok))
}

/// Where `purse`'s total balance could be read in `a`, it reads `amount` more in `b`.
pub open spec fn grew_by<M: MintState>(a: M, b: M, purse: URef, amount: U512) -> bool {
    a.spec_total_balance(purse) matches Ok(t0) ==> b.spec_total_balance(purse) matches Ok(t)
        && t.value() == t0.value() + amount.value()
}

/// Every purse's total balance reads the same in both states.
pub open spec fn balances_kept<M: MintState>(a: M, b: M) -> bool {
    forall|p: URef| #[trigger] b.spec_total_balance(p) == a.spec_total_balance(p)
}

/// The total balance of every purse other than `purse` reads the same in both states.
pub open spec fn others_kept<M: MintState>(a: M, b: M, purse: URef) -> bool {
    forall|p: URef| p.addr != purse.addr ==> #[trigger] b.spec_total_balance(p) == a.spec_total_balance(p)
}

/// The reference under which the total supply is kept, if the named key holds one.
pub open spec fn total_supply_uref<M: MintState>(m: M) -> Option<URef> {
    match m.spec_key(TOTAL_SUPPLY_KEY@) {
        Some(Key::URef(u)) => Some(u),
        _ => None,
    }
}

/// The reference under which the round seigniorage rate is kept, if the named key holds one.
pub open spec fn round_rate_uref<M: MintState>(m: M) -> Option<URef> {
    match m.spec_key(ROUND_SEIGNIORAGE_RATE_KEY@) {
        Some(Key::URef(u)) => Some(u),
        _ => None,
    }
}

/// The base reward of a round: the round seigniorage rate times the total supply, rounded
/// down; or why it cannot be had.
pub open spec fn spec_base_round_reward<M: MintState>(m: M) -> Result<nat, MintError> {
    match total_supply_uref(m) {
        None => Err(MintError::MissingKey),
        Some(ts) => match m.spec_read_amount(ts) {
            Err(e) => Err(e),
            Ok(None) => Err(MintError::TotalSupplyNotFound),
            Ok(Some(supply)) => match round_rate_uref(m) {
                None => Err(MintError::MissingKey),
                Some(ru) => match m.spec_read_rate(ru) {
                    Err(e) => Err(e),
                    Ok(None) => Err(MintError::TotalSupplyNotFound),
                    Ok(Some(rate)) => match spec_round_reward(rate, supply) {
                        None => Err(MintError::ArithmeticOverflow),
                        Some(v) => Ok(v),
                    },
                },
            },
        },
    }
}

/// Who may transfer when the immediate caller is not the system or standard payment: the
/// system itself and administrators.
pub open spec fn spec_caller_may_transfer<M: MintState>(m: M) -> Result<(), MintError> {
    if !is_system(m.spec_caller()) && !m.spec_is_administrator(m.spec_caller()) {
        Err(MintError::DisabledUnrestrictedTransfers)
    } else {
        Ok(())
    }
}

/// Whether an initiating account may transfer to `maybe_to`'s purse `target` when
/// unrestricted transfers are disabled.
pub open spec fn spec_initiator_may_transfer<M: MintState>(
    m: M,
    account_hash: AccountHash,
    maybe_to: Option<AccountHash>,
    target: URef,
) -> Result<(), MintError> {
    let is_source_admin = m.spec_is_administrator(account_hash);
    match maybe_to {
        Some(to) => match m.spec_runtime_footprint(to) {
            Ok(Some(footprint)) => match footprint.main_purse {
                None => Err(MintError::InvalidContext),
                Some(main_purse) => if main_purse.addr != target.addr {
                    Err(MintError::DisabledUnrestrictedTransfers)
                } else if !(is_source_admin || is_system(to) || m.spec_is_administrator(to)) {
                    Err(MintError::DisabledUnrestrictedTransfers)
                } else {
                    Ok(())
                },
            },
            Ok(None) => if !is_source_admin {
                Err(MintError::DisabledUnrestrictedTransfers)
            } else {
                Ok(())
            },
            Err(_) => Err(MintError::Storage),
        },
        None => if !is_source_admin {
            Err(MintError::DisabledUnrestrictedTransfers)
        } else {
            Ok(())
        },
    }
}

/// Whether the transfer is authorized: always when unrestricted transfers are allowed;
/// otherwise it depends on the immediate caller.
pub open spec fn spec_transfer_authorization<M: MintState>(
    m: M,
    maybe_to: Option<AccountHash>,
    target: URef,
) -> Result<(), MintError> {
    if m.spec_allow_unrestricted_transfers() {
        Ok(())
    } else {
        match m.spec_system_entity_registry() {
            Err(_) => Err(MintError::UnableToGetSystemRegistry),
            Ok(registry) => match m.spec_immediate_caller() {
                Some(Caller::Entity { package_hash, entity_addr }) => if registry.contains(
                    entity_addr,
                ) {
                    Ok(())
                } else {
                    spec_caller_may_transfer(m)
                },
                Some(Caller::Initiator { account_hash }) => if m.spec_is_called_from_standard_payment() {
                    Ok(())
                } else if is_system(account_hash) {
                    Ok(())
                } else {
                    spec_initiator_may_transfer(m, account_hash, maybe_to, target)
                },
                Some(Caller::SmartContract { contract_package_hash, contract_hash }) => spec_caller_may_transfer(m),
                None => Err(MintError::DisabledUnrestrictedTransfers),
            },
        }
    }
}

/// The checks of an authorized transfer, before anything changes. On success: whether
/// the approved spending limit applies, and the source's total balance.
pub open spec fn spec_transfer_checks<M: MintState>(
    m: M,
    source: URef,
    target: URef,
    amount: U512,
) -> Result<(bool, U512), MintError> {
    if !spec_is_writeable(source) || !spec_is_addable(target) {
        Err(MintError::InvalidAccessRights)
    } else {
        match m.spec_available_balance(source) {
            Err(e) => Err(e),
            Ok(None) => Err(MintError::SourceNotFound),
            Ok(Some(available)) => if amount.value() > available.value() {
                Err(MintError::InsufficientFunds)
            } else {
                match m.spec_total_balance(source) {
                    Err(e) => Err(e),
                    Ok(total) => match m.spec_available_balance(target) {
                        Err(e) => Err(e),
                        Ok(None) => Err(MintError::DestNotFound),
                        Ok(Some(_)) => match m.spec_main_purse() {
                            None => Err(MintError::InvalidURef),
                            Some(main_purse) => {
                                let applies = !is_system(m.spec_caller()) && main_purse.addr
                                    == source.addr;
                                if applies && amount.value()
                                    > m.spec_approved_spending_limit().value() {
                                    Err(MintError::UnapprovedSpendingAmount)
                                } else {
                                    Ok((applies, total))
                                }
                            },
                        },
                    },
                }
            },
        }
    }
}

/// Everything a transfer checks before it changes anything: its authorization, then the
/// purses and amounts.
pub open spec fn spec_transfer_plan<M: MintState>(
    m: M,
    maybe_to: Option<AccountHash>,
    source: URef,
    target: URef,
    amount: U512,
) -> Result<(bool, U512), MintError> {
    match spec_transfer_authorization(m, maybe_to, target) {
        Err(e) => Err(e),
        Ok(()) => spec_transfer_checks(m, source, target, amount),
    }
}

/// The transfer is about to compare the source's available and total balances: a state
/// in which the available balance must not exceed the total.
pub open spec fn transfer_compares_balances<M: MintState>(
    m: M,
    maybe_to: Option<AccountHash>,
    source: URef,
    target: URef,
    amount: U512,
) -> bool {
    &&& spec_transfer_authorization(m, maybe_to, target) is Ok
    &&& spec_is_writeable(source)
    &&& spec_is_addable(target)
    &&& m.spec_available_balance(source) matches Ok(Some(available))
    &&& amount.value() <= available.value()
    &&& m.spec_total_balance(source) is Ok
}

/// The effects of a completed transfer: the spending limit reduced where it applies, the
/// source set to its total less the amount, the amount added to the target, and the
/// transfer recorded.
pub open spec fn transfer_effects(
    before: Seq<MintEffect>,
    after: Seq<MintEffect>,
    applies: bool,
    total: U512,
    maybe_to: Option<AccountHash>,
    source: URef,
    target: URef,
    amount: U512,
    id: Option<u64>,
) -> bool {
    let base = if applies {
        before.push(MintEffect::SubApprovedSpendingLimit(amount))
    } else {
        before
    };
    let n = base.len() as int;
    &&& after.len() == n + 3
    &&& after.take(n) == base
    &&& after[n] matches MintEffect::WriteBalance(p, v) && p == source && v.value()
        == total.value() - amount.value()
    &&& after[n + 1] == MintEffect::AddBalance(target, amount)
    &&& after[n + 2] == MintEffect::RecordTransfer { maybe_to, source, target, amount, id }
}

/// The changes a transfer that passed its checks asked for: the spending limit reduced
/// where it applies; then, in order and until one fails, the source set to its total less
/// the amount, the amount added to the target, and the transfer recorded. It succeeded
/// when all three were made.
pub open spec fn transfer_requests(
    before: Seq<(MintEffect, bool)>,
    after: Seq<(MintEffect, bool)>,
    applies: bool,
    total: U512,
    maybe_to: Option<AccountHash>,
    source: URef,
    target: URef,
    amount: U512,
    id: Option<u64>,
    ok: bool,
) -> bool {
    let base = if applies {
        before.push((MintEffect::SubApprovedSpendingLimit(amount), true))
    } else {
        before
    };
    let n = base.len() as int;
    let k = after.len() - n;
    &&& 1 <= k <= 3
    &&& after.take(n) == base
    &&& after[n].0 matches MintEffect::WriteBalance(p, v) && p == source && v.value() == total.value()
        - amount.value()
    &&& k >= 2 ==> after[n + 1].0 == MintEffect::AddBalance(target, amount)
    &&& k >= 3 ==> after[n + 2].0 == MintEffect::RecordTransfer { maybe_to, source, target, amount, id }
    &&& forall|i: int| n <= i < n + k - 1 ==> (#[trigger] after[i]).1
    &&& k < 3 ==> !after[n + k - 1].1
    &&& ok <==> (k == 3 && after[n + 2].1)
}

/// The effect of reducing the total supply by a non-zero amount: the total supply
/// written back less the amount.
pub open spec fn reduce_effects<M: MintState>(
    m: M,
    before: Seq<MintEffect>,
    after: Seq<MintEffect>,
    amount: U512,
) -> bool {
    &&& after.len() == before.len() + 1
    &&& after.take(before.len() as int) == before
    &&& match (after.last(), total_supply_uref(m)) {
        (MintEffect::WriteAmount(u, v), Some(ts)) => u == ts && match m.spec_read_amount(u) {
            Ok(Some(total)) => v.value() == total.value() - amount.value(),
            _ => false,
        },
        _ => false,
    }
}

/// Reduces the total supply by `amount`, without checking who asks: nothing happens for
/// zero; otherwise the total supply is read, reduced, and written back.
pub fn reduce_total_supply_unsafe<M: StorageProvider + RuntimeProvider>(mint: &mut M, amount: U512) -> (r: Result<
    (),
    MintError,
>)
    ensures
        same_runtime(*old(mint), *final(mint)),
        amount.value() == 0 ==> r is Ok && unchanged(*old(mint), *final(mint)),
        amount.value() != 0 ==> match total_supply_uref(*old(mint)) {
            None => r == Err::<(), MintError>(MintError::MissingKey) && unchanged(
                *old(mint),
                *final(mint),
            ),
            Some(u) => match old(mint).spec_read_amount(u) {
            Err(e) => r == Err::<(), MintError>(e) && unchanged(*old(mint), *final(mint)),
            Ok(None) => r == Err::<(), MintError>(MintError::TotalSupplyNotFound) && unchanged(
                *old(mint),
                *final(mint),
            ),
            Ok(Some(total)) => if total.value() < amount.value() {
                r == Err::<(), MintError>(MintError::ArithmeticOverflow) && unchanged(
                    *old(mint),
                    *final(mint),
                )
            } else {
                r is Ok ==> reduce_effects(
                    *old(mint),
                    old(mint).spec_effects(),
                    final(mint).spec_effects(),
                    amount,
                ) && amount_moved(*old(mint), *final(mint), u, -amount.value())
            },
        },
        },
        r is Err ==> final(mint).spec_effects() == old(mint).spec_effects(),
{
    if amount.is_zero() {
        return Ok(());
    }
    let total_supply_uref = match mint.get_key(TOTAL_SUPPLY_KEY) {
        Some(Key::URef(uref)) => uref,
        Some(_) => return Err(MintError::MissingKey),
        None => return Err(MintError::MissingKey),
    };
    let total_supply: U512 = match mint.read_amount(total_supply_uref)? {
        Some(total) => total,
        None => return Err(MintError::TotalSupplyNotFound),
    };
    let reduced_total_supply = match total_supply.checked_sub(&amount) {
        Some(reduced) => reduced,
        None => return Err(MintError::ArithmeticOverflow),
    };
    let ghost before = *mint;
    mint.write_amount(total_supply_uref, reduced_total_supply)?;
    proof {
        assert(final(mint).spec_effects().take(before.spec_effects().len() as int) =~= before.spec_effects());
    }
    Ok(())
}

/// A transfer that passes its checks is authorized, moves from a writeable purse to an
/// addable existing one, and moves no more than the source's available balance nor, from
/// the caller's main purse when the caller is not the system, than the approved spending
/// limit; the total it reports is the source's total balance.
pub proof fn law_transfer_plan<M: MintState>(
    m: M,
    maybe_to: Option<AccountHash>,
    source: URef,
    target: URef,
    amount: U512,
)
    requires
        spec_transfer_plan(m, maybe_to, source, target, amount) is Ok,
    ensures
        spec_transfer_authorization(m, maybe_to, target) is Ok,
        spec_is_writeable(source),
        spec_is_addable(target),
        m.spec_available_balance(source) matches Ok(Some(a)) && amount.value() <= a.value(),
        m.spec_available_balance(target) matches Ok(Some(_)),
        m.spec_total_balance(source) == Ok::<U512, MintError>(
            spec_transfer_plan(m, maybe_to, source, target, amount)->Ok_0.1,
        ),
        m.spec_main_purse() is Some,
        !is_system(m.spec_caller()) && m.spec_main_purse()->0.addr == source.addr ==> amount.value()
            <= m.spec_approved_spending_limit().value(),
{
}

/// With unrestricted transfers allowed, every transfer is authorized.
pub proof fn law_unrestricted_transfers_authorized<M: MintState>(
    m: M,
    maybe_to: Option<AccountHash>,
    target: URef,
)
    requires
        m.spec_allow_unrestricted_transfers(),
    ensures
        spec_transfer_authorization(m, maybe_to, target) is Ok,
{
}

/// With unrestricted transfers disabled: system entities, standard payment and the system
/// as initiator may always transfer; a smart contract, or an entity outside the registry,
/// only when the caller is the system or an administrator; an initiator not naming a
/// receiving account, or naming one with no footprint yet, only when it is an administrator;
/// and without an immediate caller nobody may.
pub proof fn law_restricted_transfer_authorization<M: MintState>(
    m: M,
    maybe_to: Option<AccountHash>,
    target: URef,
)
    requires
        !m.spec_allow_unrestricted_transfers(),
        m.spec_system_entity_registry() is Ok,
    ensures
        ({
            let registry = m.spec_system_entity_registry()->Ok_0;
            let caller_ok = is_system(m.spec_caller()) || m.spec_is_administrator(m.spec_caller());
            let ok = spec_transfer_authorization(m, maybe_to, target) is Ok;
            &&& m.spec_immediate_caller() is None ==> !ok
            &&& m.spec_immediate_caller() matches Some(Caller::Entity { entity_addr, .. }) ==> (ok
                <==> (registry.contains(entity_addr) || caller_ok))
            &&& m.spec_immediate_caller() matches Some(Caller::SmartContract { .. }) ==> (ok <==> caller_ok)
            &&& m.spec_immediate_caller() matches Some(Caller::Initiator { account_hash }) ==> {
                &&& m.spec_is_called_from_standard_payment() || is_system(account_hash) ==> ok
                &&& !m.spec_is_called_from_standard_payment() && !is_system(account_hash)
                    && maybe_to is None ==> (ok <==> m.spec_is_administrator(account_hash))
                &&& (!m.spec_is_called_from_standard_payment() && !is_system(account_hash)
                    && maybe_to is Some && m.spec_runtime_footprint(maybe_to->0) == Ok::<
                    Option<RuntimeFootprint>,
                    ProviderError,
                >(None)) ==> (ok <==> m.spec_is_administrator(account_hash))
            }
        }),
{
}

/// With unrestricted transfers disabled, an initiating account other than the system, not
/// paying through standard payment, may transfer to an account whose main purse is the
/// target exactly when it is an administrator itself, or the receiving account is the system
/// or an administrator; never to another purse of that account.
pub proof fn law_initiator_transfer_authorization<M: MintState>(
    m: M,
    account_hash: AccountHash,
    to: AccountHash,
    footprint: RuntimeFootprint,
    target: URef,
)
    requires
        !m.spec_allow_unrestricted_transfers(),
        m.spec_system_entity_registry() is Ok,
        m.spec_immediate_caller() == Some(Caller::Initiator { account_hash }),
        !m.spec_is_called_from_standard_payment(),
        !is_system(account_hash),
        m.spec_runtime_footprint(to) == Ok::<Option<RuntimeFootprint>, ProviderError>(
            Some(footprint),
        ),
        footprint.main_purse is Some,
    ensures
        footprint.main_purse->0.addr == target.addr ==> (spec_transfer_authorization(
            m,
            Some(to),
            target,
        ) is Ok <==> (m.spec_is_administrator(account_hash) || is_system(to)
            || m.spec_is_administrator(to))),
        footprint.main_purse->0.addr != target.addr ==> spec_transfer_authorization(
            m,
            Some(to),
            target,
        ) == Err::<(), MintError>(MintError::DisabledUnrestrictedTransfers),
{
}

/// Checks that the transfer is authorized, changing nothing.
fn authorize_transfer<M: RuntimeProvider>(m: &mut M, maybe_to: Option<AccountHash>, target: URef) -> (r: Result<
    (),
    MintError,
>)
    ensures
        r == spec_transfer_authorization(*old(m), maybe_to, target),
        unchanged(*old(m), *final(m)),
{
    let system = PublicKey::system_account_hash();
    if !m.allow_unrestricted_transfers() {
        let registry = match m.get_system_entity_registry() {
            Ok(registry) => registry,
            Err(_) => return Err(MintError::UnableToGetSystemRegistry),
        };
        let immediate_caller = m.get_immediate_caller();
        let caller = m.get_caller();
        proof {
            lemma_account_hash_unique(system, caller, PublicKey::System);
        }
        let caller_may_transfer = caller.eq_hash(&system) || m.is_administrator(&caller);
        match immediate_caller {
            Some(Caller::Entity { package_hash, entity_addr }) => {
                if !registry.contains_hash(&entity_addr) && !caller_may_transfer {
                    return Err(MintError::DisabledUnrestrictedTransfers);
                }
            },
            Some(Caller::Initiator { account_hash }) => {
                proof {
                    lemma_account_hash_unique(system, account_hash, PublicKey::System);
                }
                if !m.is_called_from_standard_payment() && !account_hash.eq_hash(&system) {
                    // For example: a session using transfer host functions, or calling
                    // the mint's entrypoint directly.
                    let is_source_admin = m.is_administrator(&account_hash);
                    match maybe_to {
                        Some(to) => {
                            let maybe_account = m.runtime_footprint_by_account_hash(to);
                            match maybe_account {
                                Ok(Some(runtime_footprint)) => {
                                    // This can happen when user tries to transfer funds by
                                    // calling mint directly but tries to specify wrong
                                    // account hash.
                                    let addr = match runtime_footprint.main_purse {
                                        Some(uref) => uref.addr(),
                                        None => return Err(MintError::InvalidContext),
                                    };
                                    if !bytes32_eq(&addr, &target.addr) {
                                        return Err(MintError::DisabledUnrestrictedTransfers);
                                    }
                                    proof {
                                        lemma_account_hash_unique(system, to, PublicKey::System);
                                    }
                                    let is_target_system_account = to.eq_hash(&system);
                                    let is_target_administrator = m.is_administrator(&to);
                                    if !(is_source_admin || is_target_system_account
                                        || is_target_administrator) {
                                        return Err(MintError::DisabledUnrestrictedTransfers);
                                    }
                                },
                                Ok(None) => {
                                    // `to` is specified, but no new account is persisted
                                    // yet. Only administrators can do that.
                                    if !is_source_admin {
                                        return Err(MintError::DisabledUnrestrictedTransfers);
                                    }
                                },
                                Err(_) => {
                                    return Err(MintError::Storage);
                                },
                            }
                        },
                        None => {
                            if !is_source_admin {
                                return Err(MintError::DisabledUnrestrictedTransfers);
                            }
                        },
                    }
                }
            },
            Some(Caller::SmartContract { contract_package_hash, contract_hash }) => {
                if !caller_may_transfer {
                    return Err(MintError::DisabledUnrestrictedTransfers);
                }
            },
            None => {
                // There's always an immediate caller, but we should return something.
                return Err(MintError::DisabledUnrestrictedTransfers);
            },
        }
    }
    Ok(())
}

/// The state of a mint's services, as its contracts speak of it: what each query answers,
/// and the changes made so far.
pub trait MintState: Sized {
    spec fn spec_caller(&self) -> AccountHash;

    spec fn spec_immediate_caller(&self) -> Option<Caller>;

    spec fn spec_is_called_from_standard_payment(&self) -> bool;

    spec fn spec_system_entity_registry(&self) -> Result<Seq<[u8; 32]>, ProviderError>;

    spec fn spec_runtime_footprint(&self, account_hash: AccountHash) -> Result<
        Option<RuntimeFootprint>,
        ProviderError,
    >;

    spec fn spec_key(&self, name: Seq<char>) -> Option<Key>;

    spec fn spec_approved_spending_limit(&self) -> U512;

    spec fn spec_main_purse(&self) -> Option<URef>;

    spec fn spec_is_administrator(&self, account_hash: AccountHash) -> bool;

    spec fn spec_allow_unrestricted_transfers(&self) -> bool;

    spec fn spec_is_valid_uref(&self, uref: URef) -> bool;

    spec fn spec_read_amount(&self, uref: URef) -> Result<Option<U512>, MintError>;

    spec fn spec_read_rate(&self, uref: URef) -> Result<Option<SeigniorageRate>, MintError>;

    spec fn spec_available_balance(&self, purse: URef) -> Result<Option<U512>, MintError>;

    spec fn spec_total_balance(&self, purse: URef) -> Result<U512, MintError>;

    spec fn spec_purse_exists(&self, purse: URef) -> Result<bool, MintError>;

    /// The changes made so far.
    spec fn spec_effects(&self) -> Seq<MintEffect>;

    /// The changes asked of the services so far, each with whether it was made.
    spec fn spec_requests(&self) -> Seq<(MintEffect, bool)>;
}

/// The services of the runtime. Their contracts say what the mint may rely on: queries
/// answer from the state and change nothing.
pub trait RuntimeProvider: MintState {

    // ----- runtime services -----
    /// Returns the caller of the current context.
    fn get_caller(&self) -> (r: AccountHash)
        ensures
            r == self.spec_caller(),
    ;

    /// Returns the immediate caller.
    fn get_immediate_caller(&self) -> (r: Option<Caller>)
        ensures
            r == self.spec_immediate_caller(),
    ;

    /// Is the mint called from standard payment?
    fn is_called_from_standard_payment(&self) -> (r: bool)
        ensures
            r == self.spec_is_called_from_standard_payment(),
    ;

    /// Returns the registry of system entities.
    fn get_system_entity_registry(&self) -> (r: Result<SystemHashRegistry, ProviderError>)
        ensures
            match r {
                Ok(reg) => self.spec_system_entity_registry() == Ok::<
                    Seq<[u8; 32]>,
                    ProviderError,
                >(reg.hashes@),
                Err(e) => self.spec_system_entity_registry() == Err::<
                    Seq<[u8; 32]>,
                    ProviderError,
                >(e),
            },
    ;

    /// Reads the runtime footprint of an account.
    fn runtime_footprint_by_account_hash(&mut self, account_hash: AccountHash) -> (r: Result<
        Option<RuntimeFootprint>,
        ProviderError,
    >)
        ensures
            r == old(self).spec_runtime_footprint(account_hash),
            unchanged(*old(self), *final(self)),
    ;

    /// Returns the key stored under `name`, if any.
    fn get_key(&self, name: &str) -> (r: Option<Key>)
        ensures
            r == self.spec_key(name@),
    ;

    /// Returns the approved spending limit.
    fn get_approved_spending_limit(&self) -> (r: U512)
        ensures
            r == self.spec_approved_spending_limit(),
    ;

    /// Reduces the approved spending limit by `amount`.
    fn sub_approved_spending_limit(&mut self, amount: U512)
        ensures
            recorded(*old(self), *final(self), true, MintEffect::SubApprovedSpendingLimit(amount)),
            reads_kept(*old(self), *final(self)),
            balances_kept(*old(self), *final(self)),
    ;

    /// Returns the main purse of the caller, if any.
    fn get_main_purse(&self) -> (r: Option<URef>)
        ensures
            r == self.spec_main_purse(),
    ;

    /// Is `account_hash` an administrator?
    fn is_administrator(&self, account_hash: &AccountHash) -> (r: bool)
        ensures
            r == self.spec_is_administrator(*account_hash),
    ;

    /// Are unrestricted transfers allowed?
    fn allow_unrestricted_transfers(&self) -> (r: bool)
        ensures
            r == self.spec_allow_unrestricted_transfers(),
    ;

    /// Is `uref` a reference that the current context holds?
    fn is_valid_uref(&self, uref: &URef) -> (r: bool)
        ensures
            r == self.spec_is_valid_uref(*uref),
    ;

}

/// The services of storage: queries answer from the state and change nothing, and each
/// change is recorded as an effect.
pub trait StorageProvider: MintState {
    /// Creates a new purse reference, which the context then holds; what is stored under
    /// other addresses stays as it was.
    fn new_uref(&mut self) -> (r: Result<URef, MintError>)
        ensures
            same_runtime(*old(self), *final(self)),
            r matches Ok(u) ==> amounts_kept_except(*old(self), *final(self), u)
                && final(self).spec_is_valid_uref(u) && forall|v: URef|
                v.addr != u.addr ==> #[trigger] final(self).spec_is_valid_uref(v) == old(
                    self,
                ).spec_is_valid_uref(v),
            r is Err ==> reads_kept(*old(self), *final(self)),
            r matches Ok(u) ==> final(self).spec_effects() == old(self).spec_effects().push(
                MintEffect::NewURef(u),
            ) && final(self).spec_requests() == old(self).spec_requests().push(
                (MintEffect::NewURef(u), true),
            ),
            r is Err ==> final(self).spec_effects() == old(self).spec_effects()
                && final(self).spec_requests() == old(self).spec_requests(),
    ;

    /// Reads the amount stored under `uref`.
    fn read_amount(&mut self, uref: URef) -> (r: Result<Option<U512>, MintError>)
        ensures
            r == old(self).spec_read_amount(uref),
            unchanged(*old(self), *final(self)),
    ;

    /// Reads the seigniorage rate stored under `uref`.
    fn read_rate(&mut self, uref: URef) -> (r: Result<Option<SeigniorageRate>, MintError>)
        ensures
            r == old(self).spec_read_rate(uref),
            unchanged(*old(self), *final(self)),
    ;

    /// Stores `amount` under `uref`: a later read there gives `amount`.
    fn write_amount(&mut self, uref: URef, amount: U512) -> (r: Result<(), MintError>)
        ensures
            recorded(*old(self), *final(self), r is Ok, MintEffect::WriteAmount(uref, amount)),
            refs_kept(*old(self), *final(self)),
            amounts_kept_except(*old(self), *final(self), uref),
            r is Ok ==> final(self).spec_read_amount(uref) == Ok::<Option<U512>, MintError>(
                Some(amount),
            ),
            r is Err ==> reads_kept(*old(self), *final(self)),
    ;

    /// Adds `amount` to the amount stored under `uref`: a later read there gives the earlier
    /// amount plus `amount`.
    fn add(&mut self, uref: URef, amount: U512) -> (r: Result<(), MintError>)
        ensures
            recorded(*old(self), *final(self), r is Ok, MintEffect::Add(uref, amount)),
            refs_kept(*old(self), *final(self)),
            amounts_kept_except(*old(self), *final(self), uref),
            r is Ok ==> amount_moved(*old(self), *final(self), uref, amount.value() as int),
            r is Err ==> reads_kept(*old(self), *final(self)),
    ;

    /// Sets the balance of `purse`: a later read of its total balance gives `amount`.
    fn write_balance(&mut self, purse: URef, amount: U512) -> (r: Result<(), MintError>)
        ensures
            recorded(*old(self), *final(self), r is Ok, MintEffect::WriteBalance(purse, amount)),
            reads_kept(*old(self), *final(self)),
            others_kept(*old(self), *final(self), purse),
            r is Ok ==> final(self).spec_total_balance(purse) == Ok::<U512, MintError>(amount),
            r is Err ==> final(self).spec_total_balance(purse) == old(self).spec_total_balance(
                purse,
            ),
    ;

    /// Adds `amount` to the balance of `purse`: a later read of its total balance gives the
    /// earlier one plus `amount`.
    fn add_balance(&mut self, purse: URef, amount: U512) -> (r: Result<(), MintError>)
        ensures
            recorded(*old(self), *final(self), r is Ok, MintEffect::AddBalance(purse, amount)),
            reads_kept(*old(self), *final(self)),
            others_kept(*old(self), *final(self), purse),
            r is Ok ==> grew_by(*old(self), *final(self), purse, amount),
            r is Err ==> final(self).spec_total_balance(purse) == old(self).spec_total_balance(
                purse,
            ),
    ;

    /// The balance of `purse` that is not held; `None` for an unknown purse.
    fn available_balance(&mut self, purse: URef) -> (r: Result<Option<U512>, MintError>)
        ensures
            r == old(self).spec_available_balance(purse),
            unchanged(*old(self), *final(self)),
    ;

    /// The whole balance of `purse`.
    fn total_balance(&mut self, purse: URef) -> (r: Result<U512, MintError>)
        ensures
            r == old(self).spec_total_balance(purse),
            unchanged(*old(self), *final(self)),
    ;


}

/// The services of the system.
pub trait SystemProvider: MintState {
    /// Records a transfer.
    fn record_transfer(
        &mut self,
        maybe_to: Option<AccountHash>,
        source: URef,
        target: URef,
        amount: U512,
        id: Option<u64>,
    ) -> (r: Result<(), MintError>)
        ensures
            recorded(
                *old(self),
                *final(self),
                r is Ok,
                MintEffect::RecordTransfer { maybe_to, source, target, amount, id },
            ),
            reads_kept(*old(self), *final(self)),
            balances_kept(*old(self), *final(self)),
    ;
}

/// Mint: the token operations, on top of the services of the runtime, of storage and of
/// the system, which the implementor provides.
pub trait Mint: RuntimeProvider + StorageProvider + SystemProvider {
    // ----- the token operations -----
    /// Mint new token with given `initial_balance` balance. Returns new purse on success,
    /// otherwise an error. Only the system may create a purse that is not empty; the total
    /// supply grows by the initial balance.
    fn mint(&mut self, initial_balance: U512) -> (r: Result<URef, MintError>)
        ensures
            same_runtime(*old(self), *final(self)),
            initial_balance.value() != 0 && !is_system(old(self).spec_caller()) ==> r == Err::<
                URef,
                MintError,
            >(MintError::InvalidNonEmptyPurseCreation) && unchanged(*old(self), *final(self)),
            initial_balance.value() != 0 && total_supply_uref(*old(self)) is None ==> r is Err,
            r matches Ok(purse) ==> {
                let e = old(self).spec_effects().push(MintEffect::NewURef(purse)).push(
                    MintEffect::WriteBalance(purse, initial_balance),
                );
                if initial_balance.value() == 0 {
                    final(self).spec_effects() == e
                } else {
                    total_supply_uref(*old(self)) matches Some(u) && final(self).spec_effects()
                        == e.push(MintEffect::Add(u, initial_balance)) && (u.addr != purse.addr
                        ==> amount_moved(*old(self), *final(self), u, initial_balance.value() as int))
                }
            },
    {
        let caller = self.get_caller();
        let is_empty_purse = initial_balance.is_zero();
        let system = PublicKey::system_account_hash();
        proof {
            lemma_account_hash_unique(system, caller, PublicKey::System);
        }
        if !is_empty_purse && !caller.eq_hash(&system) {
            return Err(MintError::InvalidNonEmptyPurseCreation);
        }
        let ghost s0 = *self;
        let purse_uref: URef = self.new_uref()?;
        self.write_balance(purse_uref, initial_balance)?;
        if !is_empty_purse {
            let total_supply_uref = match self.get_key(TOTAL_SUPPLY_KEY) {
                None => {
                    return Err(MintError::TotalSupplyNotFound);
                },
                Some(Key::URef(uref)) => uref,
                Some(_) => return Err(MintError::MissingKey),
            };
            self.add(total_supply_uref, initial_balance)?;
        }
        Ok(purse_uref)
    }

    /// Read balance of given `purse`: its available balance, or `PurseNotFound`.
    fn balance(&mut self, purse: URef) -> (r: Result<Option<U512>, MintError>)
        ensures
            unchanged(*old(self), *final(self)),
            r == match old(self).spec_available_balance(purse) {
                Ok(Some(b)) => Ok(Some(b)),
                Ok(None) => Err(MintError::PurseNotFound),
                Err(e) => Err(e),
            },
    {
        match self.available_balance(purse)? {
            Some(b) => Ok(Some(b)),
            None => Err(MintError::PurseNotFound),
        }
    }

    /// Reduce total supply by `amount`. Only the system may do so.
    fn reduce_total_supply(&mut self, amount: U512) -> (r: Result<(), MintError>)
        ensures
            same_runtime(*old(self), *final(self)),
            !is_system(old(self).spec_caller()) ==> r == Err::<(), MintError>(
                MintError::InvalidTotalSupplyReductionAttempt,
            ) && unchanged(*old(self), *final(self)),
            is_system(old(self).spec_caller()) && amount.value() == 0 ==> r is Ok && unchanged(
                *old(self),
                *final(self),
            ),
            r is Ok && amount.value() != 0 ==> reduce_effects(
                *old(self),
                old(self).spec_effects(),
                final(self).spec_effects(),
                amount,
            ) && (total_supply_uref(*old(self)) matches Some(u) && amount_moved(
                *old(self),
                *final(self),
                u,
                -amount.value(),
            )),
            r is Err ==> final(self).spec_effects() == old(self).spec_effects(),
    {
        let caller = self.get_caller();
        let system = PublicKey::system_account_hash();
        proof {
            lemma_account_hash_unique(system, caller, PublicKey::System);
        }
        if !caller.eq_hash(&system) {
            return Err(MintError::InvalidTotalSupplyReductionAttempt);
        }
        reduce_total_supply_unsafe(self, amount)
    }

    /// Burns native tokens: the purse's balance drops by `amount`, or to zero, and the total
    /// supply drops by what was burned.
    fn burn(&mut self, purse: URef, amount: U512) -> (r: Result<(), MintError>)
        ensures
            same_runtime(*old(self), *final(self)),
            !spec_is_writeable(purse) ==> r == Err::<(), MintError>(
                MintError::InvalidAccessRights,
            ) && unchanged(*old(self), *final(self)),
            spec_is_writeable(purse) && !old(self).spec_is_valid_uref(purse) ==> r == Err::<
                (),
                MintError,
            >(MintError::ForgedReference) && unchanged(*old(self), *final(self)),
            spec_is_writeable(purse) && old(self).spec_is_valid_uref(purse) ==> match old(
                self,
            ).spec_available_balance(purse) {
                Err(e) => r == Err::<(), MintError>(e) && unchanged(*old(self), *final(self)),
                Ok(None) => r == Err::<(), MintError>(MintError::PurseNotFound) && unchanged(
                    *old(self),
                    *final(self),
                ),
                Ok(Some(balance)) => r is Ok ==> {
                    let n = old(self).spec_effects().len() as int;
                    let burned = if balance.value() >= amount.value() {
                        amount.value()
                    } else {
                        balance.value()
                    };
                    &&& final(self).spec_effects().len() >= n + 1
                    &&& final(self).spec_effects().take(n) == old(self).spec_effects()
                    &&& match final(self).spec_effects()[n] {
                        MintEffect::WriteBalance(p, v) => p == purse && v.value() == balance.value()
                            - burned,
                        _ => false,
                    }
                    &&& burned == 0 ==> final(self).spec_effects().len() == n + 1
                    &&& burned != 0 ==> exists|b: U512|
                        b.value() == burned && reduce_effects(
                            *old(self),
                            final(self).spec_effects().take(n + 1),
                            final(self).spec_effects(),
                            b,
                        )
                    &&& burned != 0 ==> (total_supply_uref(*old(self)) matches Some(u)
                        && amount_moved(*old(self), *final(self), u, -burned))
                },
            },
    {
        if !purse.is_writeable() {
            return Err(MintError::InvalidAccessRights);
        }
        if !self.is_valid_uref(&purse) {
            return Err(MintError::ForgedReference);
        }
        let source_available_balance: U512 = match self.balance(purse)? {
            Some(source_balance) => source_balance,
            None => return Err(MintError::PurseNotFound),
        };
        let new_balance = match source_available_balance.checked_sub(&amount) {
            Some(b) => b,
            None => U512::zero(),
        };
        let ghost s1 = *self;
        self.write_balance(purse, new_balance)?;
        let burned_amount = source_available_balance.saturating_sub(&new_balance);
        let ghost s2 = *self;
        let r = reduce_total_supply_unsafe(self, burned_amount);
        proof {
            let n = s1.spec_effects().len() as int;
            assert(s2.spec_effects().take(n) =~= s1.spec_effects());
            if r is Ok && burned_amount.value() != 0 {
                assert(self.spec_effects().take(n + 1) =~= s2.spec_effects());
                assert(self.spec_effects().take(n) =~= s1.spec_effects());
                assert(self.spec_effects()[n] == s2.spec_effects()[n]);
            }
            if burned_amount.value() == 0 && r is Ok {
                assert(self.spec_effects() == s2.spec_effects());
            }
        }
        r
    }

    /// Transfers `amount` of tokens from `source` purse to a `target` purse.
    ///
    /// When unrestricted transfers are disabled, only system entities, standard payment,
    /// the system, administrators, and initiators paying an administrator or the system
    /// (or, being administrators themselves, anyone) may transfer. The available balance
    /// of the source must cover the amount; the source's total balance is reduced by it.
    /// The changes are asked of the services in order and stop at the first that fails;
    /// the transfer succeeds exactly when all are made.
    #[verifier::loop_isolation(false)]
    #[verifier::spinoff_prover]
    #[verifier::rlimit(60)]
    fn transfer(
        &mut self,
        maybe_to: Option<AccountHash>,
        source: URef,
        target: URef,
        amount: U512,
        id: Option<u64>,
    ) -> (r: Result<(), MintError>)
        requires
            transfer_compares_balances(*old(self), maybe_to, source, target, amount) ==> {
                &&& old(self).spec_available_balance(source) matches Ok(Some(available))
                &&& old(self).spec_total_balance(source) matches Ok(total)
                &&& available.value() <= total.value()
            },
        ensures
            same_runtime(*old(self), *final(self)),
            match spec_transfer_plan(*old(self), maybe_to, source, target, amount) {
                Err(e) => r == Err::<(), MintError>(e) && unchanged(*old(self), *final(self)),
                Ok((applies, total)) => {
                    &&& transfer_requests(
                        old(self).spec_requests(),
                        final(self).spec_requests(),
                        applies,
                        total,
                        maybe_to,
                        source,
                        target,
                        amount,
                        id,
                        r is Ok,
                    )
                    &&& r is Ok ==> transfer_effects(
                        old(self).spec_effects(),
                        final(self).spec_effects(),
                        applies,
                        total,
                        maybe_to,
                        source,
                        target,
                        amount,
                        id,
                    )
                    &&& r is Ok && source.addr != target.addr ==> {
                        &&& final(self).spec_total_balance(source) matches Ok(s) && s.value()
                            == total.value() - amount.value()
                        &&& grew_by(*old(self), *final(self), target, amount)
                    }
                },
            },
            r is Err ==> final(self).spec_effects().len() <= old(self).spec_effects().len() + 3,
    {
        let ghost s0 = *self;
        let system = PublicKey::system_account_hash();
        if let Err(e) = authorize_transfer(self, maybe_to, target) {
            return Err(e);
        }
        if !source.is_writeable() || !target.is_addable() {
            return Err(MintError::InvalidAccessRights);
        }
        let source_available_balance: U512 = match self.available_balance(source)? {
            Some(source_balance) => source_balance,
            None => return Err(MintError::SourceNotFound),
        };
        if source_available_balance.lt(&amount) {
            // NOTE: we use AVAILABLE balance to check sufficient funds
            return Err(MintError::InsufficientFunds);
        }
        let source_total_balance = self.total_balance(source)?;
        // The available balance can never be greater than the total balance.
        assert(source_available_balance.value() <= source_total_balance.value());
        match self.available_balance(target)? {
            Some(_) => {},
            None => return Err(MintError::DestNotFound),
        }
        let addr = match self.get_main_purse() {
            None => return Err(MintError::InvalidURef),
            Some(uref) => uref.addr(),
        };
        let caller = self.get_caller();
        proof {
            lemma_account_hash_unique(system, caller, PublicKey::System);
        }
        let ghost s1 = *self;
        if !caller.eq_hash(&system) && bytes32_eq(&addr, &source.addr) {
            if self.get_approved_spending_limit().lt(&amount) {
                return Err(MintError::UnapprovedSpendingAmount);
            }
            self.sub_approved_spending_limit(amount);
        }
        let ghost s2 = *self;
        // NOTE: we use TOTAL balance to determine new balance
        let new_balance = source_total_balance.saturating_sub(&amount);
        let ghost q = s2.spec_requests();
        let ghost n = q.len() as int;
        let ghost wb = MintEffect::WriteBalance(source, new_balance);
        let ghost ab = MintEffect::AddBalance(target, amount);
        let ghost rt = MintEffect::RecordTransfer { maybe_to, source, target, amount, id };
        if let Err(e) = self.write_balance(source, new_balance) {
            proof {
                assert(self.spec_requests().take(n) =~= q);
            }
            return Err(e);
        }
        if let Err(e) = self.add_balance(target, amount) {
            proof {
                assert(self.spec_requests() =~= q.push((wb, true)).push((ab, false)));
                assert(self.spec_requests().take(n) =~= q);
            }
            return Err(e);
        }
        let recorded = self.record_transfer(maybe_to, source, target, amount, id);
        proof {
            assert(self.spec_requests() =~= q.push((wb, true)).push((ab, true)).push((rt, recorded is Ok)));
            assert(self.spec_requests().take(n) =~= q);
            let base = s2.spec_effects();
            assert(self.spec_effects().take(base.len() as int) =~= base);
        }
        if let Err(e) = recorded {
            return Err(e);
        }
        Ok(())
    }

    /// Retrieves the base round reward: the round seigniorage rate times the total supply,
    /// rounded down. Reads only.
    fn read_base_round_reward(&mut self) -> (r: Result<U512, MintError>)
        ensures
            unchanged(*old(self), *final(self)),
            match spec_base_round_reward(*old(self)) {
                Err(e) => r == Err::<U512, MintError>(e),
                Ok(v) => r matches Ok(t) && t.value() == v,
            },
    {
        let total_supply_uref = match self.get_key(TOTAL_SUPPLY_KEY) {
            Some(Key::URef(uref)) => uref,
            Some(_) => return Err(MintError::MissingKey),
            None => return Err(MintError::MissingKey),
        };
        let total_supply: U512 = match self.read_amount(total_supply_uref)? {
            Some(total) => total,
            None => return Err(MintError::TotalSupplyNotFound),
        };
        let round_seigniorage_rate_uref = match self.get_key(ROUND_SEIGNIORAGE_RATE_KEY) {
            Some(Key::URef(uref)) => uref,
            Some(_) => return Err(MintError::MissingKey),
            None => return Err(MintError::MissingKey),
        };
        let round_seigniorage_rate: SeigniorageRate = match self.read_rate(
            round_seigniorage_rate_uref,
        )? {
            Some(rate) => rate,
            None => return Err(MintError::TotalSupplyNotFound),
        };
        match round_reward(round_seigniorage_rate, total_supply) {
            Some(reward) => Ok(reward),
            None => Err(MintError::ArithmeticOverflow),
        }
    }

    /// Mint `amount` new token into `existing_purse`. Only the system may do so; a zero
    /// amount changes nothing. The total supply grows by the amount.
    fn mint_into_existing_purse(&mut self, existing_purse: URef, amount: U512) -> (r: Result<
        (),
        MintError,
    >)
        ensures
            same_runtime(*old(self), *final(self)),
            !is_system(old(self).spec_caller()) ==> r == Err::<(), MintError>(
                MintError::InvalidContext,
            ) && unchanged(*old(self), *final(self)),
            is_system(old(self).spec_caller()) && amount.value() == 0 ==> r is Ok && unchanged(
                *old(self),
                *final(self),
            ),
            is_system(old(self).spec_caller()) && amount.value() != 0 ==> match old(
                self,
            ).spec_purse_exists(existing_purse) {
                Err(e) => r == Err::<(), MintError>(e) && unchanged(*old(self), *final(self)),
                Ok(false) => r == Err::<(), MintError>(MintError::PurseNotFound) && unchanged(
                    *old(self),
                    *final(self),
                ),
                Ok(true) => {
                    &&& total_supply_uref(*old(self)) is None ==> r is Err
                    &&& r is Ok ==> (total_supply_uref(*old(self)) matches Some(u)
                        && final(self).spec_effects() == old(self).spec_effects().push(
                        MintEffect::AddBalance(existing_purse, amount),
                    ).push(MintEffect::Add(u, amount)) && amount_moved(
                        *old(self),
                        *final(self),
                        u,
                        amount.value() as int,
                    ))
                },
            },
    {
        let caller = self.get_caller();
        let system = PublicKey::system_account_hash();
        proof {
            lemma_account_hash_unique(system, caller, PublicKey::System);
        }
        if !caller.eq_hash(&system) {
            return Err(MintError::InvalidContext);
        }
        if amount.is_zero() {
            // treat as noop
            return Ok(());
        }
        if !self.purse_exists(existing_purse)? {
            return Err(MintError::PurseNotFound);
        }
        self.add_balance(existing_purse, amount)?;
        let total_supply_uref = match self.get_key(TOTAL_SUPPLY_KEY) {
            None => {
                // total supply URef should exist due to genesis
                return Err(MintError::TotalSupplyNotFound);
            },
            Some(Key::URef(uref)) => uref,
            Some(_) => return Err(MintError::MissingKey),
        };
        // increase total supply
        self.add(total_supply_uref, amount)?;
        Ok(())
    }

    /// Check if a purse exists.
    fn purse_exists(&mut self, uref: URef) -> (r: Result<bool, MintError>)
        ensures
            r == old(self).spec_purse_exists(uref),
            unchanged(*old(self), *final(self)),
    ;
}

} // verus!
