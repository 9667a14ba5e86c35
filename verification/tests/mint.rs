use casper_core::keys::{AccessRights, AccountHash, Key, PublicKey, URef};
use casper_core::mint::{
    Caller, Mint, MintEffect, MintError, MintState, ProviderError, RuntimeFootprint,
    RuntimeProvider, StorageProvider, SystemHashRegistry, SystemProvider,
};
use casper_core::ratio::{gcd_u512, round_reward, SeigniorageRate};
use casper_core::u512::U512;
use vstd::seq::Seq;

const ALL_RIGHTS: AccessRights = AccessRights(7);

fn u(v: u64) -> U512 {
    U512::from_u64(v)
}

/// An in-memory mint: balances and amounts kept by purse address, every change logged.
struct TestMint {
    caller: AccountHash,
    immediate_caller: Option<Caller>,
    standard_payment: bool,
    registry: Vec<[u8; 32]>,
    footprints: Vec<(AccountHash, RuntimeFootprint)>,
    keys: Vec<(String, Key)>,
    approved_limit: U512,
    main_purse: Option<URef>,
    administrators: Vec<AccountHash>,
    unrestricted: bool,
    valid_urefs: Vec<URef>,
    amounts: Vec<([u8; 32], U512)>,
    balances: Vec<([u8; 32], U512)>,
    held: Vec<([u8; 32], U512)>,
    next_purse: u8,
    effects: Vec<MintEffect>,
    rates: Vec<([u8; 32], SeigniorageRate)>,
    fail_add_balance: bool,
}

fn lookup(entries: &[([u8; 32], U512)], addr: &[u8; 32]) -> Option<U512> {
    entries.iter().find(|(a, _)| a == addr).map(|(_, v)| *v)
}

fn store(entries: &mut Vec<([u8; 32], U512)>, addr: [u8; 32], value: U512) {
    match entries.iter_mut().find(|(a, _)| *a == addr) {
        Some(entry) => entry.1 = value,
        None => entries.push((addr, value)),
    }
}

fn total_supply() -> URef {
    URef::new([200; 32], ALL_RIGHTS)
}

impl TestMint {
    fn new(caller: AccountHash) -> Self {
        TestMint {
            caller,
            immediate_caller: Some(Caller::Initiator { account_hash: caller }),
            standard_payment: false,
            registry: vec![],
            footprints: vec![],
            keys: vec![("total_supply".to_string(), Key::URef(total_supply()))],
            approved_limit: u(1_000),
            main_purse: Some(URef::new([1; 32], ALL_RIGHTS)),
            administrators: vec![],
            unrestricted: true,
            valid_urefs: vec![],
            amounts: vec![([200; 32], u(10_000))],
            balances: vec![],
            held: vec![],
            next_purse: 100,
            effects: vec![],
            rates: vec![],
            fail_add_balance: false,
        }
    }

    fn system() -> Self {
        Self::new(PublicKey::system_account_hash())
    }

    fn with_purse(mut self, b: u8, balance: u64) -> Self {
        self.balances.push(([b; 32], u(balance)));
        self.valid_urefs.push(URef::new([b; 32], ALL_RIGHTS));
        self
    }

    fn balance_of(&self, b: u8) -> Option<U512> {
        lookup(&self.balances, &[b; 32])
    }

    fn supply(&self) -> U512 {
        lookup(&self.amounts, &[200; 32]).unwrap()
    }
}

impl MintState for TestMint {
    fn spec_caller(&self) -> AccountHash {
        unreachable!("only used in proofs")
    }
    fn spec_immediate_caller(&self) -> Option<Caller> {
        unreachable!("only used in proofs")
    }
    fn spec_is_called_from_standard_payment(&self) -> bool {
        unreachable!("only used in proofs")
    }
    fn spec_system_entity_registry(&self) -> Result<Seq<[u8; 32]>, ProviderError> {
        unreachable!("only used in proofs")
    }
    fn spec_runtime_footprint(
        &self,
        _account_hash: AccountHash,
    ) -> Result<Option<RuntimeFootprint>, ProviderError> {
        unreachable!("only used in proofs")
    }
    fn spec_key(&self, _name: Seq<char>) -> Option<Key> {
        unreachable!("only used in proofs")
    }
    fn spec_approved_spending_limit(&self) -> U512 {
        unreachable!("only used in proofs")
    }
    fn spec_main_purse(&self) -> Option<URef> {
        unreachable!("only used in proofs")
    }
    fn spec_is_administrator(&self, _account_hash: AccountHash) -> bool {
        unreachable!("only used in proofs")
    }
    fn spec_allow_unrestricted_transfers(&self) -> bool {
        unreachable!("only used in proofs")
    }
    fn spec_is_valid_uref(&self, _uref: URef) -> bool {
        unreachable!("only used in proofs")
    }
    fn spec_read_amount(&self, _uref: URef) -> Result<Option<U512>, MintError> {
        unreachable!("only used in proofs")
    }
    fn spec_available_balance(&self, _purse: URef) -> Result<Option<U512>, MintError> {
        unreachable!("only used in proofs")
    }
    fn spec_total_balance(&self, _purse: URef) -> Result<U512, MintError> {
        unreachable!("only used in proofs")
    }
    fn spec_purse_exists(&self, _purse: URef) -> Result<bool, MintError> {
        unreachable!("only used in proofs")
    }
    fn spec_effects(&self) -> Seq<MintEffect> {
        unreachable!("only used in proofs")
    }
    fn spec_requests(&self) -> Seq<(MintEffect, bool)> {
        unreachable!("only used in proofs")
    }
    fn spec_read_rate(&self, _uref: URef) -> Result<Option<SeigniorageRate>, MintError> {
        unreachable!("only used in proofs")
    }
}

impl RuntimeProvider for TestMint {
    fn get_caller(&self) -> AccountHash {
        self.caller
    }
    fn get_immediate_caller(&self) -> Option<Caller> {
        self.immediate_caller
    }
    fn is_called_from_standard_payment(&self) -> bool {
        self.standard_payment
    }
    fn get_system_entity_registry(&self) -> Result<SystemHashRegistry, ProviderError> {
        Ok(SystemHashRegistry { hashes: self.registry.clone() })
    }
    fn runtime_footprint_by_account_hash(
        &mut self,
        account_hash: AccountHash,
    ) -> Result<Option<RuntimeFootprint>, ProviderError> {
        Ok(self.footprints.iter().find(|(a, _)| *a == account_hash).map(|(_, f)| *f))
    }
    fn get_key(&self, name: &str) -> Option<Key> {
        self.keys.iter().find(|(n, _)| n == name).map(|(_, k)| *k)
    }
    fn get_approved_spending_limit(&self) -> U512 {
        self.approved_limit
    }
    fn sub_approved_spending_limit(&mut self, amount: U512) {
        self.approved_limit = self.approved_limit.saturating_sub(&amount);
        self.effects.push(MintEffect::SubApprovedSpendingLimit(amount));
    }
    fn get_main_purse(&self) -> Option<URef> {
        self.main_purse
    }
    fn is_administrator(&self, account_hash: &AccountHash) -> bool {
        self.administrators.contains(account_hash)
    }
    fn allow_unrestricted_transfers(&self) -> bool {
        self.unrestricted
    }
    fn is_valid_uref(&self, uref: &URef) -> bool {
        self.valid_urefs.contains(uref)
    }
}

impl StorageProvider for TestMint {
    fn new_uref(&mut self) -> Result<URef, MintError> {
        let purse = URef::new([self.next_purse; 32], ALL_RIGHTS);
        self.next_purse += 1;
        self.effects.push(MintEffect::NewURef(purse));
        Ok(purse)
    }
    fn read_amount(&mut self, uref: URef) -> Result<Option<U512>, MintError> {
        Ok(lookup(&self.amounts, &uref.addr))
    }
    fn read_rate(&mut self, uref: URef) -> Result<Option<SeigniorageRate>, MintError> {
        Ok(self.rates.iter().find(|(a, _)| *a == uref.addr).map(|(_, r)| *r))
    }
    fn write_amount(&mut self, uref: URef, amount: U512) -> Result<(), MintError> {
        store(&mut self.amounts, uref.addr, amount);
        self.effects.push(MintEffect::WriteAmount(uref, amount));
        Ok(())
    }
    fn add(&mut self, uref: URef, amount: U512) -> Result<(), MintError> {
        let current = lookup(&self.amounts, &uref.addr).unwrap_or_else(U512::zero);
        store(&mut self.amounts, uref.addr, current.checked_add(&amount).ok_or(MintError::ArithmeticOverflow)?);
        self.effects.push(MintEffect::Add(uref, amount));
        Ok(())
    }
    fn write_balance(&mut self, purse: URef, amount: U512) -> Result<(), MintError> {
        store(&mut self.balances, purse.addr, amount);
        self.effects.push(MintEffect::WriteBalance(purse, amount));
        Ok(())
    }
    fn add_balance(&mut self, purse: URef, amount: U512) -> Result<(), MintError> {
        if self.fail_add_balance {
            return Err(MintError::Storage);
        }
        let current = lookup(&self.balances, &purse.addr).unwrap_or_else(U512::zero);
        store(&mut self.balances, purse.addr, current.checked_add(&amount).ok_or(MintError::ArithmeticOverflow)?);
        self.effects.push(MintEffect::AddBalance(purse, amount));
        Ok(())
    }
    fn available_balance(&mut self, purse: URef) -> Result<Option<U512>, MintError> {
        let held = lookup(&self.held, &purse.addr).unwrap_or_else(U512::zero);
        Ok(lookup(&self.balances, &purse.addr).map(|b| b.saturating_sub(&held)))
    }
    fn total_balance(&mut self, purse: URef) -> Result<U512, MintError> {
        lookup(&self.balances, &purse.addr).ok_or(MintError::PurseNotFound)
    }
}

impl SystemProvider for TestMint {
    fn record_transfer(
        &mut self,
        maybe_to: Option<AccountHash>,
        source: URef,
        target: URef,
        amount: U512,
        id: Option<u64>,
    ) -> Result<(), MintError> {
        self.effects.push(MintEffect::RecordTransfer { maybe_to, source, target, amount, id });
        Ok(())
    }
}

impl Mint for TestMint {
    fn purse_exists(&mut self, uref: URef) -> Result<bool, MintError> {
        Ok(lookup(&self.balances, &uref.addr).is_some())
    }
}

fn purse(b: u8) -> URef {
    URef::new([b; 32], ALL_RIGHTS)
}

fn someone() -> AccountHash {
    AccountHash([42; 32])
}

#[test]
fn system_mints_a_funded_purse_and_grows_the_supply() {
    let mut mint = TestMint::system();
    let purse = mint.mint(u(500)).unwrap();
    assert_eq!(mint.balance_of(purse.addr[0]), Some(u(500)));
    assert_eq!(mint.supply(), u(10_500));
    assert_eq!(
        mint.effects,
        vec![
            MintEffect::NewURef(purse),
            MintEffect::WriteBalance(purse, u(500)),
            MintEffect::Add(total_supply(), u(500)),
        ]
    );
}

#[test]
fn only_the_system_mints_a_non_empty_purse() {
    let mut mint = TestMint::new(someone());
    assert_eq!(mint.mint(u(1)), Err(MintError::InvalidNonEmptyPurseCreation));
    assert!(mint.effects.is_empty());
    let empty = mint.mint(U512::zero()).unwrap();
    assert_eq!(mint.balance_of(empty.addr[0]), Some(U512::zero()));
    assert_eq!(mint.supply(), u(10_000));
}

#[test]
fn balance_of_a_missing_purse_is_an_error() {
    let mut mint = TestMint::system().with_purse(3, 70);
    assert_eq!(mint.balance(purse(3)), Ok(Some(u(70))));
    assert_eq!(mint.balance(purse(4)), Err(MintError::PurseNotFound));
}

#[test]
fn reduce_total_supply_is_for_the_system() {
    let mut mint = TestMint::new(someone());
    assert_eq!(mint.reduce_total_supply(u(5)), Err(MintError::InvalidTotalSupplyReductionAttempt));
    let mut mint = TestMint::system();
    assert_eq!(mint.reduce_total_supply(u(0)), Ok(()));
    assert!(mint.effects.is_empty());
    assert_eq!(mint.reduce_total_supply(u(5)), Ok(()));
    assert_eq!(mint.supply(), u(9_995));
    assert_eq!(mint.reduce_total_supply(u(100_000)), Err(MintError::ArithmeticOverflow));
    mint.keys.clear();
    assert_eq!(mint.reduce_total_supply(u(1)), Err(MintError::MissingKey));
}

#[test]
fn burn_lowers_the_balance_and_the_supply() {
    let mut mint = TestMint::new(someone()).with_purse(3, 70);
    assert_eq!(mint.burn(purse(3), u(20)), Ok(()));
    assert_eq!(mint.balance_of(3), Some(u(50)));
    assert_eq!(mint.supply(), u(9_980));
    // Burning more than the balance burns the balance.
    assert_eq!(mint.burn(purse(3), u(500)), Ok(()));
    assert_eq!(mint.balance_of(3), Some(U512::zero()));
    assert_eq!(mint.supply(), u(9_930));
}

#[test]
fn burn_errors() {
    let mut mint = TestMint::new(someone()).with_purse(3, 70);
    assert_eq!(
        mint.burn(URef::new([3; 32], AccessRights(1)), u(1)),
        Err(MintError::InvalidAccessRights)
    );
    assert_eq!(mint.burn(purse(9), u(1)), Err(MintError::ForgedReference));
    mint.valid_urefs.push(purse(9));
    assert_eq!(mint.burn(purse(9), u(1)), Err(MintError::PurseNotFound));
    assert!(mint.effects.is_empty());
}

#[test]
fn transfer_moves_the_amount_and_records_it() {
    let mut mint = TestMint::system().with_purse(3, 70).with_purse(4, 5);
    assert_eq!(mint.transfer(None, purse(3), purse(4), u(20), Some(9)), Ok(()));
    assert_eq!(mint.balance_of(3), Some(u(50)));
    assert_eq!(mint.balance_of(4), Some(u(25)));
    assert_eq!(
        mint.effects,
        vec![
            MintEffect::WriteBalance(purse(3), u(50)),
            MintEffect::AddBalance(purse(4), u(20)),
            MintEffect::RecordTransfer {
                maybe_to: None,
                source: purse(3),
                target: purse(4),
                amount: u(20),
                id: Some(9),
            },
        ]
    );
}

#[test]
fn transfer_from_the_main_purse_spends_the_approved_limit() {
    let mut mint = TestMint::new(someone()).with_purse(1, 5_000).with_purse(4, 0);
    assert_eq!(mint.transfer(None, purse(1), purse(4), u(2_000), None), Err(MintError::UnapprovedSpendingAmount));
    assert_eq!(mint.transfer(None, purse(1), purse(4), u(600), None), Ok(()));
    assert_eq!(mint.approved_limit, u(400));
    assert_eq!(mint.effects[0], MintEffect::SubApprovedSpendingLimit(u(600)));
}

#[test]
fn transfer_uses_the_available_balance_for_funds_and_the_total_for_the_new_balance() {
    let mut mint = TestMint::system().with_purse(3, 70).with_purse(4, 0);
    mint.held.push(([3; 32], u(30)));
    assert_eq!(mint.transfer(None, purse(3), purse(4), u(50), None), Err(MintError::InsufficientFunds));
    assert_eq!(mint.transfer(None, purse(3), purse(4), u(40), None), Ok(()));
    assert_eq!(mint.balance_of(3), Some(u(30)));
}

#[test]
fn transfer_errors() {
    let mut mint = TestMint::system().with_purse(3, 70).with_purse(4, 0);
    assert_eq!(
        mint.transfer(None, URef::new([3; 32], AccessRights(5)), purse(4), u(1), None),
        Err(MintError::InvalidAccessRights)
    );
    assert_eq!(mint.transfer(None, purse(8), purse(4), u(1), None), Err(MintError::SourceNotFound));
    assert_eq!(mint.transfer(None, purse(3), purse(8), u(1), None), Err(MintError::DestNotFound));
    mint.main_purse = None;
    assert_eq!(mint.transfer(None, purse(3), purse(4), u(1), None), Err(MintError::InvalidURef));
    assert!(mint.effects.is_empty());
}

#[test]
fn restricted_transfers_need_an_administrator_or_the_system() {
    let target_owner = AccountHash([43; 32]);
    let mut mint = TestMint::new(someone()).with_purse(3, 70).with_purse(4, 0);
    mint.unrestricted = false;
    mint.main_purse = Some(purse(1));
    assert_eq!(
        mint.transfer(None, purse(3), purse(4), u(1), None),
        Err(MintError::DisabledUnrestrictedTransfers)
    );
    mint.footprints.push((target_owner, RuntimeFootprint { main_purse: Some(purse(5)) }));
    assert_eq!(
        mint.transfer(Some(target_owner), purse(3), purse(4), u(1), None),
        Err(MintError::DisabledUnrestrictedTransfers)
    );
    mint.footprints.push((AccountHash([44; 32]), RuntimeFootprint { main_purse: None }));
    assert_eq!(
        mint.transfer(Some(AccountHash([44; 32])), purse(3), purse(4), u(1), None),
        Err(MintError::InvalidContext)
    );
    mint.administrators.push(someone());
    assert_eq!(mint.transfer(None, purse(3), purse(4), u(1), None), Ok(()));

    let mut mint = TestMint::new(someone()).with_purse(3, 70).with_purse(4, 0);
    mint.unrestricted = false;
    mint.immediate_caller = None;
    assert_eq!(
        mint.transfer(None, purse(3), purse(4), u(1), None),
        Err(MintError::DisabledUnrestrictedTransfers)
    );
    mint.immediate_caller = Some(Caller::Entity { package_hash: [0; 32], entity_addr: [9; 32] });
    mint.registry.push([9; 32]);
    mint.main_purse = Some(purse(1));
    assert_eq!(mint.transfer(None, purse(3), purse(4), u(1), None), Ok(()));
    let mut mint = TestMint::new(someone()).with_purse(3, 70).with_purse(4, 0);
    mint.unrestricted = false;
    mint.standard_payment = true;
    assert_eq!(mint.transfer(None, purse(3), purse(4), u(1), None), Ok(()));
}

#[test]
fn mint_into_existing_purse() {
    let mut mint = TestMint::new(someone()).with_purse(3, 70);
    assert_eq!(mint.mint_into_existing_purse(purse(3), u(5)), Err(MintError::InvalidContext));
    let mut mint = TestMint::system().with_purse(3, 70);
    assert_eq!(mint.mint_into_existing_purse(purse(3), u(0)), Ok(()));
    assert!(mint.effects.is_empty());
    assert_eq!(mint.mint_into_existing_purse(purse(9), u(5)), Err(MintError::PurseNotFound));
    assert_eq!(mint.mint_into_existing_purse(purse(3), u(5)), Ok(()));
    assert_eq!(mint.balance_of(3), Some(u(75)));
    assert_eq!(mint.supply(), u(10_005));
    assert_eq!(
        mint.effects,
        vec![MintEffect::AddBalance(purse(3), u(5)), MintEffect::Add(total_supply(), u(5))]
    );
}

#[test]
fn system_registry_lookup() {
    let registry = SystemHashRegistry { hashes: vec![[1; 32], [2; 32]] };
    assert!(registry.contains_hash(&[2; 32]));
    assert!(!registry.contains_hash(&[3; 32]));
}

fn rate(numer: U512, denom: U512) -> SeigniorageRate {
    SeigniorageRate::new(numer, denom).unwrap()
}

fn rate_key() -> (String, Key) {
    ("round_seigniorage_rate".to_string(), Key::URef(URef::new([201; 32], ALL_RIGHTS)))
}

fn high_bit() -> U512 {
    U512::from_limbs([0, 0, 0, 0, 0, 0, 0, 1 << 63])
}

#[test]
fn a_round_pays_the_rate_of_the_supply_rounded_down() {
    let mut mint = TestMint::system();
    mint.keys.push(rate_key());
    mint.rates.push(([201; 32], rate(u(1), u(3))));
    assert_eq!(mint.read_base_round_reward(), Ok(u(3_333)));
    assert!(mint.effects.is_empty());
}

#[test]
fn the_round_reward_needs_its_keys_and_values() {
    let mut mint = TestMint::system();
    assert_eq!(mint.read_base_round_reward(), Err(MintError::MissingKey));
    mint.keys.push(rate_key());
    assert_eq!(mint.read_base_round_reward(), Err(MintError::TotalSupplyNotFound));
    mint.rates.push(([201; 32], rate(high_bit(), u(1))));
    assert_eq!(mint.read_base_round_reward(), Err(MintError::ArithmeticOverflow));
    let mut no_supply = TestMint::system();
    no_supply.amounts.clear();
    no_supply.keys.push(rate_key());
    assert_eq!(no_supply.read_base_round_reward(), Err(MintError::TotalSupplyNotFound));
    let mut wrong_key = TestMint::system();
    wrong_key.keys.push(("round_seigniorage_rate".to_string(), Key::Account(someone())));
    assert_eq!(wrong_key.read_base_round_reward(), Err(MintError::MissingKey));
}

#[test]
fn the_product_is_reduced_before_it_can_overflow() {
    assert_eq!(round_reward(rate(u(2), u(6)), u(9)), Some(u(3)));
    assert_eq!(round_reward(rate(u(5), u(7)), U512::zero()), Some(U512::zero()));
    // 2^511 * 2 would not fit, but the supply 2 shares the factor 2 with the denominator.
    assert_eq!(round_reward(rate(high_bit(), u(2)), u(2)), Some(high_bit()));
    assert_eq!(round_reward(rate(high_bit(), u(3)), u(2)), None);
    assert!(SeigniorageRate::new(u(1), U512::zero()).is_none());
}

#[test]
fn u512_products_quotients_and_divisors() {
    assert_eq!(u(12).checked_mul(&u(13)), Some(u(156)));
    assert_eq!(high_bit().checked_mul(&u(2)), None);
    assert_eq!(high_bit().checked_mul(&U512::zero()), Some(U512::zero()));
    assert_eq!(u(157).div_rem(&u(12)), (u(13), u(1)));
    assert_eq!(high_bit().div_rem(&high_bit()), (u(1), U512::zero()));
    assert_eq!(gcd_u512(&u(84), &u(36)), u(12));
    assert_eq!(gcd_u512(&u(7), &U512::zero()), u(7));
}

#[test]
fn a_transfer_stops_at_the_first_failed_change() {
    let mut mint = TestMint::system().with_purse(1, 500).with_purse(2, 0);
    mint.fail_add_balance = true;
    assert_eq!(mint.transfer(None, purse(1), purse(2), u(200), None), Err(MintError::Storage));
    assert_eq!(mint.effects, vec![MintEffect::WriteBalance(purse(1), u(300))]);
}
