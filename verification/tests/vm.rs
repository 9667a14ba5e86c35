use casper_core::keys::{AccessRights, AccountHash, ByteCodeAddr, EntityAddr, Key, NamedKeyAddr, URef};
use casper_core::u512::U512;
use casper_core::vm::caller::{Caller, HostEffect, HostState};
use casper_core::vm::host::{
    casper_call, casper_copy_input, casper_create, casper_env_balance, casper_env_caller,
    casper_env_read, casper_env_value, casper_print, casper_read, casper_return, casper_transfer,
    casper_upgrade, casper_write, EntityKindTag, FALLBACK_ENTRY_POINT,
};
use casper_core::vm::keyspace::KeyspaceTag;
use casper_core::vm::layout::{u128_le_bytes, u32_le_bytes};
use casper_core::vm::types::{
    AddressableEntity, ByteCode, ByteCodeKind, CLValue, CreateResult, ExecuteError, ExecuteRequest,
    ExecuteResult, GasUsage, HostError, MeteringPoints, MintFailure, Package, PackageStatus,
    ReadInfo, ReturnFlags, StorageError, StoredValue, StoredValueView, TrackingCopyParts, VMError,
};
use vstd::seq::Seq;

const COUNTER_DIGEST: [u8; 32] = [
    148, 252, 149, 28, 97, 232, 6, 160, 132, 56, 245, 159, 163, 75, 162, 210, 234, 75, 239, 84, 112,
    192, 178, 54, 206, 212, 109, 241, 95, 6, 115, 86,
];
const PAYLOAD_123_DIGEST: [u8; 32] = [
    17, 192, 231, 155, 113, 195, 151, 108, 205, 12, 2, 209, 49, 14, 37, 22, 192, 142, 220, 157,
    139, 111, 87, 204, 214, 128, 214, 58, 77, 142, 114, 218,
];
const CODE: [u8; 5] = [0, 97, 115, 109, 1];
const CODE_DIGEST: [u8; 32] = [
    209, 7, 179, 122, 39, 227, 87, 108, 103, 41, 105, 155, 247, 1, 188, 147, 86, 95, 27, 36, 11,
    111, 254, 48, 201, 235, 133, 172, 89, 140, 204, 27,
];

const SELF_ADDR: [u8; 32] = [5; 32];
const SELF_PURSE: URef = URef { addr: [50; 32], access_rights: AccessRights(7) };

#[derive(Debug, Clone, PartialEq)]
enum Event {
    MemoryWrite(u32, Vec<u8>),
    Alloc(u32, usize, u32),
    Write(Key, StoredValue),
    CreateAddress([u8; 32]),
    MintPurse,
    MintTransfer(URef, URef, U512),
    Execute(String, u64, u128, Vec<u8>, EntityAddr),
    Merge(usize),
    ConsumeGas(u64),
}

/// An engine with a byte vector for memory and a list of key-value pairs for global state.
struct TestCaller {
    memory: Vec<u8>,
    input: Vec<u8>,
    bytecode: Vec<u8>,
    callee: Key,
    caller_key: Key,
    value: u128,
    initiator: AccountHash,
    transaction_hash: [u8; 32],
    chain_name: String,
    storage: Vec<(Key, StoredValue)>,
    balances: Vec<(URef, U512)>,
    gas: Option<u64>,
    events: Vec<Event>,
    next_address: u8,
    alloc_at: u32,
    mint_purse_result: Result<URef, MintFailure>,
    transfer_result: Result<(), HostError>,
    execute_result: Result<ExecuteResult, ExecuteError>,
}

impl TestCaller {
    fn new() -> Self {
        let self_entity = EntityAddr::SmartContract(SELF_ADDR);
        TestCaller {
            memory: vec![0; 256],
            input: vec![7, 8, 9],
            bytecode: vec![1, 1, 1],
            callee: Key::AddressableEntity(self_entity),
            caller_key: Key::Account(AccountHash([3; 32])),
            value: 0x0102,
            initiator: AccountHash([3; 32]),
            transaction_hash: [4; 32],
            chain_name: "casper-test".to_string(),
            storage: vec![(
                Key::AddressableEntity(self_entity),
                StoredValue::AddressableEntity(AddressableEntity {
                    package_hash: [6; 32],
                    byte_code_hash: [61; 32],
                    main_purse: SELF_PURSE,
                }),
            )],
            balances: vec![],
            gas: Some(1_000),
            events: vec![],
            next_address: 100,
            alloc_at: 200,
            mint_purse_result: Ok(URef::new([70; 32], AccessRights(7))),
            transfer_result: Ok(()),
            execute_result: Err(ExecuteError::WasmPreparation),
        }
    }

    fn put(&mut self, ptr: usize, bytes: &[u8]) {
        self.memory[ptr..ptr + bytes.len()].copy_from_slice(bytes);
    }

    fn stored(&self, key: &Key) -> Option<StoredValue> {
        self.storage.iter().find(|(k, _)| k == key).map(|(_, v)| v.clone())
    }

    fn store(&mut self, key: Key, value: StoredValue) {
        match self.storage.iter_mut().find(|(k, _)| *k == key) {
            Some(entry) => entry.1 = value,
            None => self.storage.push((key, value)),
        }
    }
}

impl HostState for TestCaller {
    fn spec_memory(&self) -> Seq<u8> {
        unreachable!("only used in proofs")
    }
    fn spec_input(&self) -> Seq<u8> {
        unreachable!("only used in proofs")
    }
    fn spec_bytecode(&self) -> Seq<u8> {
        unreachable!("only used in proofs")
    }
    fn spec_callee(&self) -> Key {
        unreachable!("only used in proofs")
    }
    fn spec_caller_key(&self) -> Key {
        unreachable!("only used in proofs")
    }
    fn spec_value(&self) -> u128 {
        unreachable!("only used in proofs")
    }
    fn spec_initiator(&self) -> AccountHash {
        unreachable!("only used in proofs")
    }
    fn spec_transaction_hash(&self) -> [u8; 32] {
        unreachable!("only used in proofs")
    }
    fn spec_chain_name(&self) -> Seq<char> {
        unreachable!("only used in proofs")
    }
    fn spec_read(&self, _key: Key) -> Result<Option<StoredValueView>, StorageError> {
        unreachable!("only used in proofs")
    }
    fn spec_total_balance(&self, _purse: URef) -> Result<U512, StorageError> {
        unreachable!("only used in proofs")
    }
    fn spec_gas(&self) -> Option<u64> {
        unreachable!("only used in proofs")
    }
    fn spec_prepares_stored_code(&self) -> bool {
        unreachable!("only used in proofs")
    }
    fn spec_effects(&self) -> Seq<HostEffect> {
        unreachable!("only used in proofs")
    }
}

impl Caller for TestCaller {
    fn config_input(&self) -> Vec<u8> {
        self.input.clone()
    }
    fn bytecode(&self) -> Vec<u8> {
        self.bytecode.clone()
    }
    fn callee(&self) -> Key {
        self.callee
    }
    fn caller_key(&self) -> Key {
        self.caller_key
    }
    fn value(&self) -> u128 {
        self.value
    }
    fn initiator(&self) -> AccountHash {
        self.initiator
    }
    fn transaction_hash(&self) -> [u8; 32] {
        self.transaction_hash
    }
    fn chain_name(&self) -> String {
        self.chain_name.clone()
    }
    fn memory_read(&self, ptr: u32, size: usize) -> Result<Vec<u8>, VMError> {
        let start = ptr as usize;
        match start.checked_add(size) {
            Some(end) if end <= self.memory.len() => Ok(self.memory[start..end].to_vec()),
            _ => Err(VMError::Trap(casper_core::vm::types::TrapCode::MemoryOutOfBounds)),
        }
    }
    fn memory_write(&mut self, ptr: u32, data: &[u8]) -> Result<(), VMError> {
        let start = ptr as usize;
        if start + data.len() > self.memory.len() {
            return Err(VMError::Trap(casper_core::vm::types::TrapCode::MemoryOutOfBounds));
        }
        self.memory[start..start + data.len()].copy_from_slice(data);
        self.events.push(Event::MemoryWrite(ptr, data.to_vec()));
        Ok(())
    }
    fn allocate(&mut self, cb_alloc: u32, size: usize, ctx: u32) -> Result<u32, VMError> {
        self.events.push(Event::Alloc(cb_alloc, size, ctx));
        Ok(self.alloc_at)
    }
    fn read(&mut self, key: &Key) -> Result<Option<StoredValue>, StorageError> {
        Ok(self.stored(key))
    }
    fn write(&mut self, key: Key, value: StoredValue) {
        self.events.push(Event::Write(key, value.clone()));
        self.store(key, value);
    }
    fn get_total_balance(&mut self, purse: URef) -> Result<U512, StorageError> {
        self.balances.iter().find(|(p, _)| *p == purse).map(|(_, b)| *b).ok_or(StorageError)
    }
    fn gas_consumed(&mut self) -> MeteringPoints {
        match self.gas {
            Some(n) => MeteringPoints::Remaining(n),
            None => MeteringPoints::Exhausted,
        }
    }
    fn consume_gas(&mut self, value: u64) -> MeteringPoints {
        self.events.push(Event::ConsumeGas(value));
        match self.gas {
            Some(n) if value <= n => {
                self.gas = Some(n - value);
                MeteringPoints::Remaining(n - value)
            },
            _ => {
                self.gas = None;
                MeteringPoints::Exhausted
            },
        }
    }
    fn create_address(&mut self) -> [u8; 32] {
        let a = [self.next_address; 32];
        self.next_address += 1;
        self.events.push(Event::CreateAddress(a));
        a
    }
    fn mint_purse(&mut self) -> Result<URef, MintFailure> {
        self.events.push(Event::MintPurse);
        self.mint_purse_result
    }
    fn mint_transfer(&mut self, source: URef, target: URef, amount: U512) -> Result<(), HostError> {
        self.events.push(Event::MintTransfer(source, target, amount));
        self.transfer_result
    }
    fn execute(&mut self, request: &ExecuteRequest) -> Result<ExecuteResult, ExecuteError> {
        assert_eq!(request.initiator, self.initiator);
        assert_eq!(request.caller_key, self.callee);
        assert_eq!(request.transaction_hash, self.transaction_hash);
        assert_eq!(request.chain_name, self.chain_name);
        self.events.push(Event::Execute(
            request.entry_point.clone(),
            request.gas_limit,
            request.value,
            request.input.clone(),
            request.address,
        ));
        self.execute_result.clone()
    }
    fn merge(&mut self, parts: TrackingCopyParts) {
        self.events.push(Event::Merge(parts.writes.len()));
        for (k, v) in parts.writes {
            self.store(k, v);
        }
    }
}

fn self_entity() -> EntityAddr {
    EntityAddr::SmartContract(SELF_ADDR)
}

fn counter_key() -> Key {
    Key::NamedKey(NamedKeyAddr::new_named_key_entry(self_entity(), COUNTER_DIGEST))
}

fn run(host_error: Option<HostError>, output: Option<Vec<u8>>, gas_limit: u64, remaining: u64) -> ExecuteResult {
    ExecuteResult {
        host_error,
        output,
        gas_usage: GasUsage { gas_limit, remaining_points: remaining },
        tracking_copy_parts: TrackingCopyParts {
            writes: vec![(Key::Hash([77; 32]), StoredValue::RawBytes(vec![1]))],
        },
    }
}

#[test]
fn write_then_read_gives_back_the_bytes() {
    let mut c = TestCaller::new();
    c.put(0, b"counter");
    c.put(16, &[10, 20, 30]);
    assert_eq!(casper_write(&mut c, 2, 0, 7, 16, 3), Ok(0));
    assert_eq!(c.stored(&counter_key()), Some(StoredValue::RawBytes(vec![10, 20, 30])));
    assert_eq!(c.events, vec![Event::Write(counter_key(), StoredValue::RawBytes(vec![10, 20, 30]))]);

    c.events.clear();
    assert_eq!(casper_read(&mut c, 2, 0, 7, 40, 0, 64), Ok(0));
    let info = ReadInfo { data: 64, data_size: 3 }.to_bytes();
    assert_eq!(info, [64, 0, 0, 0, 3, 0, 0, 0]);
    assert_eq!(&c.memory[40..48], &info[..]);
    assert_eq!(&c.memory[64..67], &[10, 20, 30]);
    assert_eq!(c.events, vec![Event::MemoryWrite(40, info.clone()), Event::MemoryWrite(64, vec![10, 20, 30])]);

    c.events.clear();
    assert_eq!(casper_read(&mut c, 2, 0, 7, 40, 9, 5), Ok(0));
    assert_eq!(c.events[0], Event::Alloc(9, 3, 5));
    assert_eq!(&c.memory[200..203], &[10, 20, 30]);
}

#[test]
fn keyspaces_name_state_context_and_named_keys() {
    let mut c = TestCaller::new();
    c.put(0, &[1, 2, 3]);
    c.put(16, &[42]);
    assert_eq!(casper_write(&mut c, KeyspaceTag::State as u64, 0, 3, 16, 1), Ok(0));
    assert_eq!(c.stored(&Key::State(self_entity())), Some(StoredValue::RawBytes(vec![42])));
    assert_eq!(casper_write(&mut c, 1, 0, 3, 16, 1), Ok(0));
    let context_key = Key::NamedKey(NamedKeyAddr::new_named_key_entry(self_entity(), PAYLOAD_123_DIGEST));
    assert_eq!(c.stored(&context_key), Some(StoredValue::RawBytes(vec![42])));
    // An account's entries live under its account entity.
    c.callee = Key::Account(AccountHash([8; 32]));
    assert_eq!(casper_write(&mut c, 0, 0, 3, 16, 1), Ok(0));
    assert_eq!(
        c.stored(&Key::State(EntityAddr::Account([8; 32]))),
        Some(StoredValue::RawBytes(vec![42]))
    );
}

#[test]
fn writes_that_are_declined_or_out_of_bounds() {
    let mut c = TestCaller::new();
    c.put(0, &[0xff, 0xfe]);
    // Unknown keyspace.
    assert_eq!(casper_write(&mut c, 3, 0, 2, 16, 1), Ok(1));
    // A named key whose name is not UTF-8.
    assert_eq!(casper_write(&mut c, 2, 0, 2, 16, 1), Ok(1));
    // Key or value out of guest memory.
    assert!(casper_write(&mut c, 0, 250, 10, 16, 1).is_err());
    assert!(casper_write(&mut c, 0, 0, 1, 250, 10).is_err());
    // A running entity without storage.
    c.callee = Key::URef(SELF_PURSE);
    assert_eq!(casper_write(&mut c, 0, 0, 1, 16, 1), Ok(1));
    assert!(c.events.is_empty());
    assert_eq!(c.storage.len(), 1);
    // Nothing to read.
    let mut c = TestCaller::new();
    assert_eq!(casper_read(&mut c, 0, 0, 0, 40, 0, 64), Ok(1));
    assert_eq!(casper_read(&mut c, 7, 0, 0, 40, 0, 64), Ok(1));
    assert!(c.events.is_empty());
}

#[test]
fn print_return_and_env_value() {
    let mut c = TestCaller::new();
    c.put(0, b"hello");
    assert_eq!(casper_print(&c, 0, 5), Ok(b"hello".to_vec()));
    assert!(casper_print(&c, 255, 5).is_err());

    assert_eq!(
        casper_return(&c, 3, 0, 5),
        Err(VMError::Return { flags: ReturnFlags::from_bits_retain(3), data: None })
    );
    c.put(10, &[1, 2]);
    assert_eq!(
        casper_return(&c, 0, 10, 2),
        Err(VMError::Return { flags: ReturnFlags { bits: 0 }, data: Some(vec![1, 2]) })
    );

    assert_eq!(casper_env_value(&mut c, 32), Ok(()));
    assert_eq!(&c.memory[32..48], &u128_le_bytes(0x0102)[..]);
    assert_eq!(u128_le_bytes(0x0102)[..3], [2, 1, 0]);
    assert!(casper_env_value(&mut c, 250).is_err());
}

#[test]
fn copy_input_to_the_given_place_or_the_allocated_one() {
    let mut c = TestCaller::new();
    assert_eq!(casper_copy_input(&mut c, 0, 20), Ok(23));
    assert_eq!(&c.memory[20..23], &[7, 8, 9]);
    assert_eq!(casper_copy_input(&mut c, 0, 0), Ok(0));
    assert_eq!(casper_copy_input(&mut c, 4, 11), Ok(203));
    assert_eq!(&c.memory[200..203], &[7, 8, 9]);
    assert_eq!(c.events[1], Event::Alloc(4, 3, 11));
    assert!(casper_copy_input(&mut c, 0, 255).is_err());
    c.alloc_at = 254;
    assert!(casper_copy_input(&mut c, 4, 11).is_err());
    c.alloc_at = 0;
    assert_eq!(casper_copy_input(&mut c, 4, 11), Ok(0));
}

#[test]
fn env_caller_describes_the_calling_entity() {
    let mut c = TestCaller::new();
    assert_eq!(casper_env_caller(&mut c, 0, 32, 100), Ok(0));
    assert!(c.events.is_empty());
    assert_eq!(casper_env_caller(&mut c, 10, 32, 100), Ok(42));
    assert_eq!(&c.memory[10..42], &[3u8; 32]);
    assert_eq!(&c.memory[100..104], &u32_le_bytes(0)[..]);
    c.caller_key = Key::AddressableEntity(EntityAddr::SmartContract([9; 32]));
    assert_eq!(casper_env_caller(&mut c, 10, 4, 100), Ok(14));
    assert_eq!(&c.memory[10..14], &[9u8; 4]);
    assert_eq!(&c.memory[100..104], &[1, 0, 0, 0]);
}

#[test]
fn env_read_reads_the_path_and_hands_nothing_back() {
    let mut c = TestCaller::new();
    c.put(0, &[3, 0, 0, 0, 0, 0, 0, 0]);
    assert_eq!(casper_env_read(&mut c, 0, 1, 0, 0), Ok(0));
    assert!(casper_env_read(&mut c, 250, 2, 0, 0).is_err());
    assert!(c.events.is_empty());
}

#[test]
fn env_balance_of_a_contract_and_of_an_account() {
    let mut c = TestCaller::new();
    c.balances.push((SELF_PURSE, U512::from_u64(0x0a0b)));
    c.put(0, &SELF_ADDR);
    assert_eq!(casper_env_balance(&mut c, 1, 0, 32, 64), Ok(1));
    assert_eq!(&c.memory[64..80], &u128_le_bytes(0x0a0b)[..]);
    // Unknown kind, wrong length, unknown account.
    assert_eq!(casper_env_balance(&mut c, 2, 0, 32, 64), Ok(0));
    assert_eq!(casper_env_balance(&mut c, 1, 0, 31, 64), Ok(0));
    assert_eq!(casper_env_balance(&mut c, 0, 0, 32, 64), Ok(0));
    // An account's record holds the key of its entity.
    c.store(
        Key::Account(AccountHash(SELF_ADDR)),
        StoredValue::CLValue(CLValue::Key(Key::AddressableEntity(self_entity()))),
    );
    c.put(64, &[0; 16]);
    assert_eq!(casper_env_balance(&mut c, EntityKindTag::Account as u32, 0, 32, 64), Ok(1));
    assert_eq!(&c.memory[64..66], &[0x0b, 0x0a]);
    assert!(casper_env_balance(&mut c, 1, 240, 32, 64).is_err());
}

#[test]
fn transfer_to_an_account_goes_through_the_mint() {
    let mut c = TestCaller::new();
    let target_entity = EntityAddr::Account([11; 32]);
    let target_purse = URef::new([12; 32], AccessRights(7));
    c.store(
        Key::Account(AccountHash([11; 32])),
        StoredValue::CLValue(CLValue::Key(Key::AddressableEntity(target_entity))),
    );
    c.store(
        Key::AddressableEntity(target_entity),
        StoredValue::AddressableEntity(AddressableEntity {
            package_hash: [0; 32],
            byte_code_hash: [0; 32],
            main_purse: target_purse,
        }),
    );
    c.put(0, &[11; 32]);
    assert_eq!(casper_transfer(&mut c, 0, 0, 32, 500), Ok(Ok(())));
    assert_eq!(c.events, vec![Event::MintTransfer(SELF_PURSE, target_purse, U512::from_u64(500))]);
    c.transfer_result = Err(HostError::CalleeReverted);
    assert_eq!(casper_transfer(&mut c, 0, 0, 32, 500), Ok(Err(HostError::CalleeReverted)));
    assert_eq!(c.gas, Some(1_000));
    // Declined targets.
    assert_eq!(casper_transfer(&mut c, 0, 0, 31, 500), Ok(Err(HostError::NotCallable)));
    assert_eq!(casper_transfer(&mut c, 9, 0, 32, 500), Ok(Err(HostError::NotCallable)));
    c.put(0, &[13; 32]);
    assert_eq!(casper_transfer(&mut c, 0, 0, 32, 500), Ok(Err(HostError::NotCallable)));
    assert!(casper_transfer(&mut c, 0, 240, 32, 500).is_err());
}

#[test]
fn transfer_to_a_contract_calls_its_fallback() {
    let mut c = TestCaller::new();
    c.put(0, &[21; 32]);
    c.execute_result = Ok(run(None, None, 1_000, 900));
    assert_eq!(casper_transfer(&mut c, 1, 0, 32, 500), Ok(Ok(())));
    assert_eq!(
        c.events,
        vec![
            Event::Execute(
                FALLBACK_ENTRY_POINT.to_string(),
                1_000,
                500,
                vec![],
                EntityAddr::SmartContract([21; 32])
            ),
            Event::ConsumeGas(100),
            Event::Merge(1),
            Event::ConsumeGas(100),
        ]
    );
    assert_eq!(c.gas, Some(800));
    assert_eq!(c.stored(&Key::Hash([77; 32])), Some(StoredValue::RawBytes(vec![1])));

    // A failed run is not merged; the guest learns how it failed.
    let mut c = TestCaller::new();
    c.put(0, &[21; 32]);
    c.execute_result = Ok(run(Some(HostError::CalleeReverted), None, 1_000, 990));
    assert_eq!(casper_transfer(&mut c, 1, 0, 32, 5), Ok(Err(HostError::CalleeReverted)));
    assert_eq!(c.events.len(), 3);

    // The second charge of the run's gas finds too little left.
    let mut c = TestCaller::new();
    c.put(0, &[21; 32]);
    c.execute_result = Ok(run(None, None, 1_000, 400));
    assert_eq!(casper_transfer(&mut c, 1, 0, 32, 5), Err(VMError::OutOfGas));
    assert_eq!(c.gas, None);
}

#[test]
fn call_runs_the_entry_point_and_hands_back_its_output() {
    let mut c = TestCaller::new();
    c.put(0, &[31; 32]);
    c.put(40, b"increment");
    c.put(60, &[1, 2, 3, 4]);
    c.execute_result = Ok(run(None, Some(vec![9, 8]), 1_000, 700));
    assert_eq!(casper_call(&mut c, 0, 32, 77, 40, 9, 60, 4, 0, 120), Ok(Ok(())));
    assert_eq!(
        c.events,
        vec![
            Event::Execute(
                "increment".to_string(),
                1_000,
                77,
                vec![1, 2, 3, 4],
                EntityAddr::SmartContract([31; 32])
            ),
            Event::MemoryWrite(120, vec![9, 8]),
            Event::Merge(1),
            Event::ConsumeGas(300),
        ]
    );
    assert_eq!(&c.memory[120..122], &[9, 8]);
    assert_eq!(c.gas, Some(700));

    // With an allocator the output goes where it says.
    let mut c = TestCaller::new();
    c.put(0, &[31; 32]);
    c.put(40, b"increment");
    c.execute_result = Ok(run(Some(HostError::CalleeGasDepleted), Some(vec![5]), 1_000, 0));
    assert_eq!(casper_call(&mut c, 0, 32, 0, 40, 9, 60, 0, 3, 4), Ok(Err(HostError::CalleeGasDepleted)));
    assert_eq!(c.events[1], Event::Alloc(3, 1, 4));
    assert_eq!(c.memory[200], 5);
    assert_eq!(c.events.last(), Some(&Event::ConsumeGas(1_000)));

    // An entry point that is not UTF-8, or arguments out of memory.
    let mut c = TestCaller::new();
    c.put(40, &[0xff]);
    assert_eq!(casper_call(&mut c, 0, 32, 0, 40, 1, 60, 0, 0, 0), Ok(Err(HostError::NotCallable)));
    assert!(casper_call(&mut c, 240, 32, 0, 40, 1, 60, 0, 0, 0).is_err());
    assert!(c.events.is_empty());
}

#[test]
fn create_stores_package_code_and_entity_and_reports_them() {
    let mut c = TestCaller::new();
    c.put(8, &CODE);
    assert_eq!(casper_create(&mut c, 8, 5, 0, 0, 0, 0, 0, 100), Ok(Ok(())));
    let purse = URef::new([70; 32], AccessRights(7));
    assert_eq!(
        c.events[..6],
        [
            Event::CreateAddress([100; 32]),
            Event::CreateAddress([101; 32]),
            Event::Write(Key::Package([100; 32]), StoredValue::Package(Package { status: PackageStatus::Unlocked })),
            Event::Write(
                Key::ByteCode(ByteCodeAddr::V2CasperWasm(CODE_DIGEST)),
                StoredValue::ByteCode(ByteCode { kind: ByteCodeKind::V2CasperWasm, bytes: CODE.to_vec() })
            ),
            Event::MintPurse,
            Event::Write(
                Key::AddressableEntity(EntityAddr::SmartContract([101; 32])),
                StoredValue::AddressableEntity(AddressableEntity {
                    package_hash: [100; 32],
                    byte_code_hash: CODE_DIGEST,
                    main_purse: purse,
                })
            ),
        ]
    );
    let result = CreateResult { package_address: [100; 32], contract_address: [101; 32], version: 1 }.to_bytes();
    assert_eq!(result.len(), 68);
    assert_eq!(&c.memory[100..168], &result[..]);
    assert_eq!(c.events.len(), 7);
}

#[test]
fn create_with_a_constructor_runs_it() {
    let mut c = TestCaller::new();
    c.put(20, b"init");
    c.put(8, &[4, 4]);
    c.execute_result = Ok(run(None, None, 1_000, 600));
    // Null code pointer: the running contract's own code.
    assert_eq!(casper_create(&mut c, 0, 0, 11, 20, 4, 8, 2, 100), Ok(Ok(())));
    assert_eq!(
        c.events[6..9],
        [
            Event::Execute("init".to_string(), 1_000, 11, vec![4, 4], EntityAddr::SmartContract([101; 32])),
            Event::ConsumeGas(400),
            Event::Merge(1),
        ]
    );
    assert!(matches!(c.events[3], Event::Write(_, StoredValue::ByteCode(ByteCode { ref bytes, .. })) if *bytes == vec![1, 1, 1]));

    let mut c = TestCaller::new();
    c.put(20, b"init");
    c.execute_result = Ok(run(Some(HostError::CalleeReverted), None, 1_000, 600));
    assert_eq!(casper_create(&mut c, 0, 0, 0, 20, 4, 0, 0, 100), Ok(Err(HostError::CalleeReverted)));
    assert_eq!(c.events.len(), 8);

    let mut c = TestCaller::new();
    c.mint_purse_result = Err(MintFailure);
    assert_eq!(
        casper_create(&mut c, 0, 0, 0, 0, 0, 0, 0, 100),
        Ok(Err(HostError::CalleeTrapped(casper_core::vm::types::TrapCode::UnreachableCodeReached)))
    );
    assert_eq!(c.events.len(), 5);

    let mut c = TestCaller::new();
    c.put(20, &[0xff]);
    assert_eq!(casper_create(&mut c, 0, 0, 0, 20, 1, 0, 0, 100), Ok(Err(HostError::NotCallable)));
    assert!(casper_create(&mut c, 250, 10, 0, 0, 0, 0, 0, 100).is_err());
    assert!(c.events.is_empty());
}

#[test]
fn upgrade_replaces_the_code_of_the_running_contract() {
    let mut c = TestCaller::new();
    c.put(0, &[9, 9, 9]);
    assert_eq!(casper_upgrade(&mut c, 0, 3, 0, 0, 0, 0), Ok(Ok(())));
    assert_eq!(
        c.events,
        vec![Event::Write(
            Key::ByteCode(ByteCodeAddr::V2CasperWasm([61; 32])),
            StoredValue::ByteCode(ByteCode { kind: ByteCodeKind::V2CasperWasm, bytes: vec![9, 9, 9] })
        )]
    );

    let mut c = TestCaller::new();
    c.put(0, &[9, 9, 9]);
    c.put(16, b"migrate");
    c.execute_result = Ok(run(None, None, 1_000, 950));
    assert_eq!(casper_upgrade(&mut c, 0, 3, 16, 7, 0, 0), Ok(Ok(())));
    assert_eq!(
        c.events[1..],
        [
            Event::Execute("migrate".to_string(), 1_000, 0, vec![], self_entity()),
            Event::ConsumeGas(50),
            Event::Merge(1),
        ]
    );

    // The new code cannot be prepared.
    let mut c = TestCaller::new();
    c.put(16, b"migrate");
    assert_eq!(casper_upgrade(&mut c, 0, 3, 16, 7, 0, 0), Ok(Err(HostError::NotCallable)));

    // Accounts cannot be upgraded; nor can an entity that is not stored.
    let mut c = TestCaller::new();
    c.callee = Key::Account(AccountHash([1; 32]));
    assert_eq!(casper_upgrade(&mut c, 0, 3, 0, 0, 0, 0), Ok(Err(HostError::NotCallable)));
    c.callee = Key::AddressableEntity(EntityAddr::SmartContract([99; 32]));
    assert_eq!(casper_upgrade(&mut c, 0, 3, 0, 0, 0, 0), Ok(Err(HostError::NotCallable)));
    assert!(casper_upgrade(&mut c, 250, 10, 0, 0, 0, 0).is_err());
    assert!(c.events.is_empty());
}
