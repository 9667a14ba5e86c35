//! What host functions ask of the engine that runs the guest: its memory, its context,
//! the tracking copy of global state, gas metering, the mint and nested execution.
use vstd::prelude::*;

use super::types::{
    ExecuteError, ExecuteRequest, ExecuteRequestView, ExecuteResult, ExecuteResultView,
    HostResult, MeteringPoints, MintFailure, StorageError, StoredValue, StoredValueView,
    TrackingCopyParts, VMError, execute_outcome_view, writes_view,
};
use crate::keys::{AccountHash, Key, URef};
use crate::u512::U512;

verus! {

/// A change a host function asked the engine to make, in the order it asked.
pub enum HostEffect {
    /// Bytes were written into guest memory.
    MemoryWrite { ptr: u32, data: Seq<u8> },
    /// The guest's allocator was called back, and answered with a pointer or a failure,
    /// leaving the guest's memory and gas as recorded.
    Alloc {
        cb_alloc: u32,
        size: nat,
        ctx: u32,
        result: Result<u32, VMError>,
        memory: Seq<u8>,
        gas: Option<u64>,
    },
    /// A value was written to global state.
    Write(Key, StoredValueView),
    /// An address was drawn from the address generator.
    CreateAddress([u8; 32]),
    /// The mint was asked for a new, empty purse.
    MintPurse(Result<URef, MintFailure>),
    /// The mint was asked to transfer.
    MintTransfer { source: URef, target: URef, amount: U512, result: HostResult },
    /// A contract was executed in a nested call, with this outcome.
    Execute(ExecuteRequestView, Result<ExecuteResultView, ExecuteError>),
    /// The changes of a nested execution were merged into global state.
    Merge(Seq<(Key, StoredValueView)>),
    /// Gas was consumed.
    ConsumeGas(u64),
}

/// The range of `size` bytes at `ptr` lies within the memory.
pub open spec fn mem_in_bounds(mem: Seq<u8>, ptr: u32, size: int) -> bool {
    ptr + size <= mem.len()
}

/// The `size` bytes at `ptr`.
pub open spec fn mem_slice(mem: Seq<u8>, ptr: u32, size: int) -> Seq<u8> {
    mem.subrange(ptr as int, ptr + size)
}

/// The memory with `data` written at `ptr`.
pub open spec fn mem_update(mem: Seq<u8>, ptr: u32, data: Seq<u8>) -> Seq<u8> {
    mem.take(ptr as int) + data + mem.skip(ptr + data.len())
}

/// The state of the engine as host functions see it.
pub trait HostState: Sized {
    /// The guest's linear memory.
    spec fn spec_memory(&self) -> Seq<u8>;

    /// The input of the current call.
    spec fn spec_input(&self) -> Seq<u8>;

    /// The byte code of the running contract.
    spec fn spec_bytecode(&self) -> Seq<u8>;

    /// The key of the running entity.
    spec fn spec_callee(&self) -> Key;

    /// The key of the entity that called the running one.
    spec fn spec_caller_key(&self) -> Key;

    /// The tokens transferred with the current call.
    spec fn spec_value(&self) -> u128;

    /// The account that initiated the transaction.
    spec fn spec_initiator(&self) -> AccountHash;

    /// The hash of the transaction.
    spec fn spec_transaction_hash(&self) -> [u8; 32];

    /// The name of the chain.
    spec fn spec_chain_name(&self) -> Seq<char>;

    /// What a read of `key` from the tracking copy gives.
    spec fn spec_read(&self, key: Key) -> Result<Option<StoredValueView>, StorageError>;

    /// The total balance of `purse`.
    spec fn spec_total_balance(&self, purse: URef) -> Result<U512, StorageError>;

    /// The gas left, or `None` once it ran out.
    spec fn spec_gas(&self) -> Option<u64>;

    /// The executor prepares the code of every stored contract it is asked to run.
    spec fn spec_prepares_stored_code(&self) -> bool;

    /// The changes asked for so far.
    spec fn spec_effects(&self) -> Seq<HostEffect>;
}

/// The context of the call is the same in both states.
pub open spec fn same_env<C: HostState>(a: C, b: C) -> bool {
    &&& a.spec_input() == b.spec_input()
    &&& a.spec_bytecode() == b.spec_bytecode()
    &&& a.spec_callee() == b.spec_callee()
    &&& a.spec_caller_key() == b.spec_caller_key()
    &&& a.spec_value() == b.spec_value()
    &&& a.spec_initiator() == b.spec_initiator()
    &&& a.spec_transaction_hash() == b.spec_transaction_hash()
    &&& a.spec_chain_name() == b.spec_chain_name()
    &&& a.spec_prepares_stored_code() == b.spec_prepares_stored_code()
}

/// Global state reads the same in both states.
pub open spec fn same_storage<C: HostState>(a: C, b: C) -> bool {
    &&& forall|k: Key| #[trigger] a.spec_read(k) == b.spec_read(k)
    &&& forall|p: URef| #[trigger] a.spec_total_balance(p) == b.spec_total_balance(p)
}

/// Nothing observable differs between the two states.
pub open spec fn unchanged<C: HostState>(a: C, b: C) -> bool {
    &&& same_env(a, b)
    &&& same_storage(a, b)
    &&& a.spec_memory() == b.spec_memory()
    &&& a.spec_gas() == b.spec_gas()
    &&& a.spec_effects() == b.spec_effects()
}

/// `b` is `a` with the effect `e` asked for, and with memory, gas and context as they were.
pub open spec fn pushed<C: HostState>(a: C, b: C, e: HostEffect) -> bool {
    &&& same_env(a, b)
    &&& a.spec_memory() == b.spec_memory()
    &&& a.spec_gas() == b.spec_gas()
    &&& b.spec_effects() == a.spec_effects().push(e)
}

/// The engine that runs the guest, as host functions use it.
pub trait Caller: HostState {
    /// The input of the current call.
    fn config_input(&self) -> (r: Vec<u8>)
        ensures
            r@ == self.spec_input(),
    ;

    /// The byte code of the running contract.
    fn bytecode(&self) -> (r: Vec<u8>)
        ensures
            r@ == self.spec_bytecode(),
    ;

    /// The key of the running entity.
    fn callee(&self) -> (r: Key)
        ensures
            r == self.spec_callee(),
    ;

    /// The key of the entity that called the running one.
    fn caller_key(&self) -> (r: Key)
        ensures
            r == self.spec_caller_key(),
    ;

    /// The tokens transferred with the current call.
    fn value(&self) -> (r: u128)
        ensures
            r == self.spec_value(),
    ;

    /// The account that initiated the transaction.
    fn initiator(&self) -> (r: AccountHash)
        ensures
            r == self.spec_initiator(),
    ;

    /// The hash of the transaction.
    fn transaction_hash(&self) -> (r: [u8; 32])
        ensures
            r == self.spec_transaction_hash(),
    ;

    /// The name of the chain.
    fn chain_name(&self) -> (r: String)
        ensures
            r@ == self.spec_chain_name(),
    ;

    /// Reads `size` bytes of guest memory at `ptr`; fails when they are out of bounds.
    fn memory_read(&self, ptr: u32, size: usize) -> (r: Result<Vec<u8>, VMError>)
        ensures
            r is Ok <==> mem_in_bounds(self.spec_memory(), ptr, size as int),
            r matches Ok(v) ==> v@ == mem_slice(self.spec_memory(), ptr, size as int),
    ;

    /// Writes `data` into guest memory at `ptr`; fails, changing nothing, when the range is
    /// out of bounds.
    fn memory_write(&mut self, ptr: u32, data: &[u8]) -> (r: Result<(), VMError>)
        ensures
            same_env(*old(self), *final(self)),
            same_storage(*old(self), *final(self)),
            old(self).spec_gas() == final(self).spec_gas(),
            r is Ok <==> mem_in_bounds(old(self).spec_memory(), ptr, data@.len() as int),
            r is Ok ==> final(self).spec_memory() == mem_update(old(self).spec_memory(), ptr, data@)
                && final(self).spec_effects() == old(self).spec_effects().push(
                HostEffect::MemoryWrite { ptr, data: data@ },
            ),
            r is Err ==> final(self).spec_memory() == old(self).spec_memory()
                && final(self).spec_effects() == old(self).spec_effects(),
    ;

    /// Calls the guest's allocator `cb_alloc` for `size` bytes with `ctx`; returns where the
    /// guest wants the bytes, and records the call with its answer. The guest's code runs:
    /// memory, gas and global state may change, and it may ask for more.
    fn allocate(&mut self, cb_alloc: u32, size: usize, ctx: u32) -> (r: Result<u32, VMError>)
        ensures
            same_env(*old(self), *final(self)),
            final(self).spec_effects().len() > old(self).spec_effects().len(),
            final(self).spec_effects().take(old(self).spec_effects().len() as int) == old(
                self,
            ).spec_effects(),
            final(self).spec_effects()[old(self).spec_effects().len() as int] == (HostEffect::Alloc {
                cb_alloc,
                size: size as nat,
                ctx,
                result: r,
                memory: final(self).spec_memory(),
                gas: final(self).spec_gas(),
            }),
    ;

    /// Reads the value under `key`.
    fn read(&mut self, key: &Key) -> (r: Result<Option<StoredValue>, StorageError>)
        ensures
            unchanged(*old(self), *final(self)),
            match r {
                Ok(Some(v)) => old(self).spec_read(*key) == Ok::<
                    Option<StoredValueView>,
                    StorageError,
                >(Some(v@)),
                Ok(None) => old(self).spec_read(*key) == Ok::<
                    Option<StoredValueView>,
                    StorageError,
                >(None),
                Err(e) => old(self).spec_read(*key) == Err::<Option<StoredValueView>, StorageError>(
                    e,
                ),
            },
    ;

    /// Writes `value` under `key`.
    fn write(&mut self, key: Key, value: StoredValue)
        ensures
            pushed(*old(self), *final(self), HostEffect::Write(key, value@)),
            final(self).spec_read(key) == Ok::<Option<StoredValueView>, StorageError>(
                Some(value@),
            ),
            forall|k: Key| k != key ==> #[trigger] final(self).spec_read(k) == old(self).spec_read(k),
            forall|p: URef| #[trigger] final(self).spec_total_balance(p) == old(
                self,
            ).spec_total_balance(p),
    ;

    /// The total balance of `purse`.
    fn get_total_balance(&mut self, purse: URef) -> (r: Result<U512, StorageError>)
        ensures
            unchanged(*old(self), *final(self)),
            r == old(self).spec_total_balance(purse),
    ;

    /// The gas left.
    fn gas_consumed(&mut self) -> (r: MeteringPoints)
        ensures
            unchanged(*old(self), *final(self)),
            r == match old(self).spec_gas() {
                Some(n) => MeteringPoints::Remaining(n),
                None => MeteringPoints::Exhausted,
            },
    ;

    /// Consumes `value` gas; the gas runs out when less than that is left.
    fn consume_gas(&mut self, value: u64) -> (r: MeteringPoints)
        ensures
            same_env(*old(self), *final(self)),
            same_storage(*old(self), *final(self)),
            old(self).spec_memory() == final(self).spec_memory(),
            final(self).spec_effects() == old(self).spec_effects().push(HostEffect::ConsumeGas(value)),
            match old(self).spec_gas() {
                Some(n) => if value <= n {
                    r == MeteringPoints::Remaining((n - value) as u64) && final(self).spec_gas()
                        == Some((n - value) as u64)
                } else {
                    r == MeteringPoints::Exhausted && final(self).spec_gas() is None
                },
                None => r == MeteringPoints::Exhausted && final(self).spec_gas() is None,
            },
    ;

    /// Draws the next address from the transaction's address generator.
    fn create_address(&mut self) -> (r: [u8; 32])
        ensures
            pushed(*old(self), *final(self), HostEffect::CreateAddress(r)),
            same_storage(*old(self), *final(self)),
    ;

    /// Asks the mint for a new purse with a zero balance.
    fn mint_purse(&mut self) -> (r: Result<URef, MintFailure>)
        ensures
            pushed(*old(self), *final(self), HostEffect::MintPurse(r)),
    ;

    /// Asks the mint to transfer `amount` from `source` to `target`.
    fn mint_transfer(&mut self, source: URef, target: URef, amount: U512) -> (r: HostResult)
        ensures
            pushed(
                *old(self),
                *final(self),
                HostEffect::MintTransfer { source, target, amount, result: r },
            ),
    ;

    /// Runs a stored contract in a nested call, on a fork of global state. A run reports the
    /// gas it was given, which is the request's limit, and leaves no more than that.
    fn execute(&mut self, request: &ExecuteRequest) -> (r: Result<ExecuteResult, ExecuteError>)
        ensures
            pushed(
                *old(self),
                *final(self),
                HostEffect::Execute(request@, execute_outcome_view(r)),
            ),
            same_storage(*old(self), *final(self)),
            old(self).spec_prepares_stored_code() ==> r is Ok,
            r matches Ok(res) ==> res.gas_usage.gas_limit == request.gas_limit
                && res.gas_usage.remaining_points <= res.gas_usage.gas_limit,
    ;

    /// Merges the changes of a nested execution into global state.
    fn merge(&mut self, parts: TrackingCopyParts)
        ensures
            pushed(*old(self), *final(self), HostEffect::Merge(writes_view(parts.writes@))),
    ;
}

} // verus!
