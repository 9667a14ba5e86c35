//! The values that host functions exchange with the guest, the storage and the executor.
use vstd::prelude::*;

use crate::keys::{AccountHash, EntityAddr, Key, URef};

verus! {

/// Why the guest's code trapped.
#[derive(Debug, Clone, Copy, PartialEq, Eq, Structural)]
pub enum TrapCode {
    /// The call stack was exhausted.
    StackOverflow,
    /// A memory access was out of bounds.
    MemoryOutOfBounds,
    /// A misaligned heap access.
    HeapMisaligned,
    /// A table access was out of bounds.
    TableAccessOutOfBounds,
    /// An indirect call through a null entry.
    IndirectCallToNull,
    /// An indirect call with a mismatched signature.
    BadSignature,
    /// An integer overflow.
    IntegerOverflow,
    /// An integer division by zero.
    IntegerDivisionByZero,
    /// An invalid conversion to an integer.
    BadConversionToInteger,
    /// An `unreachable` instruction was executed.
    UnreachableCodeReached,
}

/// The flags a contract returns with.
#[derive(Debug, Clone, Copy, PartialEq, Eq, Structural)]
pub struct ReturnFlags {
    /// The raw bits, unknown ones included.
    pub bits: u32,
}

impl ReturnFlags {
    /// Flags from raw bits, keeping bits that have no name.
    pub fn from_bits_retain(bits: u32) -> (f: ReturnFlags)
        ensures
            f.bits == bits,
    {
        ReturnFlags { bits }
    }
}

/// How the execution of the guest stops.
#[derive(Debug, Clone, PartialEq, Eq)]
pub enum VMError {
    /// The contract returned, with its flags and, if given, its data.
    Return { flags: ReturnFlags, data: Option<Vec<u8>> },
    /// The gas ran out.
    OutOfGas,
    /// The guest trapped.
    Trap(TrapCode),
}

/// The outcome of a call into another contract, as the calling guest sees it.
#[derive(Debug, Clone, Copy, PartialEq, Eq, Structural)]
pub enum HostError {
    /// The callee reverted.
    CalleeReverted,
    /// The callee trapped.
    CalleeTrapped(TrapCode),
    /// The callee ran out of gas.
    CalleeGasDepleted,
    /// The callee cannot be called.
    NotCallable,
}

/// Gas left to the guest.
#[derive(Debug, Clone, Copy, PartialEq, Eq, Structural)]
pub enum MeteringPoints {
    /// This much gas is left.
    Remaining(u64),
    /// No gas is left.
    Exhausted,
}

/// A failure of the storage under the tracking copy.
#[derive(Debug, Clone, Copy, PartialEq, Eq, Structural)]
pub struct StorageError;

/// A failure of the mint while creating a purse.
#[derive(Debug, Clone, Copy, PartialEq, Eq, Structural)]
pub struct MintFailure;

/// A value of the typed values layer, as far as host functions read it.
#[derive(Debug, Clone, Copy, PartialEq, Eq)]
pub enum CLValue {
    /// A value holding a key.
    Key(Key),
    /// A value of any other type.
    Other,
}

/// An addressable entity, as far as host functions read and write it.
#[derive(Debug, Clone, Copy, PartialEq, Eq)]
pub struct AddressableEntity {
    /// The hash of the package the entity belongs to.
    pub package_hash: [u8; 32],
    /// The hash of its byte code.
    pub byte_code_hash: [u8; 32],
    /// Its main purse.
    pub main_purse: URef,
}

/// The status of a package.
#[derive(Debug, Clone, Copy, PartialEq, Eq, Structural)]
pub enum PackageStatus {
    /// New versions may be added.
    Unlocked,
    /// No version may be added.
    Locked,
}

/// A package, as created by host functions: its versions and groups start empty.
#[derive(Debug, Clone, Copy, PartialEq, Eq, Structural)]
pub struct Package {
    /// Whether new versions may be added.
    pub status: PackageStatus,
}

/// The kind of stored byte code.
#[derive(Debug, Clone, Copy, PartialEq, Eq, Structural)]
pub enum ByteCodeKind {
    /// Empty byte code.
    Empty,
    /// Wasm for the first virtual machine.
    V1CasperWasm,
    /// Wasm for the second virtual machine.
    V2CasperWasm,
}

/// Stored byte code.
#[derive(Debug, Clone, PartialEq, Eq)]
pub struct ByteCode {
    /// Its kind.
    pub kind: ByteCodeKind,
    /// The code.
    pub bytes: Vec<u8>,
}

/// A value stored in global state, as far as host functions tell values apart.
#[derive(Debug, Clone, PartialEq, Eq)]
pub enum StoredValue {
    /// Raw bytes written by a contract.
    RawBytes(Vec<u8>),
    /// A typed value.
    CLValue(CLValue),
    /// A legacy account.
    Account,
    /// An addressable entity.
    AddressableEntity(AddressableEntity),
    /// A package.
    Package(Package),
    /// Byte code.
    ByteCode(ByteCode),
    /// Any other value.
    Other,
}

/// A stored value, with its bytes as sequences.
pub enum StoredValueView {
    RawBytes(Seq<u8>),
    CLValue(CLValue),
    Account,
    AddressableEntity(AddressableEntity),
    Package(Package),
    ByteCode(ByteCodeKind, Seq<u8>),
    Other,
}

impl View for StoredValue {
    type V = StoredValueView;

    open spec fn view(&self) -> StoredValueView {
        match self {
            StoredValue::RawBytes(b) => StoredValueView::RawBytes(b@),
            StoredValue::CLValue(c) => StoredValueView::CLValue(*c),
            StoredValue::Account => StoredValueView::Account,
            StoredValue::AddressableEntity(e) => StoredValueView::AddressableEntity(*e),
            StoredValue::Package(p) => StoredValueView::Package(*p),
            StoredValue::ByteCode(c) => StoredValueView::ByteCode(c.kind, c.bytes@),
            StoredValue::Other => StoredValueView::Other,
        }
    }
}

/// A request to execute a stored contract in a nested call.
#[derive(Debug, Clone)]
pub struct ExecuteRequest {
    /// The account that initiated the transaction.
    pub initiator: AccountHash,
    /// The key of the calling entity.
    pub caller_key: Key,
    /// The key of the called entity.
    pub callee_key: Key,
    /// The gas the callee may spend.
    pub gas_limit: u64,
    /// The entity whose code runs.
    pub address: EntityAddr,
    /// The entry point that runs.
    pub entry_point: String,
    /// The input handed to the entry point.
    pub input: Vec<u8>,
    /// The tokens transferred with the call.
    pub value: u128,
    /// The hash of the transaction.
    pub transaction_hash: [u8; 32],
    /// The name of the chain.
    pub chain_name: String,
}

/// A request to execute, with its strings and bytes as sequences.
pub struct ExecuteRequestView {
    pub initiator: AccountHash,
    pub caller_key: Key,
    pub callee_key: Key,
    pub gas_limit: u64,
    pub address: EntityAddr,
    pub entry_point: Seq<char>,
    pub input: Seq<u8>,
    pub value: u128,
    pub transaction_hash: [u8; 32],
    pub chain_name: Seq<char>,
}

impl View for ExecuteRequest {
    type V = ExecuteRequestView;

    open spec fn view(&self) -> ExecuteRequestView {
        ExecuteRequestView {
            initiator: self.initiator,
            caller_key: self.caller_key,
            callee_key: self.callee_key,
            gas_limit: self.gas_limit,
            address: self.address,
            entry_point: self.entry_point@,
            input: self.input@,
            value: self.value,
            transaction_hash: self.transaction_hash,
            chain_name: self.chain_name@,
        }
    }
}

/// The gas a nested execution had and what it left.
#[derive(Debug, Clone, Copy, PartialEq, Eq, Structural)]
pub struct GasUsage {
    /// The gas it was given.
    pub gas_limit: u64,
    /// The gas it left.
    pub remaining_points: u64,
}

impl GasUsage {
    /// The gas spent: what it was given less what it left.
    pub fn gas_spent(&self) -> (r: u64)
        requires
            self.remaining_points <= self.gas_limit,
        ensures
            r == self.gas_limit - self.remaining_points,
    {
        self.gas_limit - self.remaining_points
    }
}

/// The changes a nested execution made to its copy of global state.
#[derive(Debug, Clone)]
pub struct TrackingCopyParts {
    /// The values written, in order.
    pub writes: Vec<(Key, StoredValue)>,
}

/// The result of a nested execution that ran.
#[derive(Debug, Clone)]
pub struct ExecuteResult {
    /// Why the callee stopped, when it did not return normally.
    pub host_error: Option<HostError>,
    /// What the callee returned.
    pub output: Option<Vec<u8>>,
    /// The gas it used.
    pub gas_usage: GasUsage,
    /// Its changes to global state.
    pub tracking_copy_parts: TrackingCopyParts,
}

/// Why a nested execution could not run.
#[derive(Debug, Clone, Copy, PartialEq, Eq, Structural)]
pub enum ExecuteError {
    /// The callee's code could not be prepared.
    WasmPreparation,
}

/// The result of a host function that calls into another contract.
pub type HostResult = Result<(), HostError>;

/// The layout of the information `casper_read` writes for the guest: where the data went
/// and how long it is.
#[derive(Debug, Clone, Copy, PartialEq, Eq, Structural)]
pub struct ReadInfo {
    /// Where the data was written.
    pub data: u32,
    /// The length of the data.
    pub data_size: u32,
}

/// The layout of the information `casper_create` writes for the guest.
#[derive(Debug, Clone, Copy, PartialEq, Eq)]
pub struct CreateResult {
    /// The address of the new package.
    pub package_address: [u8; 32],
    /// The address of the new contract.
    pub contract_address: [u8; 32],
    /// The version of the contract within its package.
    pub version: u32,
}

} // verus!

verus! {

/// A nested execution's result, with its bytes as sequences.
pub struct ExecuteResultView {
    pub host_error: Option<HostError>,
    pub output: Option<Seq<u8>>,
    pub gas_usage: GasUsage,
    pub writes: Seq<(Key, StoredValueView)>,
}

/// The writes of a nested execution, with their values as views.
pub open spec fn writes_view(w: Seq<(Key, StoredValue)>) -> Seq<(Key, StoredValueView)> {
    w.map_values(|p: (Key, StoredValue)| (p.0, p.1@))
}

impl View for ExecuteResult {
    type V = ExecuteResultView;

    open spec fn view(&self) -> ExecuteResultView {
        ExecuteResultView {
            host_error: self.host_error,
            output: match self.output {
                Some(o) => Some(o@),
                None => None,
            },
            gas_usage: self.gas_usage,
            writes: writes_view(self.tracking_copy_parts.writes@),
        }
    }
}

/// The outcome of a nested execution, as a view.
pub open spec fn execute_outcome_view(r: Result<ExecuteResult, ExecuteError>) -> Result<
    ExecuteResultView,
    ExecuteError,
> {
    match r {
        Ok(res) => Ok(res@),
        Err(e) => Err(e),
    }
}

} // verus!
