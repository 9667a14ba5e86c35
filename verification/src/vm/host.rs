//! The host functions: each reads its arguments from guest memory, decides, asks the engine
//! for the effects, and tells the guest the outcome.
use vstd::prelude::*;
use vstd::utf8::{encode_utf8, valid_utf8};

use super::caller::{
    mem_in_bounds, mem_slice, mem_update, pushed, same_env, same_storage, unchanged, Caller,
    HostEffect, HostState,
};
use super::keyspace::{
    array32, lemma_array32, global_state_key, keyspace_to_global_state_key, spec_keyspace_tag, str_from_utf8, Keyspace,
    KeyspaceTag,
};
use super::layout::{create_result_bytes, le_bytes, read_info_bytes, u128_le_bytes, u32_le_bytes};
use super::types::{
    ExecuteRequest, ExecuteRequestView, ExecuteResult, ExecuteResultView, HostError, HostResult,
    MeteringPoints, CLValue, GasUsage, TrackingCopyParts, AddressableEntity, ByteCode,
    ByteCodeKind, CreateResult, Package, PackageStatus, TrapCode, ReadInfo, ReturnFlags, StorageError, StoredValue, StoredValueView, VMError,
};
use crate::hashing::{blake2b_256, compute_blake2b256};
use crate::keys::{key_entity_addr, AccountHash, ByteCodeAddr, EntityAddr, Key, URef};
use crate::u512::U512;

verus! {

/// 2^32: guest pointers wrap around at this value.
pub open spec fn wrap32(x: int) -> u32 {
    (x % 0x1_0000_0000) as u32
}

/// Memory writes made in order from memory `mem`, until one falls out of bounds: the memory
/// after them, the effects after them, and whether all were made.
pub open spec fn run_writes(mem: Seq<u8>, effects: Seq<HostEffect>, ws: Seq<(u32, Seq<u8>)>) -> (
    Seq<u8>,
    Seq<HostEffect>,
    bool,
)
    decreases ws.len(),
{
    if ws.len() == 0 {
        (mem, effects, true)
    } else if mem_in_bounds(mem, ws[0].0, ws[0].1.len() as int) {
        run_writes(
            mem_update(mem, ws[0].0, ws[0].1),
            effects.push(HostEffect::MemoryWrite { ptr: ws[0].0, data: ws[0].1 }),
            ws.drop_first(),
        )
    } else {
        (mem, effects, false)
    }
}

/// `b` is `a` after the memory writes `ws`, made in order until one falls out of bounds.
pub open spec fn did_writes<C: HostState>(a: C, b: C, ws: Seq<(u32, Seq<u8>)>) -> bool {
    let (m, e, _) = run_writes(a.spec_memory(), a.spec_effects(), ws);
    &&& same_env(a, b)
    &&& same_storage(a, b)
    &&& a.spec_gas() == b.spec_gas()
    &&& b.spec_memory() == m
    &&& b.spec_effects() == e
}

/// All the writes `ws`, made in order from memory `mem`, fall within bounds.
pub open spec fn writes_fit(mem: Seq<u8>, ws: Seq<(u32, Seq<u8>)>) -> bool {
    run_writes(mem, Seq::empty(), ws).2
}

/// The effects of memory writes `ws`.
pub open spec fn write_effects(ws: Seq<(u32, Seq<u8>)>) -> Seq<HostEffect> {
    ws.map_values(|w: (u32, Seq<u8>)| HostEffect::MemoryWrite { ptr: w.0, data: w.1 })
}

/// The effects end with `tail`.
pub open spec fn ends_with(s: Seq<HostEffect>, tail: Seq<HostEffect>) -> bool {
    s.len() >= tail.len() && s.skip(s.len() - tail.len()) == tail
}

/// `b` is `a` after a call of the guest's allocator with these arguments, and possibly more.
pub open spec fn allocated<C: HostState>(a: C, b: C, cb_alloc: u32, size: nat, ctx: u32) -> bool {
    let n = a.spec_effects().len() as int;
    &&& same_env(a, b)
    &&& b.spec_effects().len() > n
    &&& b.spec_effects().take(n) == a.spec_effects()
    &&& b.spec_effects()[n] matches HostEffect::Alloc { cb_alloc: c, size: z, ctx: x, .. } && c
        == cb_alloc && z == size && x == ctx
}

/// The allocator's answer that an effect records.
pub open spec fn alloc_answer(e: HostEffect) -> Result<u32, VMError> {
    match e {
        HostEffect::Alloc { result, .. } => result,
        _ => arbitrary(),
    }
}

/// The guest's memory when the allocator that an effect records returned.
pub open spec fn alloc_memory_of(e: HostEffect) -> Seq<u8> {
    match e {
        HostEffect::Alloc { memory, .. } => memory,
        _ => arbitrary(),
    }
}

/// The gas left when the allocator that an effect records returned.
pub open spec fn alloc_gas_of(e: HostEffect) -> Option<u64> {
    match e {
        HostEffect::Alloc { gas, .. } => gas,
        _ => arbitrary(),
    }
}

/// The guest's memory when the first allocator call made going from `a` to `b` returned.
pub open spec fn alloc_memory<C: HostState>(a: C, b: C) -> Seq<u8> {
    alloc_memory_of(b.spec_effects()[a.spec_effects().len() as int])
}

/// The allocator's answer to the first call of it made going from `a` to `b`.
pub open spec fn alloc_result<C: HostState>(a: C, b: C) -> Result<u32, VMError> {
    alloc_answer(b.spec_effects()[a.spec_effects().len() as int])
}

/// Data written at `ptr` within bounds reads back from there.
proof fn lemma_mem_update_slice(mem: Seq<u8>, ptr: u32, data: Seq<u8>)
    requires
        mem_in_bounds(mem, ptr, data.len() as int),
    ensures
        mem_slice(mem_update(mem, ptr, data), ptr, data.len() as int) == data,
        mem_update(mem, ptr, data).len() == mem.len(),
{
    assert(mem_slice(mem_update(mem, ptr, data), ptr, data.len() as int) =~= data);
}

/// Whether all writes are made does not depend on the effects recorded before them, and
/// the effects after them extend those before.
proof fn lemma_run_writes(mem: Seq<u8>, effects: Seq<HostEffect>, ws: Seq<(u32, Seq<u8>)>)
    ensures
        run_writes(mem, effects, ws).2 == writes_fit(mem, ws),
        run_writes(mem, effects, ws).2 ==> run_writes(mem, effects, ws).1 == effects
            + write_effects(ws),
    decreases ws.len(),
{
    if ws.len() > 0 && mem_in_bounds(mem, ws[0].0, ws[0].1.len() as int) {
        let m2 = mem_update(mem, ws[0].0, ws[0].1);
        let e = HostEffect::MemoryWrite { ptr: ws[0].0, data: ws[0].1 };
        lemma_run_writes(m2, effects.push(e), ws.drop_first());
        lemma_run_writes(m2, Seq::<HostEffect>::empty().push(e), ws.drop_first());
        assert(write_effects(ws) =~= seq![e] + write_effects(ws.drop_first()));
        assert(effects.push(e) + write_effects(ws.drop_first()) =~= effects + write_effects(ws));
    }
}

/// Writes `data` at `ptr`, as one step of a sequence of writes.
fn write_step<C: Caller>(caller: &mut C, ptr: u32, data: &[u8], ws: Ghost<Seq<(u32, Seq<u8>)>>) -> (r: Result<(), VMError>)
    requires
        ws@.len() > 0,
        ws@[0] == (ptr, data@),
    ensures
        r is Ok ==> run_writes(old(caller).spec_memory(), old(caller).spec_effects(), ws@)
            == run_writes(final(caller).spec_memory(), final(caller).spec_effects(), ws@.drop_first()),
        r is Ok ==> final(caller).spec_effects() == old(caller).spec_effects().push(
            HostEffect::MemoryWrite { ptr, data: data@ },
        ),
        r is Err ==> final(caller).spec_effects() == old(caller).spec_effects(),
        r is Ok <==> mem_in_bounds(old(caller).spec_memory(), ptr, data@.len() as int),
        r is Ok ==> final(caller).spec_memory() == mem_update(old(caller).spec_memory(), ptr, data@),
        r is Err ==> final(caller).spec_memory() == old(caller).spec_memory(),
        r is Err ==> run_writes(old(caller).spec_memory(), old(caller).spec_effects(), ws@) == (
            final(caller).spec_memory(),
            final(caller).spec_effects(),
            false,
        ),
        same_env(*old(caller), *final(caller)),
        same_storage(*old(caller), *final(caller)),
        old(caller).spec_gas() == final(caller).spec_gas(),
{
    caller.memory_write(ptr, data)
}

/// Effects recorded after an allocation keep it recorded.
proof fn lemma_allocated_extends<C: HostState>(a: C, mid: C, b: C, cb_alloc: u32, size: nat, ctx: u32)
    requires
        allocated(a, mid, cb_alloc, size, ctx),
        same_env(mid, b),
        b.spec_effects().len() >= mid.spec_effects().len(),
        b.spec_effects().take(mid.spec_effects().len() as int) == mid.spec_effects(),
    ensures
        allocated(a, b, cb_alloc, size, ctx),
        alloc_result(a, b) == alloc_result(a, mid),
        alloc_memory(a, b) == alloc_memory(a, mid),
{
    let n = a.spec_effects().len() as int;
    let m = mid.spec_effects().len() as int;
    assert(b.spec_effects().take(n) =~= b.spec_effects().take(m).take(n));
    assert(b.spec_effects()[n] == b.spec_effects().take(m)[n]);
}

/// How a keyspace argument of the guest resolves.
pub enum KeyArg {
    /// The keyspace number is unknown.
    UnknownTag,
    /// The key payload lies out of guest memory.
    OutOfBounds,
    /// A named key's name is not valid UTF-8.
    InvalidName,
    /// The running entity owns no storage.
    NoEntity,
    /// The global state key of the entry.
    Entry(Key),
}

/// How the keyspace `key_space` with the payload of `key_size` bytes at `key_ptr` resolves
/// for the running entity. The payload is read whatever the keyspace.
pub open spec fn resolve_key_arg<C: HostState>(c: C, key_space: u64, key_ptr: u32, key_size: u32) -> KeyArg {
    match spec_keyspace_tag(key_space) {
        None => KeyArg::UnknownTag,
        Some(tag) => if !mem_in_bounds(c.spec_memory(), key_ptr, key_size as int) {
            KeyArg::OutOfBounds
        } else {
            let payload = mem_slice(c.spec_memory(), key_ptr, key_size as int);
            if tag == KeyspaceTag::NamedKey && !valid_utf8(payload) {
                KeyArg::InvalidName
            } else {
                match global_state_key(c.spec_callee(), tag == KeyspaceTag::State, payload) {
                    None => KeyArg::NoEntity,
                    Some(k) => KeyArg::Entry(k),
                }
            }
        },
    }
}

/// Resolves a keyspace argument to the global state key it names: `Ok(None)` where the
/// guest is told the operation failed.
fn resolve_key<C: Caller>(caller: &C, key_space: u64, key_ptr: u32, key_size: u32) -> (r: Result<Option<Key>, VMError>)
    ensures
        match resolve_key_arg(*caller, key_space, key_ptr, key_size) {
            KeyArg::OutOfBounds => r is Err,
            KeyArg::Entry(k) => r == Ok::<Option<Key>, VMError>(Some(k)),
            _ => r == Ok::<Option<Key>, VMError>(None),
        },
{
    let keyspace_tag = match KeyspaceTag::from_u64(key_space) {
        Some(keyspace_tag) => keyspace_tag,
        None => return Ok(None),
    };
    let key_payload_bytes = caller.memory_read(key_ptr, key_size as usize)?;
    let keyspace = match keyspace_tag {
        KeyspaceTag::State => Keyspace::State,
        KeyspaceTag::Context => Keyspace::Context(key_payload_bytes.as_slice()),
        KeyspaceTag::NamedKey => match str_from_utf8(key_payload_bytes.as_slice()) {
            Some(key_name) => Keyspace::NamedKey(key_name),
            None => return Ok(None),
        },
    };
    Ok(keyspace_to_global_state_key(caller, keyspace))
}

/// `b` is `a` with `v` written under `k`.
pub open spec fn wrote<C: HostState>(a: C, b: C, k: Key, v: StoredValueView) -> bool {
    &&& pushed(a, b, HostEffect::Write(k, v))
    &&& b.spec_read(k) == Ok::<Option<StoredValueView>, StorageError>(Some(v))
}

/// Writes the `value_size` bytes at `value_ptr` under the key the keyspace argument names.
/// Returns 0 on success, 1 when the keyspace is unknown, a named key's name is not UTF-8, or
/// the running entity owns no storage.
pub fn casper_write<C: Caller>(
    caller: &mut C,
    key_space: u64,
    key_ptr: u32,
    key_size: u32,
    value_ptr: u32,
    value_size: u32,
) -> (r: Result<i32, VMError>)
    ensures
        match resolve_key_arg(*old(caller), key_space, key_ptr, key_size) {
            KeyArg::OutOfBounds => r is Err && unchanged(*old(caller), *final(caller)),
            KeyArg::Entry(k) => if mem_in_bounds(
                old(caller).spec_memory(),
                value_ptr,
                value_size as int,
            ) {
                r == Ok::<i32, VMError>(0) && wrote(
                    *old(caller),
                    *final(caller),
                    k,
                    StoredValueView::RawBytes(
                        mem_slice(old(caller).spec_memory(), value_ptr, value_size as int),
                    ),
                )
            } else {
                r is Err && unchanged(*old(caller), *final(caller))
            },
            _ => r == Ok::<i32, VMError>(1) && unchanged(*old(caller), *final(caller)),
        },
{
    let global_state_key = match resolve_key(caller, key_space, key_ptr, key_size)? {
        Some(global_state_key) => global_state_key,
        None => return Ok(1),
    };
    let value = caller.memory_read(value_ptr, value_size as usize)?;
    caller.write(global_state_key, StoredValue::RawBytes(value));
    Ok(0)
}

/// Reads the `message_size` bytes at `message_ptr` that the guest asks to print; the engine
/// prints them, decoded lossily as UTF-8.
pub fn casper_print<C: Caller>(caller: &C, message_ptr: u32, message_size: u32) -> (r: Result<Vec<u8>, VMError>)
    ensures
        r is Ok <==> mem_in_bounds(caller.spec_memory(), message_ptr, message_size as int),
        r matches Ok(m) ==> m@ == mem_slice(caller.spec_memory(), message_ptr, message_size as int),
{
    caller.memory_read(message_ptr, message_size as usize)
}

/// The pointer at which output of `size` bytes goes: where the guest's allocator `cb_alloc`
/// puts it, or, with no allocator, `ctx` itself.
fn output_ptr<C: Caller>(caller: &mut C, cb_alloc: u32, size: usize, ctx: u32) -> (r: Result<u32, VMError>)
    ensures
        cb_alloc == 0 ==> r == Ok::<u32, VMError>(ctx) && unchanged(*old(caller), *final(caller)),
        cb_alloc != 0 ==> allocated(*old(caller), *final(caller), cb_alloc, size as nat, ctx)
            && r == alloc_result(*old(caller), *final(caller)) && final(caller).spec_memory()
            == alloc_memory(*old(caller), *final(caller)) && final(caller).spec_gas()
            == alloc_gas_of(final(caller).spec_effects()[old(caller).spec_effects().len() as int]),
{
    if cb_alloc != 0 {
        caller.allocate(cb_alloc, size, ctx)
    } else {
        Ok(ctx)
    }
}

/// The memory writes that hand read data to the guest: the read information at `info_ptr`,
/// then the data at `out_ptr` unless that is null.
pub open spec fn read_writes(info_ptr: u32, out_ptr: u32, data: Seq<u8>) -> Seq<(u32, Seq<u8>)> {
    let info = read_info_bytes(ReadInfo { data: out_ptr, data_size: data.len() as u32 });
    if out_ptr != 0 {
        seq![(info_ptr, info), (out_ptr, data)]
    } else {
        seq![(info_ptr, info)]
    }
}

/// The read would stop the node: the storage fails, or holds under the key a value that is
/// not raw bytes, or raw bytes too long to describe to the guest.
pub open spec fn read_stops<C: HostState>(c: C, key_space: u64, key_ptr: u32, key_size: u32) -> bool {
    match resolve_key_arg(c, key_space, key_ptr, key_size) {
        KeyArg::Entry(k) => match c.spec_read(k) {
            Err(_) => true,
            Ok(None) => false,
            Ok(Some(StoredValueView::RawBytes(b))) => b.len() > u32::MAX,
            Ok(Some(_)) => true,
        },
        _ => false,
    }
}

/// Reads the value under the key the keyspace argument names and hands it to the guest:
/// writes a `ReadInfo` at `info_ptr` and the bytes where the guest's allocator (or, with
/// none, `alloc_ctx`) says. Returns 0 on success, 1 when there is nothing to read.
pub fn casper_read<C: Caller>(
    caller: &mut C,
    key_tag: u64,
    key_ptr: u32,
    key_size: u32,
    info_ptr: u32,
    cb_alloc: u32,
    alloc_ctx: u32,
) -> (r: Result<i32, VMError>)
    requires
        !read_stops(*old(caller), key_tag, key_ptr, key_size),
    ensures
        match resolve_key_arg(*old(caller), key_tag, key_ptr, key_size) {
            KeyArg::OutOfBounds => r is Err && unchanged(*old(caller), *final(caller)),
            KeyArg::Entry(k) => match old(caller).spec_read(k) {
                Ok(Some(StoredValueView::RawBytes(bytes))) => if cb_alloc == 0 {
                    let ws = read_writes(info_ptr, alloc_ctx, bytes);
                    &&& did_writes(*old(caller), *final(caller), ws)
                    &&& (r is Ok <==> writes_fit(old(caller).spec_memory(), ws))
                    &&& r is Ok ==> r == Ok::<i32, VMError>(0)
                } else {
                    &&& allocated(*old(caller), *final(caller), cb_alloc, bytes.len(), alloc_ctx)
                    &&& match alloc_result(*old(caller), *final(caller)) {
                        Err(e) => r == Err::<i32, VMError>(e),
                        Ok(p) => {
                            &&& (r is Ok <==> writes_fit(
                                alloc_memory(*old(caller), *final(caller)),
                                read_writes(info_ptr, p, bytes),
                            ))
                            &&& r is Ok ==> {
                                &&& r == Ok::<i32, VMError>(0)
                                &&& ends_with(
                                    final(caller).spec_effects(),
                                    write_effects(read_writes(info_ptr, p, bytes)),
                                )
                                &&& p != 0 ==> mem_slice(final(caller).spec_memory(), p, bytes.len() as int)
                                    == bytes
                            }
                        },
                    }
                },
                _ => r == Ok::<i32, VMError>(1) && unchanged(*old(caller), *final(caller)),
            },
            _ => r == Ok::<i32, VMError>(1) && unchanged(*old(caller), *final(caller)),
        },
{
    let global_state_key = match resolve_key(caller, key_tag, key_ptr, key_size)? {
        Some(global_state_key) => global_state_key,
        None => return Ok(1),
    };
    match caller.read(&global_state_key) {
        Ok(Some(StoredValue::RawBytes(raw_bytes))) => {
            let ghost s0 = *caller;
            let out_ptr: u32 = output_ptr(caller, cb_alloc, raw_bytes.len(), alloc_ctx)?;
            let ghost s1 = *caller;
            let read_info = ReadInfo { data: out_ptr, data_size: raw_bytes.len() as u32 };
            let read_info_bytes = read_info.to_bytes();
            let ghost ws = read_writes(info_ptr, out_ptr, raw_bytes@);
            proof {
                lemma_run_writes(s1.spec_memory(), s1.spec_effects(), ws);
                lemma_run_writes(s1.spec_memory(), Seq::empty(), ws);
                lemma_le_len_read_info(read_info);
            }
            let w1 = write_step(caller, info_ptr, read_info_bytes.as_slice(), Ghost(ws));
            if w1.is_err() {
                proof {
                    if cb_alloc != 0 {
                        assert(caller.spec_effects().take(s1.spec_effects().len() as int) =~= s1.spec_effects());
                        lemma_allocated_extends(s0, s1, *caller, cb_alloc, raw_bytes@.len(), alloc_ctx);
                    }
                }
                return Err(w1.unwrap_err());
            }
            let ghost s2 = *caller;
            if out_ptr != 0 {
                let ghost ws2 = ws.drop_first();
                let w2 = write_step(caller, out_ptr, raw_bytes.as_slice(), Ghost(ws2));
                if w2.is_err() {
                    proof {
                        if cb_alloc != 0 {
                            assert(caller.spec_effects().take(s1.spec_effects().len() as int) =~= s1.spec_effects());
                            lemma_allocated_extends(s0, s1, *caller, cb_alloc, raw_bytes@.len(), alloc_ctx);
                        }
                    }
                    return Err(w2.unwrap_err());
                }
                proof {
                    assert(ws2.drop_first().len() == 0);
                }
            } else {
                proof {
                    assert(ws.drop_first().len() == 0);
                }
            }
            proof {
                assert(caller.spec_effects() == s1.spec_effects() + write_effects(ws));
                if cb_alloc != 0 {
                    assert(caller.spec_effects().skip(caller.spec_effects().len() - write_effects(ws).len()) =~= write_effects(ws));
                    assert(caller.spec_effects().take(s1.spec_effects().len() as int) =~= s1.spec_effects());
                    lemma_allocated_extends(s0, s1, *caller, cb_alloc, raw_bytes@.len(), alloc_ctx);
                }
            }
            Ok(0)
        },
        Ok(None) => Ok(1),
        _ => {
            proof {
                assert(false);
            }
            Ok(1)
        },
    }
}

proof fn lemma_le_len_read_info(info: ReadInfo)
    ensures
        read_info_bytes(info).len() == 8,
{
    super::layout::lemma_le_bytes_len(info.data as nat, 4);
    super::layout::lemma_le_bytes_len(info.data_size as nat, 4);
}

/// Where data of `len` bytes handed to the guest at `out_ptr` ends: 0 when nothing was
/// written, else the pointer past the data, wrapping around at 2^32.
pub open spec fn end_ptr(out_ptr: u32, len: int) -> u32 {
    if out_ptr == 0 {
        0
    } else {
        wrap32(out_ptr + len)
    }
}

/// The pointer past `len` bytes at `ptr`, wrapping around at 2^32.
fn ptr_after(ptr: u32, len: usize) -> (r: u32)
    ensures
        r == wrap32(ptr + len),
{
    ((ptr as u128 + len as u128) % 0x1_0000_0000u128) as u32
}

/// Copies the input of the current call to where the guest's allocator (or, with none,
/// `alloc_ctx`) says; returns the pointer past the copy, or 0 when the guest gave no place.
pub fn casper_copy_input<C: Caller>(caller: &mut C, cb_alloc: u32, alloc_ctx: u32) -> (r: Result<u32, VMError>)
    ensures
        cb_alloc == 0 ==> {
            let ws = if alloc_ctx == 0 {
                Seq::empty()
            } else {
                seq![(alloc_ctx, old(caller).spec_input())]
            };
            &&& did_writes(*old(caller), *final(caller), ws)
            &&& (r is Ok <==> writes_fit(old(caller).spec_memory(), ws))
            &&& r is Ok ==> r == Ok::<u32, VMError>(
                end_ptr(alloc_ctx, old(caller).spec_input().len() as int),
            )
        },
        cb_alloc != 0 ==> {
            &&& allocated(
                *old(caller),
                *final(caller),
                cb_alloc,
                old(caller).spec_input().len(),
                alloc_ctx,
            )
            &&& match alloc_result(*old(caller), *final(caller)) {
                Err(e) => r == Err::<u32, VMError>(e),
                Ok(p) => {
                    &&& p == 0 ==> r == Ok::<u32, VMError>(0)
                    &&& p != 0 ==> (r is Ok <==> mem_in_bounds(
                        alloc_memory(*old(caller), *final(caller)),
                        p,
                        old(caller).spec_input().len() as int,
                    ))
                    &&& r is Ok ==> r == Ok::<u32, VMError>(
                        end_ptr(p, old(caller).spec_input().len() as int),
                    )
                    &&& p != 0 && r is Ok ==> {
                        &&& ends_with(
                            final(caller).spec_effects(),
                            seq![HostEffect::MemoryWrite { ptr: p, data: old(caller).spec_input() }],
                        )
                        &&& mem_slice(
                            final(caller).spec_memory(),
                            p,
                            old(caller).spec_input().len() as int,
                        ) == old(caller).spec_input()
                    }
                },
            }
        },
{
    let input = caller.config_input();
    let ghost s0 = *caller;
    let out_ptr: u32 = output_ptr(caller, cb_alloc, input.len(), alloc_ctx)?;
    let ghost s1 = *caller;
    if out_ptr == 0 {
        proof {
            assert(end_ptr(out_ptr, input@.len() as int) == 0);
        }
        Ok(out_ptr)
    } else {
        let ghost ws = seq![(out_ptr, input@)];
        proof {
            lemma_run_writes(s1.spec_memory(), s1.spec_effects(), ws);
            lemma_run_writes(s1.spec_memory(), Seq::empty(), ws);
        }
        let w = write_step(caller, out_ptr, input.as_slice(), Ghost(ws));
        proof {
            assert(ws.drop_first().len() == 0);
            if cb_alloc != 0 {
                assert(caller.spec_effects().take(s1.spec_effects().len() as int) =~= s1.spec_effects());
                lemma_allocated_extends(s0, s1, *caller, cb_alloc, input@.len(), alloc_ctx);
                if w is Ok {
                    assert(caller.spec_effects().skip(caller.spec_effects().len() - 1) =~= seq![HostEffect::MemoryWrite { ptr: out_ptr, data: input@ }]);
                }
            }
        }
        match w {
            Ok(()) => {
                let v = ptr_after(out_ptr, input.len());
                proof {
                    assert(v == end_ptr(out_ptr, input@.len() as int));
                }
                Ok(v)
            },
            Err(e) => Err(e),
        }
    }
}

/// Stops the running contract, returning with `flags` and, unless `data_ptr` is null, the
/// `data_len` bytes at `data_ptr`.
pub fn casper_return<C: Caller>(caller: &C, flags: u32, data_ptr: u32, data_len: u32) -> (r: Result<(), VMError>)
    ensures
        r is Err,
        data_ptr == 0 ==> r == Err::<(), VMError>(
            VMError::Return { flags: ReturnFlags { bits: flags }, data: None },
        ),
        data_ptr != 0 && mem_in_bounds(caller.spec_memory(), data_ptr, data_len as int) ==> (
        r matches Err(VMError::Return { flags: f, data: Some(d) }) && f.bits == flags && d@
            == mem_slice(caller.spec_memory(), data_ptr, data_len as int)),
{
    let flags = ReturnFlags::from_bits_retain(flags);
    let data = if data_ptr == 0 {
        None
    } else {
        let data = caller.memory_read(data_ptr, data_len as usize)?;
        Some(data)
    };
    Err(VMError::Return { flags, data })
}

/// Writes the tokens transferred with the current call, as 16 little-endian bytes, at
/// `output`.
pub fn casper_env_value<C: Caller>(caller: &mut C, output: u32) -> (r: Result<(), VMError>)
    ensures
        did_writes(*old(caller), *final(caller), seq![(output, le_bytes(old(caller).spec_value() as nat, 16))]),
        r is Ok <==> writes_fit(
            old(caller).spec_memory(),
            seq![(output, le_bytes(old(caller).spec_value() as nat, 16))],
        ),
{
    let result = caller.value();
    let bytes = u128_le_bytes(result);
    let ghost ws = seq![(output, bytes@)];
    proof {
        lemma_run_writes(caller.spec_memory(), caller.spec_effects(), ws);
        lemma_run_writes(caller.spec_memory(), Seq::empty(), ws);
    }
    let w = write_step(caller, output, bytes.as_slice(), Ghost(ws));
    proof {
        assert(ws.drop_first().len() == 0);
    }
    w
}

/// The kind number and address bytes of the entity that called the running one: 0 for an
/// account, 1 for an addressable entity.
pub open spec fn caller_identity(k: Key) -> Option<(u32, [u8; 32])> {
    match k {
        Key::Account(h) => Some((0u32, h.0)),
        Key::AddressableEntity(a) => Some((1u32, crate::keys::entity_addr_value(a))),
        _ => None,
    }
}

/// The writes that describe the calling entity: at most `dest_len` of its address bytes at
/// `dest_ptr`, and its kind, as four little-endian bytes, at `entity_kind_ptr`.
pub open spec fn env_caller_writes(
    kind: u32,
    addr: [u8; 32],
    dest_ptr: u32,
    dest_len: u32,
    entity_kind_ptr: u32,
) -> Seq<(u32, Seq<u8>)> {
    let n = if dest_len < 32 {
        dest_len as int
    } else {
        32
    };
    seq![(dest_ptr, addr@.take(n)), (entity_kind_ptr, le_bytes(kind as nat, 4))]
}

/// Describes the entity that called the running one to the guest: writes up to `dest_len`
/// bytes of its address at `dest_ptr` and its kind at `entity_kind_ptr`, and returns the
/// pointer past the address bytes; returns 0, writing nothing, when `dest_ptr` is null.
pub fn casper_env_caller<C: Caller>(
    caller: &mut C,
    dest_ptr: u32,
    dest_len: u32,
    entity_kind_ptr: u32,
) -> (r: Result<u32, VMError>)
    requires
        caller_identity(old(caller).spec_caller_key()) is Some,
    ensures
        dest_ptr == 0 ==> r == Ok::<u32, VMError>(0) && unchanged(*old(caller), *final(caller)),
        dest_ptr != 0 ==> {
            let (kind, addr) = caller_identity(old(caller).spec_caller_key())->0;
            let ws = env_caller_writes(kind, addr, dest_ptr, dest_len, entity_kind_ptr);
            &&& did_writes(*old(caller), *final(caller), ws)
            &&& (r is Ok <==> writes_fit(old(caller).spec_memory(), ws))
            &&& r is Ok ==> r == Ok::<u32, VMError>(wrap32(dest_ptr + ws[0].1.len()))
        },
{
    let (entity_kind, data) = match caller.caller_key() {
        Key::Account(account_hash) => (0u32, account_hash.0),
        Key::AddressableEntity(entity_addr) => (1u32, entity_addr.value()),
        _ => {
            proof {
                assert(false);
            }
            (0u32, [0u8; 32])
        },
    };
    if dest_ptr == 0 {
        Ok(dest_ptr)
    } else {
        let dest_len = dest_len as usize;
        let n: usize = if dest_len < 32 {
            dest_len
        } else {
            32
        };
        let mut prefix: Vec<u8> = Vec::new();
        let mut i: usize = 0;
        while i < n
            invariant
                n <= 32,
                i <= n,
                prefix@ == data@.take(i as int),
            decreases n - i,
        {
            prefix.push(data[i]);
            i = i + 1;
            assert(prefix@ =~= data@.take(i as int));
        }
        let kind_bytes = u32_le_bytes(entity_kind);
        let ghost ws = env_caller_writes(entity_kind, data, dest_ptr, dest_len as u32, entity_kind_ptr);
        let ghost s1 = *caller;
        proof {
            assert(ws[0] == (dest_ptr, prefix@));
            lemma_run_writes(s1.spec_memory(), s1.spec_effects(), ws);
            lemma_run_writes(s1.spec_memory(), Seq::empty(), ws);
        }
        write_step(caller, dest_ptr, prefix.as_slice(), Ghost(ws))?;
        write_step(caller, entity_kind_ptr, kind_bytes.as_slice(), Ghost(ws.drop_first()))?;
        proof {
            assert(ws.drop_first().drop_first().len() == 0);
        }
        Ok(ptr_after(dest_ptr, prefix.len()))
    }
}

/// The environment path the guest passes names the calling entity: a single zero.
pub open spec fn is_env_caller_path<C: HostState>(c: C, env_path: u32, env_path_length: u32) -> bool {
    &&& env_path_length == 1
    &&& mem_in_bounds(c.spec_memory(), env_path, 8)
    &&& mem_slice(c.spec_memory(), env_path, 8) == seq![0u8, 0, 0, 0, 0, 0, 0, 0]
}

/// Reads an environment path of `env_path_length` 64-bit little-endian numbers at
/// `env_path`. No path names data yet, so nothing is handed to the guest and the result is
/// 0; reading the calling entity by its path is not offered.
pub fn casper_env_read<C: Caller>(
    caller: &mut C,
    env_path: u32,
    env_path_length: u32,
    cb_alloc: u32,
    alloc_ctx: u32,
) -> (r: Result<u32, VMError>)
    requires
        env_path_length as int * 8 <= usize::MAX,
        !is_env_caller_path(*old(caller), env_path, env_path_length),
    ensures
        unchanged(*old(caller), *final(caller)),
        r is Ok <==> mem_in_bounds(old(caller).spec_memory(), env_path, env_path_length as int * 8),
        r is Ok ==> r == Ok::<u32, VMError>(0),
{
    let size: usize = env_path_length as usize;
    let env_path_bytes = caller.memory_read(env_path, size * 8)?;
    Ok(0)
}

/// The kind of entity a guest names by number: 0 for an account, 1 for a contract.
#[derive(Debug, Clone, Copy, PartialEq, Eq, Structural)]
pub enum EntityKindTag {
    /// An account.
    Account,
    /// A contract.
    Contract,
}

/// The entity kind with the given number.
pub open spec fn spec_entity_kind_tag(v: u32) -> Option<EntityKindTag> {
    if v == 0 {
        Some(EntityKindTag::Account)
    } else if v == 1 {
        Some(EntityKindTag::Contract)
    } else {
        None
    }
}

impl EntityKindTag {
    /// The entity kind with the given number, if there is one.
    pub fn from_u32(v: u32) -> (r: Option<EntityKindTag>)
        ensures
            r == spec_entity_kind_tag(v),
    {
        if v == 0 {
            Some(EntityKindTag::Account)
        } else if v == 1 {
            Some(EntityKindTag::Contract)
        } else {
            None
        }
    }
}

/// Copies 32 bytes into an array.
fn to_array32(v: &Vec<u8>) -> (r: [u8; 32])
    requires
        v@.len() == 32,
    ensures
        r == array32(v@),
{
    let mut a = [0u8; 32];
    let mut i: usize = 0;
    while i < 32
        invariant
            i <= 32,
            v@.len() == 32,
            forall|j: int| 0 <= j < i ==> a@[j] == v@[j],
        decreases 32 - i,
    {
        a[i] = v[i];
        i = i + 1;
    }
    proof {
        assert(a@ =~= v@);
        lemma_array32(a, v@);
    }
    a
}

/// How a step of a host function that reads its way to a value ends.
pub enum Resolution<T> {
    /// The guest is told the operation was declined.
    Declined,
    /// An argument lies out of guest memory.
    OutOfBounds,
    /// The node would stop: storage failed, or holds what it must not.
    Stops,
    /// The value was found.
    Found(T),
}

/// The entity whose balance the guest asks for: an account's entity by the key its account
/// record holds, or a contract by its address.
pub open spec fn balance_entity_key<C: HostState>(c: C, entity_kind: u32, addr_ptr: u32, addr_len: u32) -> Resolution<Key> {
    match spec_entity_kind_tag(entity_kind) {
        None => Resolution::Declined,
        Some(tag) => if addr_len != 32 {
            Resolution::Declined
        } else if !mem_in_bounds(c.spec_memory(), addr_ptr, 32) {
            Resolution::OutOfBounds
        } else {
            let addr = array32(mem_slice(c.spec_memory(), addr_ptr, 32));
            match tag {
                EntityKindTag::Account => match c.spec_read(Key::Account(AccountHash(addr))) {
                    Ok(Some(StoredValueView::CLValue(CLValue::Key(k)))) => Resolution::Found(k),
                    Ok(None) => Resolution::Declined,
                    _ => Resolution::Stops,
                },
                EntityKindTag::Contract => Resolution::Found(
                    Key::AddressableEntity(EntityAddr::SmartContract(addr)),
                ),
            }
        },
    }
}

/// The main purse of the entity whose balance the guest asks for.
pub open spec fn balance_purse<C: HostState>(c: C, entity_kind: u32, addr_ptr: u32, addr_len: u32) -> Resolution<URef> {
    match balance_entity_key(c, entity_kind, addr_ptr, addr_len) {
        Resolution::Found(k) => match c.spec_read(k) {
            Ok(Some(StoredValueView::AddressableEntity(e))) => Resolution::Found(e.main_purse),
            Ok(None) => Resolution::Declined,
            _ => Resolution::Stops,
        },
        Resolution::Declined => Resolution::Declined,
        Resolution::OutOfBounds => Resolution::OutOfBounds,
        Resolution::Stops => Resolution::Stops,
    }
}

/// The balance query would stop the node: storage fails or holds an unexpected value, or
/// the balance exceeds 64 bits.
pub open spec fn balance_stops<C: HostState>(c: C, entity_kind: u32, addr_ptr: u32, addr_len: u32) -> bool {
    match balance_purse(c, entity_kind, addr_ptr, addr_len) {
        Resolution::Stops => true,
        Resolution::Found(p) => match c.spec_total_balance(p) {
            Ok(b) => b.value() > u64::MAX,
            Err(_) => true,
        },
        _ => false,
    }
}

/// Writes the total balance of an entity's main purse, as 16 little-endian bytes, at
/// `output_ptr` and returns 1; returns 0 when the kind is unknown, the address is not 32
/// bytes long, or the entity is not found.
pub fn casper_env_balance<C: Caller>(
    caller: &mut C,
    entity_kind: u32,
    entity_addr_ptr: u32,
    entity_addr_len: u32,
    output_ptr: u32,
) -> (r: Result<u32, VMError>)
    requires
        !balance_stops(*old(caller), entity_kind, entity_addr_ptr, entity_addr_len),
    ensures
        match balance_purse(*old(caller), entity_kind, entity_addr_ptr, entity_addr_len) {
            Resolution::Found(p) => {
                let ws = seq![
                    (output_ptr, le_bytes(old(caller).spec_total_balance(p)->Ok_0.value(), 16)),
                ];
                &&& did_writes(*old(caller), *final(caller), ws)
                &&& (r is Ok <==> writes_fit(old(caller).spec_memory(), ws))
                &&& r is Ok ==> r == Ok::<u32, VMError>(1)
            },
            Resolution::OutOfBounds => r is Err && unchanged(*old(caller), *final(caller)),
            _ => r == Ok::<u32, VMError>(0) && unchanged(*old(caller), *final(caller)),
        },
{
    let entity_key = match EntityKindTag::from_u32(entity_kind) {
        Some(EntityKindTag::Account) => {
            if entity_addr_len != 32 {
                return Ok(0);
            }
            let entity_addr = caller.memory_read(entity_addr_ptr, entity_addr_len as usize)?;
            let account_hash = AccountHash(to_array32(&entity_addr));
            let account_key = Key::Account(account_hash);
            match caller.read(&account_key) {
                Ok(Some(StoredValue::CLValue(CLValue::Key(entity_key)))) => entity_key,
                Ok(None) => return Ok(0),
                _ => {
                    proof {
                        assert(false);
                    }
                    return Ok(0);
                },
            }
        },
        Some(EntityKindTag::Contract) => {
            if entity_addr_len != 32 {
                return Ok(0);
            }
            let hash_bytes = caller.memory_read(entity_addr_ptr, entity_addr_len as usize)?;
            Key::AddressableEntity(EntityAddr::SmartContract(to_array32(&hash_bytes)))
        },
        None => return Ok(0),
    };
    let purse = match caller.read(&entity_key) {
        Ok(Some(StoredValue::AddressableEntity(addressable_entity))) => addressable_entity.main_purse,
        Ok(None) => return Ok(0),
        _ => {
            proof {
                assert(false);
            }
            return Ok(0);
        },
    };
    let total_balance = match caller.get_total_balance(purse) {
        Ok(b) => b,
        Err(_) => {
            proof {
                assert(false);
            }
            return Ok(0);
        },
    };
    let total_balance: u128 = total_balance.low_u128();
    let bytes = u128_le_bytes(total_balance);
    let ghost ws = seq![(output_ptr, bytes@)];
    proof {
        lemma_run_writes(caller.spec_memory(), caller.spec_effects(), ws);
        lemma_run_writes(caller.spec_memory(), Seq::empty(), ws);
    }
    write_step(caller, output_ptr, bytes.as_slice(), Ghost(ws))?;
    proof {
        assert(ws.drop_first().len() == 0);
    }
    Ok(1)
}

/// The entry point that receives transfers to a contract.
pub const FALLBACK_ENTRY_POINT: &'static str = "__casper_fallback";

/// The kind and entity address of a transfer's target: an account's entity by the key its
/// account record holds, or a contract by its address.
pub open spec fn transfer_target<C: HostState>(c: C, entity_kind: u32, addr_ptr: u32, addr_len: u32) -> Resolution<(EntityKindTag, EntityAddr)> {
    if addr_len != 32 {
        Resolution::Declined
    } else {
        match spec_entity_kind_tag(entity_kind) {
            None => Resolution::Declined,
            Some(tag) => if !mem_in_bounds(c.spec_memory(), addr_ptr, 32) {
                Resolution::OutOfBounds
            } else {
                let addr = array32(mem_slice(c.spec_memory(), addr_ptr, 32));
                match tag {
                    EntityKindTag::Account => match c.spec_read(Key::Account(AccountHash(addr))) {
                        Ok(Some(StoredValueView::CLValue(CLValue::Key(k)))) => match key_entity_addr(k) {
                            Some(ea) => Resolution::Found((EntityKindTag::Account, ea)),
                            None => Resolution::Stops,
                        },
                        Ok(None) => Resolution::Declined,
                        _ => Resolution::Stops,
                    },
                    EntityKindTag::Contract => Resolution::Found(
                        (EntityKindTag::Contract, EntityAddr::SmartContract(addr)),
                    ),
                }
            },
        }
    }
}

/// The key of the running entity's addressable entity: an account's by the key its
/// account record holds, an entity's its own.
pub open spec fn callee_entity_key<C: HostState>(c: C) -> Resolution<Key> {
    match c.spec_callee() {
        Key::Account(_) => match c.spec_read(c.spec_callee()) {
            Ok(Some(StoredValueView::CLValue(CLValue::Key(k)))) => Resolution::Found(k),
            Ok(None) => Resolution::Declined,
            _ => Resolution::Stops,
        },
        Key::AddressableEntity(_) => Resolution::Found(c.spec_callee()),
        _ => Resolution::Stops,
    }
}

/// The main purse of the running entity.
pub open spec fn callee_purse<C: HostState>(c: C) -> Resolution<URef> {
    match callee_entity_key(c) {
        Resolution::Found(k) => if key_entity_addr(k) is None {
            Resolution::Stops
        } else {
            match c.spec_read(k) {
                Ok(Some(StoredValueView::AddressableEntity(e))) => Resolution::Found(e.main_purse),
                _ => Resolution::Stops,
            }
        },
        Resolution::Declined => Resolution::Declined,
        Resolution::OutOfBounds => Resolution::OutOfBounds,
        Resolution::Stops => Resolution::Stops,
    }
}

/// What a transfer comes to before anything changes.
pub enum TransferPlan {
    /// The guest is told the target is not callable.
    NotCallable,
    /// The target's address lies out of guest memory.
    OutOfBounds,
    /// The node would stop.
    Stops,
    /// The mint moves tokens between these purses.
    ToAccount { source: URef, target: URef },
    /// The contract's fallback entry point is called with the tokens.
    ToContract(EntityAddr),
}

/// What a transfer of the running entity's tokens to the entity the guest names comes to.
pub open spec fn transfer_plan<C: HostState>(c: C, entity_kind: u32, addr_ptr: u32, addr_len: u32) -> TransferPlan {
    match transfer_target(c, entity_kind, addr_ptr, addr_len) {
        Resolution::Declined => TransferPlan::NotCallable,
        Resolution::OutOfBounds => TransferPlan::OutOfBounds,
        Resolution::Stops => TransferPlan::Stops,
        Resolution::Found((tag, ea)) => match callee_purse(c) {
            Resolution::Declined => TransferPlan::NotCallable,
            Resolution::Found(source) => match tag {
                EntityKindTag::Account => match c.spec_read(Key::AddressableEntity(ea)) {
                    Ok(Some(StoredValueView::AddressableEntity(e))) => TransferPlan::ToAccount {
                        source,
                        target: e.main_purse,
                    },
                    _ => TransferPlan::Stops,
                },
                EntityKindTag::Contract => TransferPlan::ToContract(ea),
            },
            _ => TransferPlan::Stops,
        },
    }
}

/// The request that calls the fallback entry point of `target` with `amount` tokens and
/// the gas left, on behalf of the running entity.
pub open spec fn fallback_request<C: HostState>(c: C, target: EntityAddr, amount: u128, gas_limit: u64) -> ExecuteRequestView {
    ExecuteRequestView {
        initiator: c.spec_initiator(),
        caller_key: c.spec_callee(),
        callee_key: Key::AddressableEntity(target),
        gas_limit,
        address: target,
        entry_point: FALLBACK_ENTRY_POINT@,
        input: Seq::empty(),
        value: amount,
        transaction_hash: c.spec_transaction_hash(),
        chain_name: c.spec_chain_name(),
    }
}

/// The gas a nested run spent.
pub open spec fn spent(res: ExecuteResultView) -> u64 {
    (res.gas_usage.gas_limit - res.gas_usage.remaining_points) as u64
}

/// What a nested run means for the caller: its host error, or success.
pub open spec fn host_result_of(res: ExecuteResultView) -> HostResult {
    match res.host_error {
        Some(e) => Err(e),
        None => Ok(()),
    }
}

/// The merge of a nested run's changes, made only when it succeeded.
pub open spec fn merged(res: ExecuteResultView) -> Seq<HostEffect> {
    if res.host_error is None {
        seq![HostEffect::Merge(res.writes)]
    } else {
        Seq::empty()
    }
}

/// Runs a stored contract in a nested call; with an executor that prepares stored code the
/// run takes place.
fn execute_stored<C: Caller>(caller: &mut C, request: &ExecuteRequest) -> (r: ExecuteResult)
    requires
        old(caller).spec_prepares_stored_code(),
    ensures
        pushed(*old(caller), *final(caller), HostEffect::Execute(request@, Ok(r@))),
        r.gas_usage.gas_limit == request.gas_limit,
        r.gas_usage.remaining_points <= r.gas_usage.gas_limit,
{
    match caller.execute(request) {
        Ok(result) => result,
        Err(_) => {
            proof {
                assert(false);
            }
            ExecuteResult {
                host_error: None,
                output: None,
                gas_usage: GasUsage { gas_limit: request.gas_limit, remaining_points: 0 },
                tracking_copy_parts: TrackingCopyParts { writes: Vec::new() },
            }
        },
    }
}

/// Transfers `amount` tokens of the running entity to the entity the guest names by kind
/// and 32-byte address: to an account's main purse through the mint, or to a contract by
/// calling its fallback entry point with the tokens and the gas left. A nested call's gas is
/// charged twice; when the second charge finds too little gas the transfer stops with
/// `OutOfGas`. The guest is told `NotCallable` when the address is not 32 bytes long, the
/// kind is unknown, or the target account or the running account is not found.
#[verifier::rlimit(30)]
pub fn casper_transfer<C: Caller>(
    caller: &mut C,
    entity_kind: u32,
    entity_addr_ptr: u32,
    entity_addr_len: u32,
    amount: u128,
) -> (r: Result<HostResult, VMError>)
    requires
        !(transfer_plan(*old(caller), entity_kind, entity_addr_ptr, entity_addr_len) is Stops),
        transfer_plan(*old(caller), entity_kind, entity_addr_ptr, entity_addr_len) is ToContract
            ==> old(caller).spec_gas() is Some && old(caller).spec_prepares_stored_code(),
    ensures
        same_env(*old(caller), *final(caller)),
        final(caller).spec_memory() == old(caller).spec_memory(),
        match transfer_plan(*old(caller), entity_kind, entity_addr_ptr, entity_addr_len) {
            TransferPlan::NotCallable => r == Ok::<HostResult, VMError>(Err(HostError::NotCallable))
                && unchanged(*old(caller), *final(caller)),
            TransferPlan::OutOfBounds => r is Err && unchanged(*old(caller), *final(caller)),
            TransferPlan::ToAccount { source, target } => {
                let n = old(caller).spec_effects().len() as int;
                let e = final(caller).spec_effects();
                &&& final(caller).spec_gas() == old(caller).spec_gas()
                &&& e.len() == n + 1
                &&& e.take(n) == old(caller).spec_effects()
                &&& e[n] matches HostEffect::MintTransfer { source: s, target: t, amount: a, result: hr }
                    && s == source && t == target && a.value() == amount && r == Ok::<HostResult, VMError>(hr)
            },
            TransferPlan::ToContract(ea) => {
                let g = old(caller).spec_gas()->0;
                let n = old(caller).spec_effects().len() as int;
                let e = final(caller).spec_effects();
                &&& e.len() > n
                &&& e.take(n) == old(caller).spec_effects()
                &&& match e[n] {
                    HostEffect::Execute(rq, Ok(res)) => {
                        let sp = spent(res);
                        &&& rq == fallback_request(*old(caller), ea, amount, g)
                        &&& e.skip(n + 1) == seq![HostEffect::ConsumeGas(sp)] + merged(res) + seq![
                            HostEffect::ConsumeGas(sp),
                        ]
                        &&& if sp <= g - sp {
                            r == Ok::<HostResult, VMError>(host_result_of(res))
                                && final(caller).spec_gas() == Some((g - 2 * sp) as u64)
                        } else {
                            r == Err::<HostResult, VMError>(VMError::OutOfGas)
                                && final(caller).spec_gas() is None
                        }
                    },
                    _ => false,
                }
            },
            TransferPlan::Stops => false,
        },
{
    if entity_addr_len != 32 {
        return Ok(Err(HostError::NotCallable));
    }
    let entity_kind = match EntityKindTag::from_u32(entity_kind) {
        Some(entity_kind) => entity_kind,
        None => return Ok(Err(HostError::NotCallable)),
    };
    let target_entity_addr = match entity_kind {
        EntityKindTag::Account => {
            let entity_addr = caller.memory_read(entity_addr_ptr, entity_addr_len as usize)?;
            let account_hash = AccountHash(to_array32(&entity_addr));
            let account_key = Key::Account(account_hash);
            match caller.read(&account_key) {
                Ok(Some(StoredValue::CLValue(CLValue::Key(addressable_entity_key)))) => {
                    match addressable_entity_key.into_entity_addr() {
                        Some(ea) => ea,
                        None => {
                            proof {
                                assert(false);
                            }
                            return Ok(Err(HostError::NotCallable));
                        },
                    }
                },
                Ok(None) => return Ok(Err(HostError::NotCallable)),
                _ => {
                    proof {
                        assert(false);
                    }
                    return Ok(Err(HostError::NotCallable));
                },
            }
        },
        EntityKindTag::Contract => {
            let entity_addr = caller.memory_read(entity_addr_ptr, entity_addr_len as usize)?;
            EntityAddr::SmartContract(to_array32(&entity_addr))
        },
    };
    let callee = caller.callee();
    let callee_addressable_entity_key = match callee {
        Key::Account(_) => match caller.read(&callee) {
            Ok(Some(StoredValue::CLValue(CLValue::Key(addressable_entity_key)))) => addressable_entity_key,
            Ok(None) => return Ok(Err(HostError::NotCallable)),
            _ => {
                proof {
                    assert(false);
                }
                return Ok(Err(HostError::NotCallable));
            },
        },
        Key::AddressableEntity(_) => callee,
        _ => {
            proof {
                assert(false);
            }
            return Ok(Err(HostError::NotCallable));
        },
    };
    if callee_addressable_entity_key.into_entity_addr().is_none() {
        proof {
            assert(false);
        }
        return Ok(Err(HostError::NotCallable));
    }
    let callee_purse = match caller.read(&callee_addressable_entity_key) {
        Ok(Some(StoredValue::AddressableEntity(e))) => e.main_purse,
        _ => {
            proof {
                assert(false);
            }
            return Ok(Err(HostError::NotCallable));
        },
    };
    match entity_kind {
        EntityKindTag::Account => {
            let target_purse = match caller.read(&Key::AddressableEntity(target_entity_addr)) {
                Ok(Some(StoredValue::AddressableEntity(e))) => e.main_purse,
                _ => {
                    proof {
                        assert(false);
                    }
                    return Ok(Err(HostError::NotCallable));
                },
            };
            let amount = U512::from_u128(amount);
            Ok(caller.mint_transfer(callee_purse, target_purse, amount))
        },
        EntityKindTag::Contract => {
            let gas_limit = match caller.gas_consumed() {
                MeteringPoints::Remaining(n) => n,
                MeteringPoints::Exhausted => {
                    proof {
                        assert(false);
                    }
                    return Err(VMError::OutOfGas);
                },
            };
            let request = ExecuteRequest {
                initiator: caller.initiator(),
                caller_key: caller.callee(),
                callee_key: Key::AddressableEntity(target_entity_addr),
                gas_limit,
                address: target_entity_addr,
                entry_point: FALLBACK_ENTRY_POINT.to_owned(),
                input: Vec::new(),
                value: amount,
                transaction_hash: caller.transaction_hash(),
                chain_name: caller.chain_name(),
            };
            proof {
                assert(request@ =~= fallback_request(*old(caller), target_entity_addr, amount, gas_limit));
            }
            let ghost s1 = *caller;
            let result = execute_stored(caller, &request);
            let ghost v = result@;
            let ExecuteResult { host_error, output, gas_usage, tracking_copy_parts } = result;
            let ghost s2 = *caller;
            caller.consume_gas(gas_usage.gas_spent());
            let ghost s3 = *caller;
            let host_result = match host_error {
                Some(host_error) => Err(host_error),
                None => {
                    caller.merge(tracking_copy_parts);
                    Ok(())
                },
            };
            let ghost s4 = *caller;
            let gas_spent = gas_usage.gas_spent();
            let second = caller.consume_gas(gas_spent);
            proof {
                let n = old(caller).spec_effects().len() as int;
                let head = old(caller).spec_effects().push(HostEffect::Execute(request@, Ok(v)));
                let tail = seq![HostEffect::ConsumeGas(gas_spent)] + merged(v) + seq![HostEffect::ConsumeGas(gas_spent)];
                assert(s2.spec_effects() == head);
                assert(s4.spec_effects() == s3.spec_effects() + merged(v));
                assert(caller.spec_effects() =~= head + tail);
                assert(caller.spec_effects().take(n) =~= old(caller).spec_effects());
                assert((head + tail).skip(n + 1) =~= tail);
            }
            match second {
                MeteringPoints::Remaining(_) => Ok(host_result),
                MeteringPoints::Exhausted => Err(VMError::OutOfGas),
            }
        },
    }
}

/// `rq` runs the entry point whose UTF-8 name is `ep_bytes` of the entity `address` (keyed
/// `callee_key`) with `input`, `value` tokens and `gas` gas, on behalf of the running entity.
pub open spec fn request_is<C: HostState>(
    rq: ExecuteRequestView,
    c: C,
    callee_key: Key,
    address: EntityAddr,
    ep_bytes: Seq<u8>,
    input: Seq<u8>,
    value: u128,
    gas: u64,
) -> bool {
    &&& rq.initiator == c.spec_initiator()
    &&& rq.caller_key == c.spec_callee()
    &&& rq.callee_key == callee_key
    &&& rq.gas_limit == gas
    &&& rq.address == address
    &&& encode_utf8(rq.entry_point) == ep_bytes
    &&& rq.input == input
    &&& rq.value == value
    &&& rq.transaction_hash == c.spec_transaction_hash()
    &&& rq.chain_name == c.spec_chain_name()
}

/// Decodes an entry point's name.
fn entry_point_name(bytes: &Vec<u8>) -> (r: Option<String>)
    ensures
        r is Some <==> valid_utf8(bytes@),
        r matches Some(s) ==> encode_utf8(s@) == bytes@,
{
    match str_from_utf8(bytes.as_slice()) {
        Some(name) => Some(name.to_owned()),
        None => None,
    }
}

/// The entry point name, input and address a call reads from guest memory; `None` when one
/// of them lies out of bounds.
pub open spec fn call_args<C: HostState>(
    c: C,
    address_ptr: u32,
    address_len: u32,
    entry_point_ptr: u32,
    entry_point_len: u32,
    input_ptr: u32,
    input_len: u32,
) -> Option<([u8; 32], Seq<u8>, Seq<u8>)> {
    let mem = c.spec_memory();
    if mem_in_bounds(mem, address_ptr, address_len as int) && mem_in_bounds(
        mem,
        input_ptr,
        input_len as int,
    ) && mem_in_bounds(mem, entry_point_ptr, entry_point_len as int) {
        Some(
            (
                array32(mem_slice(mem, address_ptr, address_len as int)),
                mem_slice(mem, entry_point_ptr, entry_point_len as int),
                mem_slice(mem, input_ptr, input_len as int),
            ),
        )
    } else {
        None
    }
}

/// Calls the entry point of the contract at the 32-byte address the guest names, with its
/// input, `value` tokens and the gas left. The callee's output goes where the guest's
/// allocator (or, with none, `cb_ctx`) says; its changes are merged when it succeeded; the
/// gas it spent is charged, and when too little is left for that the call stops with
/// `OutOfGas`. Returns what the call means for the guest, or `NotCallable` when the entry
/// point's name is not UTF-8.
#[verifier::rlimit(30)]
pub fn casper_call<C: Caller>(
    caller: &mut C,
    address_ptr: u32,
    address_len: u32,
    value: u128,
    entry_point_ptr: u32,
    entry_point_len: u32,
    input_ptr: u32,
    input_len: u32,
    cb_alloc: u32,
    cb_ctx: u32,
) -> (r: Result<HostResult, VMError>)
    requires
        mem_in_bounds(old(caller).spec_memory(), address_ptr, address_len as int)
            ==> address_len == 32,
        call_args(
            *old(caller),
            address_ptr,
            address_len,
            entry_point_ptr,
            entry_point_len,
            input_ptr,
            input_len,
        ) matches Some((_, ep, _)) && valid_utf8(ep) ==> old(caller).spec_gas() is Some
            && old(caller).spec_prepares_stored_code(),
    ensures
        same_env(*old(caller), *final(caller)),
        match call_args(
            *old(caller),
            address_ptr,
            address_len,
            entry_point_ptr,
            entry_point_len,
            input_ptr,
            input_len,
        ) {
            None => r is Err && unchanged(*old(caller), *final(caller)),
            Some((address, ep, input)) => if !valid_utf8(ep) {
                r == Ok::<HostResult, VMError>(Err(HostError::NotCallable)) && unchanged(
                    *old(caller),
                    *final(caller),
                )
            } else {
                let g = old(caller).spec_gas()->0;
                let n = old(caller).spec_effects().len() as int;
                let e = final(caller).spec_effects();
                let target = EntityAddr::SmartContract(address);
                &&& e.len() > n
                &&& e.take(n) == old(caller).spec_effects()
                &&& match e[n] {
                    HostEffect::Execute(rq, Ok(res)) => {
                        let tail = merged(res).push(HostEffect::ConsumeGas(spent(res)));
                        &&& request_is(
                            rq,
                            *old(caller),
                            Key::AddressableEntity(target),
                            target,
                            ep,
                            input,
                            value,
                            g,
                        )
                        &&& match res.output {
                            Some(o) => if cb_alloc != 0 {
                                &&& e.len() > n + 1
                                &&& e[n + 1] matches HostEffect::Alloc { cb_alloc: a, size: z, ctx: x, .. }
                                    && a == cb_alloc && z == o.len() && x == cb_ctx
                                &&& match alloc_answer(e[n + 1]) {
                                    Err(err) => r == Err::<HostResult, VMError>(err),
                                    Ok(p) => {
                                        let charged = alloc_gas_of(e[n + 1]) matches Some(g) && spent(res) <= g;
                                        let fits = p == 0 || mem_in_bounds(alloc_memory_of(e[n + 1]), p, o.len() as int);
                                        &&& !fits ==> r is Err
                                        &&& fits && charged ==> r == Ok::<HostResult, VMError>(host_result_of(res))
                                        &&& fits && !charged ==> r == Err::<HostResult, VMError>(VMError::OutOfGas)
                                        &&& r is Ok ==> if p == 0 {
                                            ends_with(e, tail)
                                        } else {
                                            &&& ends_with(e, seq![HostEffect::MemoryWrite { ptr: p, data: o }] + tail)
                                            &&& mem_slice(final(caller).spec_memory(), p, o.len() as int) == o
                                        }
                                    },
                                }
                            } else if cb_ctx == 0 {
                                &&& e.skip(n + 1) == tail
                                &&& r == Ok::<HostResult, VMError>(host_result_of(res))
                                &&& final(caller).spec_memory() == old(caller).spec_memory()
                            } else if mem_in_bounds(old(caller).spec_memory(), cb_ctx, o.len() as int) {
                                &&& e.skip(n + 1) == seq![HostEffect::MemoryWrite { ptr: cb_ctx, data: o }] + tail
                                &&& r == Ok::<HostResult, VMError>(host_result_of(res))
                                &&& final(caller).spec_memory() == mem_update(old(caller).spec_memory(), cb_ctx, o)
                            } else {
                                &&& e.len() == n + 1
                                &&& r is Err
                                &&& final(caller).spec_memory() == old(caller).spec_memory()
                            },
                            None => {
                                &&& e.skip(n + 1) == tail
                                &&& r == Ok::<HostResult, VMError>(host_result_of(res))
                                &&& final(caller).spec_memory() == old(caller).spec_memory()
                            },
                        }
                    },
                    _ => false,
                }
            },
        },
{
    let address = caller.memory_read(address_ptr, address_len as usize)?;
    let address: [u8; 32] = to_array32(&address);
    let input_data = caller.memory_read(input_ptr, input_len as usize)?;
    let entry_point_bytes = caller.memory_read(entry_point_ptr, entry_point_len as usize)?;
    let entry_point = match entry_point_name(&entry_point_bytes) {
        Some(entry_point) => entry_point,
        None => return Ok(Err(HostError::NotCallable)),
    };
    let gas_limit = match caller.gas_consumed() {
        MeteringPoints::Remaining(n) => n,
        MeteringPoints::Exhausted => {
            proof {
                assert(false);
            }
            return Err(VMError::OutOfGas);
        },
    };
    let entity_addr = EntityAddr::new_smart_contract(address);
    let request = ExecuteRequest {
        initiator: caller.initiator(),
        caller_key: caller.callee(),
        callee_key: Key::AddressableEntity(entity_addr),
        gas_limit,
        address: entity_addr,
        entry_point,
        input: input_data,
        value,
        transaction_hash: caller.transaction_hash(),
        chain_name: caller.chain_name(),
    };
    let ghost s1 = *caller;
    let result = execute_stored(caller, &request);
    let ghost v = result@;
    let ghost n = old(caller).spec_effects().len() as int;
    let ExecuteResult { host_error, output, gas_usage, tracking_copy_parts } = result;
    let ghost s2 = *caller;
    proof {
        assert(s1.spec_effects() == old(caller).spec_effects());
        assert(s2.spec_effects().take(n) =~= old(caller).spec_effects());
    }
    let mut out_written = false;
    let ghost mut p_out: u32 = 0;
    if let Some(output) = output {
        let out_ptr: u32 = match output_ptr(caller, cb_alloc, output.len(), cb_ctx) {
            Ok(p) => p,
            Err(err) => {
                proof {
                    assert(caller.spec_effects().take(n + 1) == s2.spec_effects());
                    assert(caller.spec_effects()[n] == caller.spec_effects().take(n + 1)[n]);
                    assert(caller.spec_effects().take(n) =~= caller.spec_effects().take(n + 1).take(n));
                }
                return Err(err);
            },
        };
        let ghost s3 = *caller;
        proof {
            p_out = out_ptr;
            if cb_alloc != 0 {
                assert(alloc_answer(s3.spec_effects()[n + 1]) == Ok::<u32, VMError>(out_ptr));
            }
        }
        if out_ptr != 0 {
            let ghost ws = seq![(out_ptr, output@)];
            proof {
                assert(ws.drop_first().len() == 0);
            }
            let w = write_step(caller, out_ptr, output.as_slice(), Ghost(ws));
            if w.is_err() {
                proof {
                    assert(caller.spec_effects() == s3.spec_effects());
                    if cb_alloc == 0 {
                        assert(caller.spec_effects() == s2.spec_effects());
                    }
                    if cb_alloc != 0 {
                        assert(caller.spec_effects().take(n + 1) == s2.spec_effects());
                        assert(caller.spec_effects()[n] == caller.spec_effects().take(n + 1)[n]);
                        assert(caller.spec_effects().take(n) =~= caller.spec_effects().take(n + 1).take(n));
                    }
                }
                return Err(w.unwrap_err());
            }
            out_written = true;
            proof {
                assert(caller.spec_effects().take(n + 1) =~= s3.spec_effects().take(n + 1));
                lemma_mem_update_slice(s3.spec_memory(), out_ptr, output@);
                if cb_alloc != 0 {
                    assert(caller.spec_effects()[n + 1] == s3.spec_effects()[n + 1]);
                }
            }
        }
    }
    let ghost s4 = *caller;
    proof {
        assert(s4.spec_effects().len() >= n + 1);
        assert(s4.spec_effects().take(n + 1) =~= s2.spec_effects());
    }
    let host_result = match host_error {
        Some(host_error) => Err(host_error),
        None => {
            caller.merge(tracking_copy_parts);
            Ok(())
        },
    };
    let ghost s5 = *caller;
    let gas_spent = gas_usage.gas_spent();
    let charged = caller.consume_gas(gas_spent);
    proof {
        let tail = merged(v).push(HostEffect::ConsumeGas(gas_spent));
        assert(s5.spec_effects() == s4.spec_effects() + merged(v));
        assert(caller.spec_effects() =~= s4.spec_effects() + tail);
        assert(s4.spec_effects().take(n) =~= s4.spec_effects().take(n + 1).take(n));
        assert(caller.spec_effects().take(n) =~= s4.spec_effects().take(n));
        assert(caller.spec_effects().take(n) =~= old(caller).spec_effects());
        assert(caller.spec_effects()[n] == s4.spec_effects().take(n + 1)[n]);
        assert(caller.spec_effects()[n] == s2.spec_effects()[n]);
        assert((s4.spec_effects() + tail).skip(s4.spec_effects().len() as int) =~= tail);
        if v.output is Some && cb_alloc != 0 {
            assert(caller.spec_effects()[n + 1] == s4.spec_effects()[n + 1]);
            if p_out != 0 && out_written {
                let o = v.output->0;
                let w = seq![HostEffect::MemoryWrite { ptr: p_out, data: o }];
                assert(s4.spec_effects().last() == HostEffect::MemoryWrite { ptr: p_out, data: o });
                assert(caller.spec_effects().skip(caller.spec_effects().len() - (w + tail).len()) =~= w + tail);
            }
        }
        if v.output is Some && cb_alloc == 0 && cb_ctx != 0 {
            assert(s4.spec_effects() =~= s2.spec_effects().push(HostEffect::MemoryWrite { ptr: cb_ctx, data: v.output->0 }));
            assert((s2.spec_effects() + (seq![HostEffect::MemoryWrite { ptr: cb_ctx, data: v.output->0 }] + tail)).skip(n + 1) =~= seq![HostEffect::MemoryWrite { ptr: cb_ctx, data: v.output->0 }] + tail);
            assert(caller.spec_effects() =~= s2.spec_effects() + (seq![HostEffect::MemoryWrite { ptr: cb_ctx, data: v.output->0 }] + tail));
        } else if cb_alloc == 0 || v.output is None {
            assert(s4.spec_effects() == s2.spec_effects());
            assert((s2.spec_effects() + tail).skip(n + 1) =~= tail);
        }
    }
    match charged {
        MeteringPoints::Remaining(_) => Ok(host_result),
        MeteringPoints::Exhausted => Err(VMError::OutOfGas),
    }
}

/// The address an effect drew from the address generator.
pub open spec fn drawn_address(e: HostEffect) -> [u8; 32] {
    match e {
        HostEffect::CreateAddress(a) => a,
        _ => arbitrary(),
    }
}

/// What the creation of a contract reads from guest memory before anything changes.
pub enum CreatePlan {
    /// An argument lies out of guest memory.
    OutOfBounds,
    /// The constructor's name is not UTF-8.
    NotCallable,
    /// The contract is created with this code, constructor name (if any) and input.
    Proceed { code: Seq<u8>, ctor: Option<Seq<u8>>, input: Seq<u8> },
}

/// What creating a contract comes to before anything changes: its code is the `code_len`
/// bytes at `code_ptr`, or the running contract's own code when `code_ptr` is null; a null
/// entry point pointer means no constructor, a null input pointer an empty input.
pub open spec fn create_plan<C: HostState>(
    c: C,
    code_ptr: u32,
    code_len: u32,
    entry_point_ptr: u32,
    entry_point_len: u32,
    input_ptr: u32,
    input_len: u32,
) -> CreatePlan {
    let mem = c.spec_memory();
    if code_ptr != 0 && !mem_in_bounds(mem, code_ptr, code_len as int) {
        CreatePlan::OutOfBounds
    } else if entry_point_ptr != 0 && !mem_in_bounds(mem, entry_point_ptr, entry_point_len as int) {
        CreatePlan::OutOfBounds
    } else if entry_point_ptr != 0 && !valid_utf8(
        mem_slice(mem, entry_point_ptr, entry_point_len as int),
    ) {
        CreatePlan::NotCallable
    } else if input_ptr != 0 && !mem_in_bounds(mem, input_ptr, input_len as int) {
        CreatePlan::OutOfBounds
    } else {
        CreatePlan::Proceed {
            code: if code_ptr != 0 {
                mem_slice(mem, code_ptr, code_len as int)
            } else {
                c.spec_bytecode()
            },
            ctor: if entry_point_ptr != 0 {
                Some(mem_slice(mem, entry_point_ptr, entry_point_len as int))
            } else {
                None
            },
            input: if input_ptr != 0 {
                mem_slice(mem, input_ptr, input_len as int)
            } else {
                Seq::empty()
            },
        }
    }
}

/// The effects from index `n` store a new contract with code `code`: two addresses drawn,
/// for its package and for itself; an unlocked package under the first; the code under its
/// BLAKE2b-256 digest; then a purse asked of the mint.
pub open spec fn stores_contract(e: Seq<HostEffect>, n: int, code: Seq<u8>) -> bool {
    let h = array32(blake2b_256(code));
    &&& e.len() >= n + 5
    &&& e[n] is CreateAddress
    &&& e[n + 1] is CreateAddress
    &&& e[n + 2] == HostEffect::Write(
        Key::Package(drawn_address(e[n])),
        StoredValueView::Package(Package { status: PackageStatus::Unlocked }),
    )
    &&& e[n + 3] == HostEffect::Write(
        Key::ByteCode(ByteCodeAddr::V2CasperWasm(h)),
        StoredValueView::ByteCode(ByteCodeKind::V2CasperWasm, code),
    )
    &&& e[n + 4] is MintPurse
}

/// The effect at `n + 5` writes the new contract's entity: its package, its code's digest
/// and its purse, under the second address drawn.
pub open spec fn entity_written(e: Seq<HostEffect>, n: int, code: Seq<u8>, purse: URef) -> bool {
    &&& e.len() >= n + 6
    &&& e[n + 5] == HostEffect::Write(
        Key::AddressableEntity(EntityAddr::SmartContract(drawn_address(e[n + 1]))),
        StoredValueView::AddressableEntity(
            AddressableEntity {
                package_hash: drawn_address(e[n]),
                byte_code_hash: array32(blake2b_256(code)),
                main_purse: purse,
            },
        ),
    )
}

/// The effects end, from index `m`, by telling the guest where the contract was created:
/// a `CreateResult` record at `result_ptr` when it fits in memory.
pub open spec fn result_recorded(
    e: Seq<HostEffect>,
    m: int,
    mem0: Seq<u8>,
    mem1: Seq<u8>,
    result_ptr: u32,
    package: [u8; 32],
    contract: [u8; 32],
    r: Result<HostResult, VMError>,
) -> bool {
    let bytes = create_result_bytes(
        CreateResult { package_address: package, contract_address: contract, version: 1 },
    );
    if mem_in_bounds(mem0, result_ptr, bytes.len() as int) {
        &&& e.len() == m + 1
        &&& e[m] == (HostEffect::MemoryWrite { ptr: result_ptr, data: bytes })
        &&& mem1 == mem_update(mem0, result_ptr, bytes)
        &&& r == Ok::<HostResult, VMError>(Ok(()))
    } else {
        &&& e.len() == m
        &&& mem1 == mem0
        &&& r is Err
    }
}

/// Creates a contract: stores a new unlocked package, the code and an entity with a new
/// empty purse, runs the constructor if one is named (with the input, `value` tokens and
/// the gas left) and merges its changes, then writes a `CreateResult` at `result_ptr`. The
/// guest is told `NotCallable` when the constructor's name is not UTF-8, that the callee
/// trapped when no purse could be created, and the constructor's failure when it failed.
#[verifier::rlimit(40)]
pub fn casper_create<C: Caller>(
    caller: &mut C,
    code_ptr: u32,
    code_len: u32,
    value: u128,
    entry_point_ptr: u32,
    entry_point_len: u32,
    input_ptr: u32,
    input_len: u32,
    result_ptr: u32,
) -> (r: Result<HostResult, VMError>)
    requires
        create_plan(
            *old(caller),
            code_ptr,
            code_len,
            entry_point_ptr,
            entry_point_len,
            input_ptr,
            input_len,
        ) matches CreatePlan::Proceed { ctor: Some(_), .. } ==> old(caller).spec_gas() is Some
            && old(caller).spec_prepares_stored_code(),
    ensures
        same_env(*old(caller), *final(caller)),
        match create_plan(
            *old(caller),
            code_ptr,
            code_len,
            entry_point_ptr,
            entry_point_len,
            input_ptr,
            input_len,
        ) {
            CreatePlan::OutOfBounds => r is Err && unchanged(*old(caller), *final(caller)),
            CreatePlan::NotCallable => r == Ok::<HostResult, VMError>(Err(HostError::NotCallable))
                && unchanged(*old(caller), *final(caller)),
            CreatePlan::Proceed { code, ctor, input } => {
                let n = old(caller).spec_effects().len() as int;
                let e = final(caller).spec_effects();
                let mem0 = old(caller).spec_memory();
                let mem1 = final(caller).spec_memory();
                let p = drawn_address(e[n]);
                let c = drawn_address(e[n + 1]);
                let target = EntityAddr::SmartContract(c);
                &&& e.take(n) == old(caller).spec_effects()
                &&& stores_contract(e, n, code)
                &&& match e[n + 4] {
                    HostEffect::MintPurse(Err(_)) => e.len() == n + 5 && mem1 == mem0 && r == Ok::<
                        HostResult,
                        VMError,
                    >(Err(HostError::CalleeTrapped(TrapCode::UnreachableCodeReached))),
                    HostEffect::MintPurse(Ok(purse)) => entity_written(e, n, code, purse) && match ctor {
                        None => result_recorded(e, n + 6, mem0, mem1, result_ptr, p, c, r),
                        Some(ep) => e.len() > n + 7 && match e[n + 6] {
                            HostEffect::Execute(rq, Ok(res)) => {
                                &&& request_is(
                                    rq,
                                    *old(caller),
                                    Key::AddressableEntity(target),
                                    target,
                                    ep,
                                    input,
                                    value,
                                    old(caller).spec_gas()->0,
                                )
                                &&& e[n + 7] == HostEffect::ConsumeGas(spent(res))
                                &&& match res.host_error {
                                    Some(he) => e.len() == n + 8 && mem1 == mem0 && r == Ok::<
                                        HostResult,
                                        VMError,
                                    >(Err(he)),
                                    None => e.len() > n + 8 && e[n + 8] == HostEffect::Merge(
                                        res.writes,
                                    ) && result_recorded(e, n + 9, mem0, mem1, result_ptr, p, c, r),
                                }
                            },
                            _ => false,
                        },
                    },
                    _ => false,
                }
            },
        },
{
    let code: Vec<u8> = if code_ptr != 0 {
        caller.memory_read(code_ptr, code_len as usize)?
    } else {
        caller.bytecode()
    };
    let constructor_entry_point: Option<String> = if entry_point_ptr != 0 {
        let entry_point_bytes = caller.memory_read(entry_point_ptr, entry_point_len as usize)?;
        match entry_point_name(&entry_point_bytes) {
            Some(entry_point) => Some(entry_point),
            None => return Ok(Err(HostError::NotCallable)),
        }
    } else {
        None
    };
    let input_data: Option<Vec<u8>> = if input_ptr == 0 {
        None
    } else {
        Some(caller.memory_read(input_ptr, input_len as usize)?)
    };
    let ghost s0 = *caller;
    let ghost n = s0.spec_effects().len() as int;
    let contract_package = Package { status: PackageStatus::Unlocked };
    let bytecode_hash = compute_blake2b256(code.as_slice());
    proof {
        lemma_array32(bytecode_hash, blake2b_256(code@));
    }
    let package_hash_bytes = caller.create_address();
    let contract_hash = caller.create_address();
    caller.write(Key::Package(package_hash_bytes), StoredValue::Package(contract_package));
    let ghost code_view = code@;
    let bytecode = ByteCode { kind: ByteCodeKind::V2CasperWasm, bytes: code };
    caller.write(
        Key::ByteCode(ByteCodeAddr::V2CasperWasm(bytecode_hash)),
        StoredValue::ByteCode(bytecode),
    );
    let entity_addr = EntityAddr::SmartContract(contract_hash);
    let addressable_entity_key = Key::AddressableEntity(entity_addr);
    let ghost s1 = *caller;
    let minted = caller.mint_purse();
    proof {
        assert(caller.spec_effects().take(n) =~= s0.spec_effects());
        assert(stores_contract(caller.spec_effects(), n, code_view));
    }
    let main_purse = match minted {
        Ok(uref) => uref,
        Err(_) => return Ok(Err(HostError::CalleeTrapped(TrapCode::UnreachableCodeReached))),
    };
    let addressable_entity = AddressableEntity {
        package_hash: package_hash_bytes,
        byte_code_hash: bytecode_hash,
        main_purse,
    };
    caller.write(addressable_entity_key, StoredValue::AddressableEntity(addressable_entity));
    let ghost s2 = *caller;
    proof {
        assert(s2.spec_effects().take(n) =~= s0.spec_effects());
        assert(stores_contract(s2.spec_effects(), n, code_view)) by {
            assert(s2.spec_effects().take(n + 5) =~= caller.spec_effects().take(n + 5));
        }
        assert(entity_written(s2.spec_effects(), n, code_view, main_purse));
    }
    if let Some(entry_point_name) = constructor_entry_point {
        let gas_limit = match caller.gas_consumed() {
            MeteringPoints::Remaining(g) => g,
            MeteringPoints::Exhausted => {
                proof {
                    assert(false);
                }
                return Err(VMError::OutOfGas);
            },
        };
        let input = match input_data {
            Some(input) => input,
            None => Vec::new(),
        };
        let request = ExecuteRequest {
            initiator: caller.initiator(),
            caller_key: caller.callee(),
            callee_key: addressable_entity_key,
            gas_limit,
            address: entity_addr,
            entry_point: entry_point_name,
            input,
            value,
            transaction_hash: caller.transaction_hash(),
            chain_name: caller.chain_name(),
        };
        let result = execute_stored(caller, &request);
        let ghost v = result@;
        let ExecuteResult { host_error, output: _, gas_usage, tracking_copy_parts } = result;
        caller.consume_gas(gas_usage.gas_spent());
        let ghost s3 = *caller;
        proof {
            assert(s3.spec_effects() =~= s2.spec_effects().push(HostEffect::Execute(request@, Ok(v))).push(HostEffect::ConsumeGas(spent(v))));
            assert(s3.spec_effects().take(n) =~= s0.spec_effects());
            assert(s3.spec_effects().take(n + 6) =~= s2.spec_effects());
            assert(stores_contract(s3.spec_effects(), n, code_view)) by {
                assert(s3.spec_effects()[n] == s2.spec_effects()[n]);
                assert(s3.spec_effects()[n + 1] == s2.spec_effects()[n + 1]);
                assert(s3.spec_effects()[n + 2] == s2.spec_effects()[n + 2]);
                assert(s3.spec_effects()[n + 3] == s2.spec_effects()[n + 3]);
                assert(s3.spec_effects()[n + 4] == s2.spec_effects()[n + 4]);
            }
            assert(s3.spec_effects()[n + 5] == s2.spec_effects()[n + 5]);
        }
        if let Some(host_error) = host_error {
            return Ok(Err(host_error));
        }
        caller.merge(tracking_copy_parts);
    }
    let ghost s4 = *caller;
    let create_result = CreateResult {
        package_address: package_hash_bytes,
        contract_address: contract_hash,
        version: 1,
    };
    let bytes = create_result.to_bytes();
    let w = caller.memory_write(result_ptr, bytes.as_slice());
    proof {
        let m = s4.spec_effects().len() as int;
        assert(caller.spec_effects().take(m) =~= s4.spec_effects());
        assert(caller.spec_effects().take(n) =~= s0.spec_effects());
        assert(caller.spec_effects()[n] == s4.spec_effects()[n]);
        assert(caller.spec_effects()[n + 1] == s4.spec_effects()[n + 1]);
        assert(caller.spec_effects()[n + 2] == s4.spec_effects()[n + 2]);
        assert(caller.spec_effects()[n + 3] == s4.spec_effects()[n + 3]);
        assert(caller.spec_effects()[n + 4] == s4.spec_effects()[n + 4]);
        assert(caller.spec_effects()[n + 5] == s4.spec_effects()[n + 5]);
        if m > n + 6 {
            assert(caller.spec_effects()[n + 6] == s4.spec_effects()[n + 6]);
            assert(caller.spec_effects()[n + 7] == s4.spec_effects()[n + 7]);
            assert(caller.spec_effects()[n + 8] == s4.spec_effects()[n + 8]);
        }
    }
    match w {
        Ok(()) => Ok(Ok(())),
        Err(e) => Err(e),
    }
}

/// What upgrading the running contract comes to before anything changes.
pub enum UpgradePlan {
    /// An argument lies out of guest memory.
    OutOfBounds,
    /// The guest is told the upgrade is not possible.
    NotCallable,
    /// The node would stop.
    Stops,
    /// The code is replaced, then the upgrade entry point (if named) runs with the input.
    Proceed { code: Seq<u8>, ep: Option<Seq<u8>>, input: Seq<u8>, entity: AddressableEntity },
}

/// What upgrading the running contract to the `code_size` bytes at `code_ptr` comes to:
/// accounts cannot be upgraded, and a contract must have its entity stored.
pub open spec fn upgrade_plan<C: HostState>(
    c: C,
    code_ptr: u32,
    code_size: u32,
    entry_point_ptr: u32,
    entry_point_size: u32,
    input_ptr: u32,
    input_size: u32,
) -> UpgradePlan {
    let mem = c.spec_memory();
    if !mem_in_bounds(mem, code_ptr, code_size as int) {
        UpgradePlan::OutOfBounds
    } else if entry_point_ptr != 0 && !mem_in_bounds(mem, entry_point_ptr, entry_point_size as int) {
        UpgradePlan::OutOfBounds
    } else if entry_point_ptr != 0 && !valid_utf8(
        mem_slice(mem, entry_point_ptr, entry_point_size as int),
    ) {
        UpgradePlan::NotCallable
    } else if input_ptr != 0 && !mem_in_bounds(mem, input_ptr, input_size as int) {
        UpgradePlan::OutOfBounds
    } else {
        match c.spec_callee() {
            Key::Account(_) => UpgradePlan::NotCallable,
            Key::AddressableEntity(_) => match c.spec_read(c.spec_callee()) {
                Ok(Some(StoredValueView::AddressableEntity(entity))) => UpgradePlan::Proceed {
                    code: mem_slice(mem, code_ptr, code_size as int),
                    ep: if entry_point_ptr != 0 {
                        Some(mem_slice(mem, entry_point_ptr, entry_point_size as int))
                    } else {
                        None
                    },
                    input: if input_ptr != 0 {
                        mem_slice(mem, input_ptr, input_size as int)
                    } else {
                        Seq::empty()
                    },
                    entity,
                },
                Ok(None) => UpgradePlan::NotCallable,
                _ => UpgradePlan::Stops,
            },
            _ => UpgradePlan::Stops,
        }
    }
}

/// Upgrades the running contract: replaces the code stored under its entity's code digest,
/// then runs the upgrade entry point, if one is named, with the input, no tokens and the gas
/// left, merging its changes when it succeeds. The guest is told `NotCallable` when the entry
/// point's name is not UTF-8, the running entity is an account or is not found, or the new
/// code cannot be prepared; and the entry point's failure when it failed.
#[verifier::rlimit(30)]
pub fn casper_upgrade<C: Caller>(
    caller: &mut C,
    code_ptr: u32,
    code_size: u32,
    entry_point_ptr: u32,
    entry_point_size: u32,
    input_ptr: u32,
    input_size: u32,
) -> (r: Result<HostResult, VMError>)
    requires
        !(upgrade_plan(
            *old(caller),
            code_ptr,
            code_size,
            entry_point_ptr,
            entry_point_size,
            input_ptr,
            input_size,
        ) is Stops),
        upgrade_plan(
            *old(caller),
            code_ptr,
            code_size,
            entry_point_ptr,
            entry_point_size,
            input_ptr,
            input_size,
        ) matches UpgradePlan::Proceed { ep: Some(_), .. } ==> old(caller).spec_gas() is Some,
    ensures
        same_env(*old(caller), *final(caller)),
        final(caller).spec_memory() == old(caller).spec_memory(),
        match upgrade_plan(
            *old(caller),
            code_ptr,
            code_size,
            entry_point_ptr,
            entry_point_size,
            input_ptr,
            input_size,
        ) {
            UpgradePlan::OutOfBounds => r is Err && unchanged(*old(caller), *final(caller)),
            UpgradePlan::NotCallable => r == Ok::<HostResult, VMError>(Err(HostError::NotCallable))
                && unchanged(*old(caller), *final(caller)),
            UpgradePlan::Proceed { code, ep, input, entity } => {
                let n = old(caller).spec_effects().len() as int;
                let e = final(caller).spec_effects();
                let callee = old(caller).spec_callee();
                &&& e.len() > n
                &&& e.take(n) == old(caller).spec_effects()
                &&& e[n] == HostEffect::Write(
                    Key::ByteCode(ByteCodeAddr::V2CasperWasm(entity.byte_code_hash)),
                    StoredValueView::ByteCode(ByteCodeKind::V2CasperWasm, code),
                )
                &&& match ep {
                    None => e.len() == n + 1 && r == Ok::<HostResult, VMError>(Ok(())),
                    Some(ep) => e.len() > n + 1 && match e[n + 1] {
                        HostEffect::Execute(rq, Ok(res)) => {
                            &&& request_is(
                                rq,
                                *old(caller),
                                callee,
                                key_entity_addr(callee)->0,
                                ep,
                                input,
                                0,
                                old(caller).spec_gas()->0,
                            )
                            &&& e.skip(n + 2) == seq![HostEffect::ConsumeGas(spent(res))] + merged(res)
                            &&& r == Ok::<HostResult, VMError>(host_result_of(res))
                        },
                        HostEffect::Execute(rq, Err(_)) => {
                            &&& request_is(
                                rq,
                                *old(caller),
                                callee,
                                key_entity_addr(callee)->0,
                                ep,
                                input,
                                0,
                                old(caller).spec_gas()->0,
                            )
                            &&& e.len() == n + 2
                            &&& r == Ok::<HostResult, VMError>(Err(HostError::NotCallable))
                        },
                        _ => false,
                    },
                }
            },
            UpgradePlan::Stops => false,
        },
{
    let code = caller.memory_read(code_ptr, code_size as usize)?;
    let entry_point: Option<String> = if entry_point_ptr != 0 {
        let entry_point_bytes = caller.memory_read(entry_point_ptr, entry_point_size as usize)?;
        match entry_point_name(&entry_point_bytes) {
            Some(entry_point) => Some(entry_point),
            None => return Ok(Err(HostError::NotCallable)),
        }
    } else {
        None
    };
    let input_data: Option<Vec<u8>> = if input_ptr == 0 {
        None
    } else {
        Some(caller.memory_read(input_ptr, input_size as usize)?)
    };
    let callee_addressable_entity_key = match caller.callee() {
        Key::Account(_account_hash) => return Ok(Err(HostError::NotCallable)),
        Key::AddressableEntity(entity_addr) => Key::AddressableEntity(entity_addr),
        _ => {
            proof {
                assert(false);
            }
            return Ok(Err(HostError::NotCallable));
        },
    };
    let callee_addressable_entity = match caller.read(&callee_addressable_entity_key) {
        Ok(Some(StoredValue::AddressableEntity(addressable_entity))) => addressable_entity,
        Ok(None) => return Ok(Err(HostError::NotCallable)),
        _ => {
            proof {
                assert(false);
            }
            return Ok(Err(HostError::NotCallable));
        },
    };
    let ghost s0 = *caller;
    let ghost n = s0.spec_effects().len() as int;
    let bytecode_key = Key::ByteCode(
        ByteCodeAddr::V2CasperWasm(callee_addressable_entity.byte_code_hash),
    );
    caller.write(
        bytecode_key,
        StoredValue::ByteCode(ByteCode { kind: ByteCodeKind::V2CasperWasm, bytes: code }),
    );
    let ghost s1 = *caller;
    if let Some(entry_point_name) = entry_point {
        let gas_limit = match caller.gas_consumed() {
            MeteringPoints::Remaining(g) => g,
            MeteringPoints::Exhausted => {
                proof {
                    assert(false);
                }
                return Err(VMError::OutOfGas);
            },
        };
        let entity_addr = match callee_addressable_entity_key.into_entity_addr() {
            Some(ea) => ea,
            None => {
                proof {
                    assert(false);
                }
                return Ok(Err(HostError::NotCallable));
            },
        };
        let input = match input_data {
            Some(input) => input,
            None => Vec::new(),
        };
        let request = ExecuteRequest {
            initiator: caller.initiator(),
            caller_key: caller.callee(),
            callee_key: callee_addressable_entity_key,
            gas_limit,
            address: entity_addr,
            entry_point: entry_point_name,
            input,
            value: 0,
            transaction_hash: caller.transaction_hash(),
            chain_name: caller.chain_name(),
        };
        match caller.execute(&request) {
            Ok(result) => {
                let ghost v = result@;
                let ExecuteResult { host_error, output: _, gas_usage, tracking_copy_parts } = result;
                caller.consume_gas(gas_usage.gas_spent());
                let ghost s2 = *caller;
                if let Some(host_error) = host_error {
                    proof {
                        assert(caller.spec_effects().take(n) =~= s0.spec_effects());
                        assert(caller.spec_effects().skip(n + 2) =~= seq![HostEffect::ConsumeGas(spent(v))] + merged(v));
                    }
                    return Ok(Err(host_error));
                }
                caller.merge(tracking_copy_parts);
                proof {
                    assert(caller.spec_effects().take(n) =~= s0.spec_effects());
                    assert(caller.spec_effects().skip(n + 2) =~= seq![HostEffect::ConsumeGas(spent(v))] + merged(v));
                }
            },
            Err(_) => {
                proof {
                    assert(caller.spec_effects().take(n) =~= s0.spec_effects());
                }
                return Ok(Err(HostError::NotCallable));
            },
        }
    } else {
        proof {
            assert(caller.spec_effects().take(n) =~= s0.spec_effects());
        }
    }
    Ok(Ok(()))
}

} // verus!
