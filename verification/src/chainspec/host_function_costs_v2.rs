//! The cost table of the host functions of the second-generation VM.
use vstd::prelude::*;

use crate::bytesrepr::Error;
use crate::chainspec::host_function::{
    lemma_concat_split, lemma_host_function_bytes_injective, Cost, HostFunction,
};

verus! {

broadcast use vstd::seq_lib::group_seq_properties;

/// An identifier that represents an unused argument.
pub const NOT_USED: Cost = 0;

/// An arbitrary default fixed cost for host functions that were not researched yet.
pub const DEFAULT_FIXED_COST: Cost = 200;

pub const DEFAULT_CALL_COST: u32 = 300_000_000;

pub const DEFAULT_ENV_TRANSFERRED_VALUE_COST: u32 = 2_500_000_000;

pub const DEFAULT_ENV_BALANCE_COST: u32 = 3_000_000;

pub const DEFAULT_ENV_BLOCK_TIME_COST: u32 = 330;

pub const DEFAULT_GET_CALLER_COST: u32 = 380;

pub const DEFAULT_NEW_UREF_COST: u32 = 17_000;

pub const DEFAULT_PRINT_COST: u32 = 20_000;

pub const DEFAULT_PRINT_TEXT_SIZE_WEIGHT: u32 = 4_600;

pub const DEFAULT_READ_VALUE_COST: u32 = 60_000;

pub const DEFAULT_RET_COST: u32 = 23_000;

pub const DEFAULT_RET_VALUE_SIZE_WEIGHT: u32 = 420_000;

pub const DEFAULT_TRANSFER_COST: u32 = 2_500_000_000;

pub const DEFAULT_WRITE_COST: u32 = 14_000;

pub const DEFAULT_WRITE_VALUE_SIZE_WEIGHT: u32 = 980;

pub const DEFAULT_ARG_CHARGE: u32 = 120_000;

pub const DEFAULT_COPY_INPUT_COST: u32 = 0;

pub const DEFAULT_COPY_INPUT_VALUE_SIZE_WEIGHT: u32 = 0;

pub const DEFAULT_CREATE_COST: u32 = 0;

pub const DEFAULT_CREATE_CODE_SIZE_WEIGHT: u32 = 0;

pub const DEFAULT_CREATE_ENTRYPOINT_SIZE_WEIGHT: u32 = 0;

pub const DEFAULT_CREATE_INPUT_SIZE_WEIGHT: u32 = 0;

pub const DEFAULT_CREATE_SEED_SIZE_WEIGHT: u32 = 0;

/// Default cost for a new dictionary.
pub const DEFAULT_NEW_DICTIONARY_COST: u32 = DEFAULT_NEW_UREF_COST;

/// Number of bytes of the encoding of a cost table.
pub const HOST_FUNCTION_COSTS_V2_SERIALIZED_LENGTH: usize = 264;

/// Definition of a host function cost table.
#[derive(Debug, Clone, Copy, PartialEq, Eq)]
pub struct HostFunctionCostsV2 {
    /// Cost of calling the `read` host function.
    pub read: HostFunction<6>,
    /// Cost of calling the `write` host function.
    pub write: HostFunction<5>,
    /// Cost of calling the `copy_input` host function.
    pub copy_input: HostFunction<2>,
    /// Cost of calling the `ret` host function.
    pub ret: HostFunction<2>,
    /// Cost of calling the `create` host function.
    pub create: HostFunction<10>,
    /// Cost of calling the `env_caller` host function.
    pub env_caller: HostFunction<3>,
    /// Cost of calling the `env_block_time` host function.
    pub env_block_time: HostFunction<0>,
    /// Cost of calling the `env_transferred_value` host function.
    pub env_transferred_value: HostFunction<1>,
    /// Cost of calling the `transfer` host function.
    pub transfer: HostFunction<3>,
    /// Cost of calling the `env_balance` host function.
    pub env_balance: HostFunction<4>,
    /// Cost of calling the `upgrade` host function.
    pub upgrade: HostFunction<6>,
    /// Cost of calling the `call` host function.
    pub call: HostFunction<9>,
    /// Cost of calling the `print` host function.
    pub print: HostFunction<2>,
}

/// A host function costs nothing: its cost and every argument cost are zero.
pub open spec fn host_function_is_zero<const N: usize>(h: HostFunction<N>) -> bool {
    h.spec_cost() == 0 && forall|i: int| 0 <= i < N ==> #[trigger] h.spec_arguments()[i] == 0
}

/// A host function has the given cost and argument costs.
pub open spec fn host_function_is<const N: usize>(
    h: HostFunction<N>,
    cost: u32,
    arguments: Seq<u32>,
) -> bool {
    h.spec_cost() == cost && h.spec_arguments() == arguments
}

/// `s` split at `a` and then at `b` is `s` split at `a + b`.
proof fn lemma_take_skip(s: Seq<u8>, a: int, b: int)
    requires
        0 <= a,
        0 <= b,
        a + b <= s.len(),
    ensures
        s.take(a) + s.skip(a).take(b) == s.take(a + b),
        s.skip(a).skip(b) == s.skip(a + b),
{
    assert(s.take(a) + s.skip(a).take(b) =~= s.take(a + b));
    assert(s.skip(a).skip(b) =~= s.skip(a + b));
}

impl HostFunctionCostsV2 {
    /// The cost table's bytes on the wire: each host function in field order.
    pub open spec fn spec_bytes(&self) -> Seq<u8> {
        self.read.spec_bytes() + self.write.spec_bytes() + self.copy_input.spec_bytes()
            + self.ret.spec_bytes() + self.create.spec_bytes() + self.env_caller.spec_bytes()
            + self.env_block_time.spec_bytes() + self.env_transferred_value.spec_bytes()
            + self.transfer.spec_bytes() + self.env_balance.spec_bytes()
            + self.upgrade.spec_bytes() + self.call.spec_bytes() + self.print.spec_bytes()
    }

    /// Every host function in the table costs nothing.
    pub open spec fn spec_is_zero(&self) -> bool {
        &&& host_function_is_zero(self.read)
        &&& host_function_is_zero(self.write)
        &&& host_function_is_zero(self.copy_input)
        &&& host_function_is_zero(self.ret)
        &&& host_function_is_zero(self.create)
        &&& host_function_is_zero(self.env_caller)
        &&& host_function_is_zero(self.env_block_time)
        &&& host_function_is_zero(self.env_transferred_value)
        &&& host_function_is_zero(self.transfer)
        &&& host_function_is_zero(self.env_balance)
        &&& host_function_is_zero(self.upgrade)
        &&& host_function_is_zero(self.call)
        &&& host_function_is_zero(self.print)
    }

    /// The table of the default costs.
    pub open spec fn spec_is_default(&self) -> bool {
        &&& host_function_is(
            self.read,
            DEFAULT_READ_VALUE_COST,
            seq![NOT_USED, DEFAULT_ARG_CHARGE, NOT_USED, NOT_USED, NOT_USED, NOT_USED],
        )
        &&& host_function_is(
            self.write,
            DEFAULT_WRITE_COST,
            seq![NOT_USED, NOT_USED, NOT_USED, DEFAULT_WRITE_VALUE_SIZE_WEIGHT, NOT_USED],
        )
        &&& host_function_is(
            self.copy_input,
            DEFAULT_COPY_INPUT_COST,
            seq![NOT_USED, DEFAULT_COPY_INPUT_VALUE_SIZE_WEIGHT],
        )
        &&& host_function_is(
            self.ret,
            DEFAULT_RET_COST,
            seq![NOT_USED, DEFAULT_RET_VALUE_SIZE_WEIGHT],
        )
        &&& host_function_is(
            self.create,
            DEFAULT_CREATE_COST,
            seq![
                NOT_USED,
                DEFAULT_CREATE_CODE_SIZE_WEIGHT,
                NOT_USED,
                NOT_USED,
                DEFAULT_CREATE_ENTRYPOINT_SIZE_WEIGHT,
                NOT_USED,
                DEFAULT_CREATE_INPUT_SIZE_WEIGHT,
                NOT_USED,
                DEFAULT_CREATE_SEED_SIZE_WEIGHT,
                NOT_USED,
            ],
        )
        &&& host_function_is(
            self.env_caller,
            DEFAULT_GET_CALLER_COST,
            seq![NOT_USED, NOT_USED, NOT_USED],
        )
        &&& host_function_is(self.env_balance, DEFAULT_ENV_BALANCE_COST, seq![0u32, 0, 0, 0])
        &&& host_function_is(self.env_block_time, DEFAULT_ENV_BLOCK_TIME_COST, Seq::empty())
        &&& host_function_is(
            self.env_transferred_value,
            DEFAULT_ENV_TRANSFERRED_VALUE_COST,
            seq![0u32],
        )
        &&& host_function_is(
            self.transfer,
            DEFAULT_TRANSFER_COST,
            seq![NOT_USED, NOT_USED, NOT_USED],
        )
        &&& host_function_is(
            self.upgrade,
            DEFAULT_FIXED_COST,
            seq![NOT_USED, NOT_USED, NOT_USED, NOT_USED, NOT_USED, NOT_USED],
        )
        &&& host_function_is(
            self.call,
            DEFAULT_CALL_COST,
            seq![
                NOT_USED,
                NOT_USED,
                NOT_USED,
                NOT_USED,
                NOT_USED,
                NOT_USED,
                NOT_USED,
                NOT_USED,
                NOT_USED,
            ],
        )
        &&& host_function_is(
            self.print,
            DEFAULT_PRINT_COST,
            seq![NOT_USED, DEFAULT_PRINT_TEXT_SIZE_WEIGHT],
        )
    }

    /// The table in which every host function costs nothing.
    pub fn zero() -> (c: Self)
        ensures
            c.spec_is_zero(),
    {
        Self {
            read: HostFunction::zero(),
            write: HostFunction::zero(),
            copy_input: HostFunction::zero(),
            ret: HostFunction::zero(),
            create: HostFunction::zero(),
            env_caller: HostFunction::zero(),
            env_block_time: HostFunction::zero(),
            env_transferred_value: HostFunction::zero(),
            transfer: HostFunction::zero(),
            env_balance: HostFunction::zero(),
            upgrade: HostFunction::zero(),
            call: HostFunction::zero(),
            print: HostFunction::zero(),
        }
    }

    /// Returns true if every host function in the table costs nothing.
    pub fn is_zero(&self) -> (b: bool)
        ensures
            b == self.spec_is_zero(),
    {
        self.read.is_zero() && self.write.is_zero() && self.copy_input.is_zero()
            && self.ret.is_zero() && self.create.is_zero() && self.env_caller.is_zero()
            && self.env_block_time.is_zero() && self.env_transferred_value.is_zero()
            && self.transfer.is_zero() && self.env_balance.is_zero() && self.upgrade.is_zero()
            && self.call.is_zero() && self.print.is_zero()
    }

    /// Number of bytes of the encoding.
    pub fn serialized_length(&self) -> (n: usize)
        ensures
            n == self.spec_bytes().len(),
    {
        proof {
            self.lemma_field_lengths();
        }
        self.read.serialized_length() + self.write.serialized_length()
            + self.copy_input.serialized_length() + self.ret.serialized_length()
            + self.create.serialized_length() + self.env_caller.serialized_length()
            + self.env_block_time.serialized_length()
            + self.env_transferred_value.serialized_length() + self.transfer.serialized_length()
            + self.env_balance.serialized_length() + self.upgrade.serialized_length()
            + self.call.serialized_length() + self.print.serialized_length()
    }

    proof fn lemma_field_lengths(&self)
        ensures
            self.read.spec_bytes().len() == 28,
            self.write.spec_bytes().len() == 24,
            self.copy_input.spec_bytes().len() == 12,
            self.ret.spec_bytes().len() == 12,
            self.create.spec_bytes().len() == 44,
            self.env_caller.spec_bytes().len() == 16,
            self.env_block_time.spec_bytes().len() == 4,
            self.env_transferred_value.spec_bytes().len() == 8,
            self.transfer.spec_bytes().len() == 16,
            self.env_balance.spec_bytes().len() == 20,
            self.upgrade.spec_bytes().len() == 28,
            self.call.spec_bytes().len() == 40,
            self.print.spec_bytes().len() == 12,
            self.spec_bytes().len() == HOST_FUNCTION_COSTS_V2_SERIALIZED_LENGTH,
    {
        self.read.lemma_arguments_len();
        self.write.lemma_arguments_len();
        self.copy_input.lemma_arguments_len();
        self.ret.lemma_arguments_len();
        self.create.lemma_arguments_len();
        self.env_caller.lemma_arguments_len();
        self.env_block_time.lemma_arguments_len();
        self.env_transferred_value.lemma_arguments_len();
        self.transfer.lemma_arguments_len();
        self.env_balance.lemma_arguments_len();
        self.upgrade.lemma_arguments_len();
        self.call.lemma_arguments_len();
        self.print.lemma_arguments_len();
    }

    /// Serializes the cost table.
    pub fn to_bytes(&self) -> (res: Result<Vec<u8>, Error>)
        ensures
            res matches Ok(v) && v@ == self.spec_bytes(),
    {
        let mut ret: Vec<u8> = Vec::new();
        self.read.write_bytes(&mut ret)?;
        self.write.write_bytes(&mut ret)?;
        self.copy_input.write_bytes(&mut ret)?;
        self.ret.write_bytes(&mut ret)?;
        self.create.write_bytes(&mut ret)?;
        self.env_caller.write_bytes(&mut ret)?;
        self.env_block_time.write_bytes(&mut ret)?;
        self.env_transferred_value.write_bytes(&mut ret)?;
        self.transfer.write_bytes(&mut ret)?;
        self.env_balance.write_bytes(&mut ret)?;
        self.upgrade.write_bytes(&mut ret)?;
        self.call.write_bytes(&mut ret)?;
        self.print.write_bytes(&mut ret)?;
        assert(ret@ =~= self.spec_bytes());
        Ok(ret)
    }

    /// Deserializes a cost table from the front of `bytes`: it succeeds exactly when there
    /// are enough bytes, and the table returned is the one whose encoding the consumed
    /// bytes are.
    #[verifier::rlimit(50)]
    pub fn from_bytes(bytes: &[u8]) -> (res: Result<(Self, &[u8]), Error>)
        ensures
            res is Ok <==> bytes@.len() >= HOST_FUNCTION_COSTS_V2_SERIALIZED_LENGTH,
            res is Err ==> res == Err::<(Self, &[u8]), Error>(Error::EarlyEndOfStream),
            res matches Ok((c, rem)) ==> c.spec_bytes() == bytes@.take(
                HOST_FUNCTION_COSTS_V2_SERIALIZED_LENGTH as int,
            ) && rem@ == bytes@.skip(HOST_FUNCTION_COSTS_V2_SERIALIZED_LENGTH as int),
            forall|x: Self|
                #[trigger] x.spec_bytes().is_prefix_of(bytes@)
                    ==> (res matches Ok((c, _)) && c == x),
    {
        proof {
            assert forall|x: Self|
                #[trigger] x.spec_bytes().is_prefix_of(bytes@)
                    implies bytes@.len() >= HOST_FUNCTION_COSTS_V2_SERIALIZED_LENGTH by {
                x.lemma_field_lengths();
            }
        }
        let s = Ghost(bytes@);
        let (read, rem) = HostFunction::<6>::from_bytes(bytes)?;
        let (write, rem) = HostFunction::<5>::from_bytes(rem)?;
        proof { lemma_take_skip(s@, 28, 24) }
        let (copy_input, rem) = HostFunction::<2>::from_bytes(rem)?;
        proof { lemma_take_skip(s@, 52, 12) }
        let (ret, rem) = HostFunction::<2>::from_bytes(rem)?;
        proof { lemma_take_skip(s@, 64, 12) }
        let (create, rem) = HostFunction::<10>::from_bytes(rem)?;
        proof { lemma_take_skip(s@, 76, 44) }
        let (env_caller, rem) = HostFunction::<3>::from_bytes(rem)?;
        proof { lemma_take_skip(s@, 120, 16) }
        let (env_block_time, rem) = HostFunction::<0>::from_bytes(rem)?;
        proof { lemma_take_skip(s@, 136, 4) }
        let (env_transferred_value, rem) = HostFunction::<1>::from_bytes(rem)?;
        proof { lemma_take_skip(s@, 140, 8) }
        let (transfer, rem) = HostFunction::<3>::from_bytes(rem)?;
        proof { lemma_take_skip(s@, 148, 16) }
        let (env_balance, rem) = HostFunction::<4>::from_bytes(rem)?;
        proof { lemma_take_skip(s@, 164, 20) }
        let (upgrade, rem) = HostFunction::<6>::from_bytes(rem)?;
        proof { lemma_take_skip(s@, 184, 28) }
        let (call, rem) = HostFunction::<9>::from_bytes(rem)?;
        proof { lemma_take_skip(s@, 212, 40) }
        let (print, rem) = HostFunction::<2>::from_bytes(rem)?;
        proof { lemma_take_skip(s@, 252, 12) }
        let c = HostFunctionCostsV2 {
            read,
            write,
            copy_input,
            ret,
            create,
            env_caller,
            env_block_time,
            env_transferred_value,
            transfer,
            env_balance,
            upgrade,
            call,
            print,
        };
        proof {
            assert forall|x: Self|
                #[trigger] x.spec_bytes().is_prefix_of(bytes@)
                    implies c == x by {
                x.lemma_field_lengths();
                assert(x.spec_bytes() =~= bytes@.take(HOST_FUNCTION_COSTS_V2_SERIALIZED_LENGTH as int));
                lemma_host_function_costs_v2_bytes_injective(c, x);
            }
        }
        Ok((c, rem))
    }
}

impl Default for HostFunctionCostsV2 {
    fn default() -> (c: Self)
        ensures
            c.spec_is_default(),
    {
        let c = Self {
            read: HostFunction::new(
                DEFAULT_READ_VALUE_COST,
                [NOT_USED, DEFAULT_ARG_CHARGE, NOT_USED, NOT_USED, NOT_USED, NOT_USED],
            ),
            write: HostFunction::new(
                DEFAULT_WRITE_COST,
                [NOT_USED, NOT_USED, NOT_USED, DEFAULT_WRITE_VALUE_SIZE_WEIGHT, NOT_USED],
            ),
            copy_input: HostFunction::new(
                DEFAULT_COPY_INPUT_COST,
                [NOT_USED, DEFAULT_COPY_INPUT_VALUE_SIZE_WEIGHT],
            ),
            ret: HostFunction::new(DEFAULT_RET_COST, [NOT_USED, DEFAULT_RET_VALUE_SIZE_WEIGHT]),
            create: HostFunction::new(
                DEFAULT_CREATE_COST,
                [
                    NOT_USED,
                    DEFAULT_CREATE_CODE_SIZE_WEIGHT,
                    NOT_USED,
                    NOT_USED,
                    DEFAULT_CREATE_ENTRYPOINT_SIZE_WEIGHT,
                    NOT_USED,
                    DEFAULT_CREATE_INPUT_SIZE_WEIGHT,
                    NOT_USED,
                    DEFAULT_CREATE_SEED_SIZE_WEIGHT,
                    NOT_USED,
                ],
            ),
            env_caller: HostFunction::new(DEFAULT_GET_CALLER_COST, [NOT_USED, NOT_USED, NOT_USED]),
            env_balance: HostFunction::fixed(DEFAULT_ENV_BALANCE_COST),
            env_block_time: HostFunction::fixed(DEFAULT_ENV_BLOCK_TIME_COST),
            env_transferred_value: HostFunction::fixed(DEFAULT_ENV_TRANSFERRED_VALUE_COST),
            transfer: HostFunction::new(DEFAULT_TRANSFER_COST, [NOT_USED, NOT_USED, NOT_USED]),
            upgrade: HostFunction::new(
                DEFAULT_FIXED_COST,
                [NOT_USED, NOT_USED, NOT_USED, NOT_USED, NOT_USED, NOT_USED],
            ),
            call: HostFunction::new(
                DEFAULT_CALL_COST,
                [
                    NOT_USED,
                    NOT_USED,
                    NOT_USED,
                    NOT_USED,
                    NOT_USED,
                    NOT_USED,
                    NOT_USED,
                    NOT_USED,
                    NOT_USED,
                ],
            ),
            print: HostFunction::new(DEFAULT_PRINT_COST, [NOT_USED, DEFAULT_PRINT_TEXT_SIZE_WEIGHT]),
        };
        assert(c.read.spec_arguments() =~= seq![NOT_USED, DEFAULT_ARG_CHARGE, NOT_USED, NOT_USED, NOT_USED, NOT_USED]);
        assert(c.write.spec_arguments() =~= seq![NOT_USED, NOT_USED, NOT_USED, DEFAULT_WRITE_VALUE_SIZE_WEIGHT, NOT_USED]);
        assert(c.copy_input.spec_arguments() =~= seq![NOT_USED, DEFAULT_COPY_INPUT_VALUE_SIZE_WEIGHT]);
        assert(c.ret.spec_arguments() =~= seq![NOT_USED, DEFAULT_RET_VALUE_SIZE_WEIGHT]);
        assert(c.create.spec_arguments() =~= seq![
            NOT_USED,
            DEFAULT_CREATE_CODE_SIZE_WEIGHT,
            NOT_USED,
            NOT_USED,
            DEFAULT_CREATE_ENTRYPOINT_SIZE_WEIGHT,
            NOT_USED,
            DEFAULT_CREATE_INPUT_SIZE_WEIGHT,
            NOT_USED,
            DEFAULT_CREATE_SEED_SIZE_WEIGHT,
            NOT_USED,
        ]);
        assert(c.env_caller.spec_arguments() =~= seq![NOT_USED, NOT_USED, NOT_USED]);
        assert(c.env_balance.spec_arguments() =~= seq![0u32, 0, 0, 0]);
        assert(c.env_block_time.spec_arguments() =~= Seq::<u32>::empty());
        assert(c.env_transferred_value.spec_arguments() =~= seq![0u32]);
        assert(c.transfer.spec_arguments() =~= seq![NOT_USED, NOT_USED, NOT_USED]);
        assert(c.upgrade.spec_arguments() =~= seq![NOT_USED, NOT_USED, NOT_USED, NOT_USED, NOT_USED, NOT_USED]);
        assert(c.call.spec_arguments() =~= seq![
            NOT_USED,
            NOT_USED,
            NOT_USED,
            NOT_USED,
            NOT_USED,
            NOT_USED,
            NOT_USED,
            NOT_USED,
            NOT_USED,
        ]);
        assert(c.print.spec_arguments() =~= seq![NOT_USED, DEFAULT_PRINT_TEXT_SIZE_WEIGHT]);
        c
    }
}

/// Two cost tables with the same encoding are the same table, so decoding an encoded
/// table gives it back.
pub proof fn lemma_host_function_costs_v2_bytes_injective(a: HostFunctionCostsV2, b: HostFunctionCostsV2)
    requires
        a.spec_bytes() == b.spec_bytes(),
    ensures
        a == b,
{
    a.lemma_field_lengths();
    b.lemma_field_lengths();
    let a11 = a.read.spec_bytes() + a.write.spec_bytes() + a.copy_input.spec_bytes()
        + a.ret.spec_bytes() + a.create.spec_bytes() + a.env_caller.spec_bytes()
        + a.env_block_time.spec_bytes() + a.env_transferred_value.spec_bytes()
        + a.transfer.spec_bytes() + a.env_balance.spec_bytes() + a.upgrade.spec_bytes()
        + a.call.spec_bytes();
    let b11 = b.read.spec_bytes() + b.write.spec_bytes() + b.copy_input.spec_bytes()
        + b.ret.spec_bytes() + b.create.spec_bytes() + b.env_caller.spec_bytes()
        + b.env_block_time.spec_bytes() + b.env_transferred_value.spec_bytes()
        + b.transfer.spec_bytes() + b.env_balance.spec_bytes() + b.upgrade.spec_bytes()
        + b.call.spec_bytes();
    lemma_concat_split(a11, a.print.spec_bytes(), b11, b.print.spec_bytes());
    let a10 = a11.take(212);
    let b10 = b11.take(212);
    assert(a11 =~= a10 + a.call.spec_bytes());
    assert(b11 =~= b10 + b.call.spec_bytes());
    lemma_concat_split(a10, a.call.spec_bytes(), b10, b.call.spec_bytes());
    let a9 = a10.take(184);
    let b9 = b10.take(184);
    assert(a10 =~= a9 + a.upgrade.spec_bytes());
    assert(b10 =~= b9 + b.upgrade.spec_bytes());
    lemma_concat_split(a9, a.upgrade.spec_bytes(), b9, b.upgrade.spec_bytes());
    let a8 = a9.take(164);
    let b8 = b9.take(164);
    assert(a9 =~= a8 + a.env_balance.spec_bytes());
    assert(b9 =~= b8 + b.env_balance.spec_bytes());
    lemma_concat_split(a8, a.env_balance.spec_bytes(), b8, b.env_balance.spec_bytes());
    let a7 = a8.take(148);
    let b7 = b8.take(148);
    assert(a8 =~= a7 + a.transfer.spec_bytes());
    assert(b8 =~= b7 + b.transfer.spec_bytes());
    lemma_concat_split(a7, a.transfer.spec_bytes(), b7, b.transfer.spec_bytes());
    let a6 = a7.take(140);
    let b6 = b7.take(140);
    assert(a7 =~= a6 + a.env_transferred_value.spec_bytes());
    assert(b7 =~= b6 + b.env_transferred_value.spec_bytes());
    lemma_concat_split(
        a6,
        a.env_transferred_value.spec_bytes(),
        b6,
        b.env_transferred_value.spec_bytes(),
    );
    let a5 = a6.take(136);
    let b5 = b6.take(136);
    assert(a6 =~= a5 + a.env_block_time.spec_bytes());
    assert(b6 =~= b5 + b.env_block_time.spec_bytes());
    lemma_concat_split(a5, a.env_block_time.spec_bytes(), b5, b.env_block_time.spec_bytes());
    let a4 = a5.take(120);
    let b4 = b5.take(120);
    assert(a5 =~= a4 + a.env_caller.spec_bytes());
    assert(b5 =~= b4 + b.env_caller.spec_bytes());
    lemma_concat_split(a4, a.env_caller.spec_bytes(), b4, b.env_caller.spec_bytes());
    let a3 = a4.take(76);
    let b3 = b4.take(76);
    assert(a4 =~= a3 + a.create.spec_bytes());
    assert(b4 =~= b3 + b.create.spec_bytes());
    lemma_concat_split(a3, a.create.spec_bytes(), b3, b.create.spec_bytes());
    let a2 = a3.take(64);
    let b2 = b3.take(64);
    assert(a3 =~= a2 + a.ret.spec_bytes());
    assert(b3 =~= b2 + b.ret.spec_bytes());
    lemma_concat_split(a2, a.ret.spec_bytes(), b2, b.ret.spec_bytes());
    let a1 = a2.take(52);
    let b1 = b2.take(52);
    assert(a2 =~= a1 + a.copy_input.spec_bytes());
    assert(b2 =~= b1 + b.copy_input.spec_bytes());
    lemma_concat_split(a1, a.copy_input.spec_bytes(), b1, b.copy_input.spec_bytes());
    assert(a1 =~= a.read.spec_bytes() + a.write.spec_bytes());
    assert(b1 =~= b.read.spec_bytes() + b.write.spec_bytes());
    lemma_concat_split(a.read.spec_bytes(), a.write.spec_bytes(), b.read.spec_bytes(), b.write.spec_bytes());
    lemma_host_function_bytes_injective(a.read, b.read);
    lemma_host_function_bytes_injective(a.write, b.write);
    lemma_host_function_bytes_injective(a.copy_input, b.copy_input);
    lemma_host_function_bytes_injective(a.ret, b.ret);
    lemma_host_function_bytes_injective(a.create, b.create);
    lemma_host_function_bytes_injective(a.env_caller, b.env_caller);
    lemma_host_function_bytes_injective(a.env_block_time, b.env_block_time);
    lemma_host_function_bytes_injective(a.env_transferred_value, b.env_transferred_value);
    lemma_host_function_bytes_injective(a.transfer, b.transfer);
    lemma_host_function_bytes_injective(a.env_balance, b.env_balance);
    lemma_host_function_bytes_injective(a.upgrade, b.upgrade);
    lemma_host_function_bytes_injective(a.call, b.call);
    lemma_host_function_bytes_injective(a.print, b.print);
}

} // verus!
