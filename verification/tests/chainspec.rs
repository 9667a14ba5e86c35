use casper_core::bytesrepr::Error;
use casper_core::chainspec::host_function::{Cost, HostFunction};
use casper_core::chainspec::host_function_costs_v2::{
    HostFunctionCostsV2, DEFAULT_CALL_COST, DEFAULT_PRINT_COST, DEFAULT_PRINT_TEXT_SIZE_WEIGHT,
    DEFAULT_READ_VALUE_COST, DEFAULT_ARG_CHARGE, HOST_FUNCTION_COSTS_V2_SERIALIZED_LENGTH,
};
use casper_core::chainspec::storage_costs::{StorageCosts, DEFAULT_GAS_PER_BYTE_COST};
use casper_core::gas::Gas;
use casper_core::u512::U512;
use rand::Rng;

const COST: Cost = 42;
const ARGUMENT_COSTS: [Cost; 3] = [123, 456, 789];
const WEIGHTS: [Cost; 3] = [1000, 1100, 1200];

const SMALL_WEIGHT: usize = 123456789;
const LARGE_WEIGHT: usize = usize::MAX;

#[test]
fn calculate_gas_cost_for_host_function() {
    let host_function = HostFunction::new(COST, ARGUMENT_COSTS);
    let expected_cost = COST
        + (ARGUMENT_COSTS[0] * WEIGHTS[0])
        + (ARGUMENT_COSTS[1] * WEIGHTS[1])
        + (ARGUMENT_COSTS[2] * WEIGHTS[2]);
    assert_eq!(
        host_function.calculate_gas_cost(WEIGHTS),
        Some(Gas::new(U512::from_u64(expected_cost as u64)))
    );
}

#[test]
fn calculate_gas_cost_would_overflow() {
    let large_value = Cost::MAX;

    let host_function =
        HostFunction::new(large_value, [large_value, large_value, large_value, large_value]);

    let lhs = host_function.calculate_gas_cost([large_value, large_value, large_value, large_value]);

    let large = large_value as u128;
    let rhs = U512::from_u128(large + 4 * large * large);

    assert_eq!(lhs, Some(Gas::new(rhs)));
}

#[test]
fn should_calculate_gas_cost() {
    let storage_costs = StorageCosts::default();

    let cost = storage_costs.calculate_gas_cost(SMALL_WEIGHT);

    let expected_cost = U512::from_u128(DEFAULT_GAS_PER_BYTE_COST as u128 * SMALL_WEIGHT as u128);
    assert_eq!(cost, Gas::new(expected_cost));
}

#[test]
fn should_calculate_big_gas_cost() {
    let storage_costs = StorageCosts::default();

    let cost = storage_costs.calculate_gas_cost(LARGE_WEIGHT);

    let expected_cost = U512::from_u128(DEFAULT_GAS_PER_BYTE_COST as u128 * LARGE_WEIGHT as u128);
    assert_eq!(cost, Gas::new(expected_cost));
}

#[test]
fn gas_cost_of_a_host_function_without_arguments_is_its_fixed_cost() {
    let host_function: HostFunction<0> = HostFunction::fixed(330);
    assert_eq!(host_function.calculate_gas_cost([]), Some(Gas::new(U512::from_u64(330))));
}

#[test]
fn fixed_and_zero_host_functions() {
    let fixed: HostFunction<4> = HostFunction::fixed(7);
    assert_eq!(fixed.cost(), 7);
    assert_eq!(fixed.arguments(), &[0, 0, 0, 0]);
    assert!(!fixed.is_zero());
    let zero: HostFunction<4> = HostFunction::zero();
    assert!(zero.is_zero());
    assert!(!HostFunction::new(0, [0u32, 1, 0]).is_zero());
}

#[test]
fn host_function_bytes_roundtrip() {
    let mut rng = rand::thread_rng();
    for _ in 0..100 {
        let arguments: [Cost; 10] = rng.gen();
        let host_function = HostFunction::new(rng.gen(), arguments);
        let bytes = host_function.to_bytes().unwrap();
        assert_eq!(bytes.len(), host_function.serialized_length());
        let (decoded, rem) = HostFunction::<10>::from_bytes(&bytes).unwrap();
        assert_eq!(decoded, host_function);
        assert!(rem.is_empty());
    }
}

#[test]
fn host_function_bytes_are_little_endian_words() {
    let host_function = HostFunction::new(0x0102_0304, [5u32, 0x0600_0000]);
    assert_eq!(host_function.to_bytes().unwrap(), vec![4, 3, 2, 1, 5, 0, 0, 0, 0, 0, 0, 6]);
}

#[test]
fn short_host_function_bytes_are_refused() {
    let bytes = [1u8; 11];
    assert_eq!(HostFunction::<2>::from_bytes(&bytes).unwrap_err(), Error::EarlyEndOfStream);
}

#[test]
fn default_host_function_costs() {
    let costs = HostFunctionCostsV2::default();
    assert_eq!(costs.read.cost(), DEFAULT_READ_VALUE_COST);
    assert_eq!(costs.read.arguments(), &[0, DEFAULT_ARG_CHARGE, 0, 0, 0, 0]);
    assert_eq!(costs.call.cost(), DEFAULT_CALL_COST);
    assert_eq!(costs.print.arguments(), &[0, DEFAULT_PRINT_TEXT_SIZE_WEIGHT]);
    assert_eq!(costs.print.cost(), DEFAULT_PRINT_COST);
    assert!(!costs.is_zero());
    assert!(HostFunctionCostsV2::zero().is_zero());
}

#[test]
fn host_function_costs_bytes_roundtrip() {
    let costs = HostFunctionCostsV2::default();
    let bytes = costs.to_bytes().unwrap();
    assert_eq!(bytes.len(), HOST_FUNCTION_COSTS_V2_SERIALIZED_LENGTH);
    assert_eq!(bytes.len(), costs.serialized_length());
    let mut extended = bytes.clone();
    extended.extend_from_slice(&[9, 9]);
    let (decoded, rem) = HostFunctionCostsV2::from_bytes(&extended).unwrap();
    assert_eq!(decoded, costs);
    assert_eq!(rem, &[9, 9]);
    assert_eq!(
        HostFunctionCostsV2::from_bytes(&bytes[..bytes.len() - 1]).unwrap_err(),
        Error::EarlyEndOfStream
    );
}

#[test]
fn storage_costs_bytes_roundtrip() {
    let mut rng = rand::thread_rng();
    for _ in 0..100 {
        let storage_costs = StorageCosts::new(rng.gen());
        let bytes = storage_costs.to_bytes().unwrap();
        assert_eq!(bytes.len(), storage_costs.serialized_length());
        let (decoded, rem) = StorageCosts::from_bytes(&bytes).unwrap();
        assert_eq!(decoded, storage_costs);
        assert!(rem.is_empty());
    }
    assert_eq!(StorageCosts::from_bytes(&[1, 2, 3]).unwrap_err(), Error::EarlyEndOfStream);
}

#[test]
fn storage_costs_defaults_and_zero() {
    assert_eq!(StorageCosts::default().gas_per_byte(), DEFAULT_GAS_PER_BYTE_COST);
    assert!(StorageCosts::zero().is_zero());
    assert!(!StorageCosts::default().is_zero());
    assert_eq!(StorageCosts::new(3).calculate_gas_cost(5), Gas::new(U512::from_u64(15)));
}
