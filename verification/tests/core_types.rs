use casper_core::auction::bids::EraId;
use casper_core::balance_identifier_purse::{BalanceIdentifierPurseRequest, BalanceIdentifierPurseResult};
use casper_core::update_gen::config::ProtocolVersion;
use casper_core::keys::{EntityAddr, Key};
use casper_core::network::{network_is_complete, network_started, NodePeers};
use casper_core::ordered::{compare_bytes, compare_keys, map_get_exec, map_insert_exec, KeyOrder};
use casper_core::u512::U512;

fn node(node_id: u64, peers: Vec<u64>) -> NodePeers {
    NodePeers { node_id, peers }
}

#[test]
fn a_fully_connected_network_is_complete() {
    let nodes = vec![node(1, vec![2, 3]), node(2, vec![1, 3]), node(3, vec![2, 1])];
    assert!(network_is_complete(&[], &nodes));
    assert!(network_started(&nodes));
}

#[test]
fn a_missing_connection_makes_the_network_incomplete() {
    let nodes = vec![node(1, vec![2]), node(2, vec![1, 3]), node(3, vec![2, 1])];
    assert!(!network_is_complete(&[], &nodes));
    // Blocking the node that is missed completes it again.
    assert!(network_is_complete(&[3], &nodes));
    assert!(network_is_complete(&[], &[]));
}

#[test]
fn a_node_without_peers_has_not_started() {
    let nodes = vec![node(1, vec![2]), node(2, vec![])];
    assert!(!network_started(&nodes));
    assert!(network_started(&[]));
}

#[test]
fn u512_arithmetic() {
    let max64 = U512::from_u64(u64::MAX);
    let one = U512::from_u64(1);
    let sum = max64.checked_add(&one).unwrap();
    assert_eq!(sum, U512::from_limbs([0, 1, 0, 0, 0, 0, 0, 0]));
    assert_eq!(sum, U512::from_u128(1u128 << 64));
    assert!(!sum.fits_u64());
    assert!(max64.fits_u64());
    assert_eq!(sum.checked_sub(&one), Some(max64));
    assert_eq!(one.checked_sub(&sum), None);
    assert_eq!(one.saturating_sub(&sum), U512::zero());
    assert!(one.lt(&sum));
    assert!(!sum.lt(&one));
    assert!(U512::zero().is_zero());
    assert!(!one.is_zero());
    assert_eq!(max64.low_u128(), u64::MAX as u128);
    assert!(sum.same(&U512::from_u128(1u128 << 64)));
    let top = U512::from_limbs([u64::MAX; 8]);
    assert_eq!(top.checked_add(&one), None);
}

#[test]
fn byte_order_is_lexicographic() {
    assert_eq!(compare_bytes(&[1, 2], &[1, 3]), KeyOrder::Less);
    assert_eq!(compare_bytes(&[1, 2], &[1, 2]), KeyOrder::Equal);
    assert_eq!(compare_bytes(&[1, 2, 0], &[1, 2]), KeyOrder::Greater);
    assert_eq!(compare_bytes(&[], &[0]), KeyOrder::Less);
    assert_eq!(compare_keys(&[9u8; 32], &[10u8; 32]), KeyOrder::Less);
}

#[test]
fn ordered_map_insert_then_get() {
    let mut entries: Vec<([u8; 32], u32)> = Vec::new();
    map_insert_exec(&mut entries, [5; 32], 50);
    map_insert_exec(&mut entries, [1; 32], 10);
    map_insert_exec(&mut entries, [3; 32], 30);
    map_insert_exec(&mut entries, [5; 32], 55);
    assert_eq!(entries, vec![([1; 32], 10), ([3; 32], 30), ([5; 32], 55)]);
    assert_eq!(map_get_exec(&entries, &[3; 32]), Some(&30));
    assert_eq!(map_get_exec(&entries, &[5; 32]), Some(&55));
    assert_eq!(map_get_exec(&entries, &[4; 32]), None);
}

#[test]
fn keys_designate_entities() {
    assert_eq!(Key::Account(casper_core::keys::AccountHash([1; 32])).into_entity_addr(), Some(EntityAddr::Account([1; 32])));
    assert_eq!(Key::Hash([2; 32]).into_entity_addr(), Some(EntityAddr::SmartContract([2; 32])));
    assert_eq!(
        Key::AddressableEntity(EntityAddr::System([3; 32])).into_entity_addr(),
        Some(EntityAddr::System([3; 32]))
    );
    assert_eq!(Key::Package([4; 32]).into_entity_addr(), None);
    assert_eq!(EntityAddr::new_account([6; 32]).value(), [6; 32]);
    assert_eq!(EntityAddr::new_smart_contract([7; 32]), EntityAddr::SmartContract([7; 32]));
    assert_eq!(EraId::new(4).value(), 4);
}

#[test]
fn balance_identifier_purse_request_and_result() {
    let version = ProtocolVersion { major: 2, minor: 0, patch: 1 };
    let request = BalanceIdentifierPurseRequest::new([3; 32], version, "main purse");
    assert_eq!(request.state_hash(), [3; 32]);
    assert_eq!(request.protocol_version(), version);
    assert_eq!(*request.identifier(), "main purse");

    let found: BalanceIdentifierPurseResult<String> = BalanceIdentifierPurseResult::Success { purse_addr: [9; 32] };
    assert!(found.is_success());
    assert_eq!(found.purse_addr(), Some([9; 32]));
    assert_eq!(found.error(), None);
    let missing: BalanceIdentifierPurseResult<String> = BalanceIdentifierPurseResult::RootNotFound;
    assert!(!missing.is_success());
    assert_eq!(missing.purse_addr(), None);
    let failed = BalanceIdentifierPurseResult::from_error("storage".to_string());
    assert!(!failed.is_success());
    assert_eq!(failed.error(), Some(&"storage".to_string()));
}
