use casper_core::auction::bids::EraId;
use casper_core::block_synchronizer::{
    block_added_fetched, block_header_fetched, fetched_block_hash, finality_signature_fetched,
    highest_executable_block_hash, hook_need_next, last_progress, need_next,
    BlockAcquisitionAction, BuilderSummary, FetchAction, FetchOutcome, FinalitySignatureId,
    NeedNext, SyncRequest, NEED_NEXT_INTERVAL_MILLIS,
};
use casper_core::keys::PublicKey;

fn action(peers: Vec<u64>, need_next: NeedNext) -> BlockAcquisitionAction {
    BlockAcquisitionAction { peers_to_ask: peers, need_next }
}

#[test]
fn each_need_turns_into_its_requests() {
    let v1 = PublicKey::Ed25519([1; 32]);
    let v2 = PublicKey::Ed25519([2; 32]);
    let actions = vec![
        action(vec![7, 8], NeedNext::Nothing),
        action(vec![7, 8], NeedNext::BlockHeader([1; 32])),
        action(vec![9], NeedNext::BlockBody([2; 32])),
        action(vec![7, 8], NeedNext::FinalitySignatures([3; 32], EraId::new(4), vec![v1, v2])),
        action(vec![7, 8], NeedNext::GlobalState([4; 32], [5; 32])),
        action(vec![9], NeedNext::Deploy([6; 32], [7; 32])),
        action(vec![], NeedNext::EraValidators(EraId::new(11))),
        action(vec![9], NeedNext::Peers([8; 32])),
    ];
    let sig = |pk: PublicKey, peer: u64| SyncRequest::FetchFinalitySignature {
        id: FinalitySignatureId { block_hash: [3; 32], era_id: EraId::new(4), public_key: pk },
        peer,
    };
    assert_eq!(
        need_next(&actions),
        vec![
            SyncRequest::FetchBlockHeader { block_hash: [1; 32], peer: 7 },
            SyncRequest::FetchBlockHeader { block_hash: [1; 32], peer: 8 },
            SyncRequest::FetchBlockAdded { block_hash: [2; 32], peer: 9 },
            sig(v1, 7),
            sig(v2, 7),
            sig(v1, 8),
            sig(v2, 8),
            SyncRequest::SyncGlobalState { block_hash: [4; 32], root_hash: [5; 32], peers: vec![7, 8] },
            SyncRequest::FetchDeploy { block_hash: [6; 32], deploy_hash: [7; 32], peer: 9 },
            SyncRequest::GetEraValidators(EraId::new(11)),
            SyncRequest::GetAccumulatedPeers([8; 32]),
        ]
    );
    assert!(need_next(&vec![action(vec![], NeedNext::BlockHeader([1; 32]))]).is_empty());
}

#[test]
fn fetched_results_ask_for_the_next_needs_again() {
    let effects = vec![SyncRequest::GetEraValidators(EraId::new(1))];
    assert_eq!(
        hook_need_next(effects),
        vec![
            SyncRequest::GetEraValidators(EraId::new(1)),
            SyncRequest::NeedNextAfter(NEED_NEXT_INTERVAL_MILLIS),
        ]
    );
    assert_eq!(hook_need_next(vec![]), vec![SyncRequest::NeedNextAfter(30)]);
}

#[test]
fn the_highest_complete_block_with_a_height_is_executable() {
    let b = |h: u8, is_complete: bool, block_height: Option<u64>| BuilderSummary {
        block_hash: [h; 32],
        is_complete,
        block_height,
    };
    assert_eq!(highest_executable_block_hash(&vec![]), None);
    assert_eq!(highest_executable_block_hash(&vec![b(1, false, Some(9)), b(2, true, None)]), None);
    assert_eq!(
        highest_executable_block_hash(&vec![b(1, true, Some(3)), b(2, false, Some(9)), b(3, true, Some(5)), b(4, true, Some(4))]),
        Some([3; 32])
    );
    assert_eq!(highest_executable_block_hash(&vec![b(1, true, Some(5)), b(3, true, Some(5))]), Some([3; 32]));
}

#[test]
fn last_progress_is_the_latest_time() {
    assert_eq!(last_progress(&vec![Some(5), None, Some(12)], 7, 3), 12);
    assert_eq!(last_progress(&vec![None], 7, 9), 9);
    assert_eq!(last_progress(&vec![], 7, 3), 7);
}

#[test]
fn fetched_block_items_go_to_their_builder() {
    let from_peer = FetchOutcome::FromPeer { block_hash: [4; 32], peer: 9 };
    assert_eq!(fetched_block_hash(from_peer), [4; 32]);
    assert_eq!(block_header_fetched(from_peer, true), FetchAction::Register(Some(9)));
    assert_eq!(block_added_fetched(FetchOutcome::FromStorage { block_hash: [4; 32] }, true), FetchAction::Register(None));
    assert_eq!(block_header_fetched(FetchOutcome::PeerFailed { block_hash: [4; 32], peer: 3 }, true), FetchAction::DemotePeer(Some(3)));
    assert_eq!(block_added_fetched(FetchOutcome::NotRequested { block_hash: [4; 32] }, true), FetchAction::DemotePeer(None));
    assert_eq!(block_header_fetched(from_peer, false), FetchAction::Ignore);
}

#[test]
fn failed_signature_fetches_are_ignored() {
    let from_peer = FetchOutcome::FromPeer { block_hash: [4; 32], peer: 9 };
    assert_eq!(finality_signature_fetched(from_peer, true), FetchAction::Register(Some(9)));
    assert_eq!(finality_signature_fetched(from_peer, false), FetchAction::Ignore);
    assert_eq!(finality_signature_fetched(FetchOutcome::PeerFailed { block_hash: [4; 32], peer: 3 }, true), FetchAction::Ignore);
}
