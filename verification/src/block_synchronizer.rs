//! The decisions of the block synchronizer: which requests each block builder's next need
//! turns into, and what the synchronizer reports of its builders. The builders decide their
//! needs; the reactor performs the requests and hands the results back.
use vstd::prelude::*;

use crate::auction::bids::EraId;
use crate::keys::PublicKey;

verus! {

/// How long to wait before asking the builders for their next needs again.
pub const NEED_NEXT_INTERVAL_MILLIS: u64 = 30;

/// The identity of a finality signature: the block, its era and the signing validator.
#[derive(Debug, Clone, Copy, PartialEq, Eq)]
pub struct FinalitySignatureId {
    /// The block signed.
    pub block_hash: [u8; 32],
    /// The era of the block.
    pub era_id: EraId,
    /// The validator that signs.
    pub public_key: PublicKey,
}

/// What a block builder needs next to complete its block.
#[derive(Debug, Clone, PartialEq, Eq)]
pub enum NeedNext {
    /// Nothing.
    Nothing,
    /// The block's header.
    BlockHeader([u8; 32]),
    /// The block's body.
    BlockBody([u8; 32]),
    /// Finality signatures of the block by these validators of its era.
    FinalitySignatures([u8; 32], EraId, Vec<PublicKey>),
    /// The global state under this root hash.
    GlobalState([u8; 32], [u8; 32]),
    /// A deploy of the block.
    Deploy([u8; 32], [u8; 32]),
    /// The validators of an era.
    EraValidators(EraId),
    /// Peers that hold the block.
    Peers([u8; 32]),
    /// The block's execution results.
    ExecutionResults([u8; 32]),
}

/// A builder's next need, with the peers to ask for it.
#[derive(Debug, Clone, PartialEq, Eq)]
pub struct BlockAcquisitionAction {
    /// The peers to ask, by node ID.
    pub peers_to_ask: Vec<u64>,
    /// What is needed.
    pub need_next: NeedNext,
}

/// A request the synchronizer asks the reactor to perform.
#[derive(Debug, Clone, PartialEq, Eq)]
pub enum SyncRequest {
    /// Fetch a block header from a peer.
    FetchBlockHeader { block_hash: [u8; 32], peer: u64 },
    /// Fetch a block with its body from a peer.
    FetchBlockAdded { block_hash: [u8; 32], peer: u64 },
    /// Fetch a finality signature from a peer.
    FetchFinalitySignature { id: FinalitySignatureId, peer: u64 },
    /// Synchronize the global state under a root hash from these peers.
    SyncGlobalState { block_hash: [u8; 32], root_hash: [u8; 32], peers: Vec<u64> },
    /// Fetch a deploy of a block from a peer.
    FetchDeploy { block_hash: [u8; 32], deploy_hash: [u8; 32], peer: u64 },
    /// Read the validators of an era.
    GetEraValidators(EraId),
    /// Ask the block accumulator for the peers that hold a block.
    GetAccumulatedPeers([u8; 32]),
    /// Ask for the next needs again after this many milliseconds.
    NeedNextAfter(u64),
}

/// A request, with its peer list as a sequence.
pub enum SyncRequestView {
    FetchBlockHeader { block_hash: [u8; 32], peer: u64 },
    FetchBlockAdded { block_hash: [u8; 32], peer: u64 },
    FetchFinalitySignature { id: FinalitySignatureId, peer: u64 },
    SyncGlobalState { block_hash: [u8; 32], root_hash: [u8; 32], peers: Seq<u64> },
    FetchDeploy { block_hash: [u8; 32], deploy_hash: [u8; 32], peer: u64 },
    GetEraValidators(EraId),
    GetAccumulatedPeers([u8; 32]),
    NeedNextAfter(u64),
}

impl View for SyncRequest {
    type V = SyncRequestView;

    open spec fn view(&self) -> SyncRequestView {
        match *self {
            SyncRequest::FetchBlockHeader { block_hash, peer } => SyncRequestView::FetchBlockHeader {
                block_hash,
                peer,
            },
            SyncRequest::FetchBlockAdded { block_hash, peer } => SyncRequestView::FetchBlockAdded {
                block_hash,
                peer,
            },
            SyncRequest::FetchFinalitySignature { id, peer } => SyncRequestView::FetchFinalitySignature {
                id,
                peer,
            },
            SyncRequest::SyncGlobalState { block_hash, root_hash, peers } => SyncRequestView::SyncGlobalState {
                block_hash,
                root_hash,
                peers: peers@,
            },
            SyncRequest::FetchDeploy { block_hash, deploy_hash, peer } => SyncRequestView::FetchDeploy {
                block_hash,
                deploy_hash,
                peer,
            },
            SyncRequest::GetEraValidators(e) => SyncRequestView::GetEraValidators(e),
            SyncRequest::GetAccumulatedPeers(h) => SyncRequestView::GetAccumulatedPeers(h),
            SyncRequest::NeedNextAfter(ms) => SyncRequestView::NeedNextAfter(ms),
        }
    }
}

/// The views of the requests.
pub open spec fn requests_view(rs: Seq<SyncRequest>) -> Seq<SyncRequestView> {
    rs.map_values(|r: SyncRequest| r@)
}

/// The signature fetches of `validators`' signatures of a block, asked of each peer in turn.
pub open spec fn signature_fetches(
    peers: Seq<u64>,
    block_hash: [u8; 32],
    era_id: EraId,
    validators: Seq<PublicKey>,
) -> Seq<SyncRequestView>
    decreases peers.len(),
{
    if peers.len() == 0 {
        Seq::empty()
    } else {
        signature_fetches(peers.drop_last(), block_hash, era_id, validators) + validators.map_values(
            |pk: PublicKey|
                SyncRequestView::FetchFinalitySignature {
                    id: FinalitySignatureId { block_hash, era_id, public_key: pk },
                    peer: peers.last(),
                },
        )
    }
}

/// The requests a builder's action turns into: a fetch from each peer to ask, or one request
/// for the whole need.
pub open spec fn action_requests(a: BlockAcquisitionAction) -> Seq<SyncRequestView> {
    let peers = a.peers_to_ask@;
    match a.need_next {
        NeedNext::Nothing => Seq::empty(),
        NeedNext::BlockHeader(h) => peers.map_values(
            |p: u64| SyncRequestView::FetchBlockHeader { block_hash: h, peer: p },
        ),
        NeedNext::BlockBody(h) => peers.map_values(
            |p: u64| SyncRequestView::FetchBlockAdded { block_hash: h, peer: p },
        ),
        NeedNext::FinalitySignatures(h, e, vs) => signature_fetches(peers, h, e, vs@),
        NeedNext::GlobalState(h, root) => seq![
            SyncRequestView::SyncGlobalState { block_hash: h, root_hash: root, peers },
        ],
        NeedNext::Deploy(h, d) => peers.map_values(
            |p: u64| SyncRequestView::FetchDeploy { block_hash: h, deploy_hash: d, peer: p },
        ),
        NeedNext::EraValidators(e) => seq![SyncRequestView::GetEraValidators(e)],
        NeedNext::Peers(h) => seq![SyncRequestView::GetAccumulatedPeers(h)],
        NeedNext::ExecutionResults(_) => Seq::empty(),
    }
}

/// The requests of all the actions, in order.
pub open spec fn all_requests(actions: Seq<BlockAcquisitionAction>) -> Seq<SyncRequestView>
    decreases actions.len(),
{
    if actions.len() == 0 {
        Seq::empty()
    } else {
        all_requests(actions.drop_last()) + action_requests(actions.last())
    }
}

/// The requests of two lists of actions, one after the other, are those of the first list
/// followed by those of the second.
pub proof fn law_requests_concatenate(a: Seq<BlockAcquisitionAction>, b: Seq<BlockAcquisitionAction>)
    ensures
        all_requests(a + b) == all_requests(a) + all_requests(b),
    decreases b.len(),
{
    if b.len() == 0 {
        assert(a + b =~= a);
        assert(all_requests(b) =~= Seq::<SyncRequestView>::empty());
        assert(all_requests(a) + all_requests(b) =~= all_requests(a));
    } else {
        law_requests_concatenate(a, b.drop_last());
        assert((a + b).drop_last() =~= a + b.drop_last());
        assert((a + b).last() == b.last());
        assert(all_requests(a) + all_requests(b) =~= all_requests(a) + all_requests(b.drop_last())
            + action_requests(b.last()));
    }
}

/// A block's header, body or deploy is fetched from each of the peers to ask, once, in
/// their order.
pub proof fn law_item_fetched_from_every_peer(a: BlockAcquisitionAction)
    requires
        a.need_next is BlockHeader || a.need_next is BlockBody || a.need_next is Deploy,
    ensures
        all_requests(seq![a]).len() == a.peers_to_ask@.len(),
        forall|i: int|
            0 <= i < a.peers_to_ask@.len() ==> #[trigger] all_requests(seq![a])[i] == match a.need_next {
                NeedNext::BlockHeader(h) => SyncRequestView::FetchBlockHeader {
                    block_hash: h,
                    peer: a.peers_to_ask@[i],
                },
                NeedNext::BlockBody(h) => SyncRequestView::FetchBlockAdded {
                    block_hash: h,
                    peer: a.peers_to_ask@[i],
                },
                NeedNext::Deploy(h, d) => SyncRequestView::FetchDeploy {
                    block_hash: h,
                    deploy_hash: d,
                    peer: a.peers_to_ask@[i],
                },
                _ => arbitrary(),
            },
{
    let one = seq![a];
    assert(one.drop_last() =~= Seq::<BlockAcquisitionAction>::empty());
    assert(all_requests(one.drop_last()) =~= Seq::<SyncRequestView>::empty());
    assert(one.last() == a);
    assert(all_requests(one) =~= Seq::<SyncRequestView>::empty() + action_requests(a));
    assert(Seq::<SyncRequestView>::empty() + action_requests(a) =~= action_requests(a));
}

/// A need for global state, era validators or peers is one request, made of the peers to
/// ask at once where it needs them; no need asks for nothing.
pub proof fn law_single_requests(a: BlockAcquisitionAction)
    ensures
        a.need_next is Nothing ==> all_requests(seq![a]).len() == 0,
        a.need_next matches NeedNext::GlobalState(h, root) ==> all_requests(seq![a]) == seq![
            (SyncRequestView::SyncGlobalState { block_hash: h, root_hash: root, peers: a.peers_to_ask@ }),
        ],
        a.need_next matches NeedNext::EraValidators(e) ==> all_requests(seq![a]) == seq![
            SyncRequestView::GetEraValidators(e),
        ],
        a.need_next matches NeedNext::Peers(h) ==> all_requests(seq![a]) == seq![
            SyncRequestView::GetAccumulatedPeers(h),
        ],
{
    let one = seq![a];
    assert(one.drop_last() =~= Seq::<BlockAcquisitionAction>::empty());
    assert(all_requests(one.drop_last()) =~= Seq::<SyncRequestView>::empty());
    assert(one.last() == a);
    assert(all_requests(one) =~= action_requests(a));
}

/// Finality signatures are fetched, peer by peer in order, of each validator named in turn.
pub proof fn law_signatures_fetched(
    peers: Seq<u64>,
    block_hash: [u8; 32],
    era_id: EraId,
    validators: Seq<PublicKey>,
)
    ensures
        signature_fetches(peers, block_hash, era_id, validators).len() == peers.len() * validators.len(),
        forall|p: int, v: int|
            0 <= p < peers.len() && 0 <= v < validators.len() ==> signature_fetches(
                peers,
                block_hash,
                era_id,
                validators,
            )[p * validators.len() + v] == (SyncRequestView::FetchFinalitySignature {
                id: FinalitySignatureId { block_hash, era_id, public_key: validators[v] },
                peer: peers[p],
            }),
    decreases peers.len(),
{
    if peers.len() > 0 {
        let t = peers.drop_last();
        law_signatures_fetched(t, block_hash, era_id, validators);
        let n = validators.len();
        let prev = signature_fetches(t, block_hash, era_id, validators);
        let last = validators.map_values(
            |pk: PublicKey|
                SyncRequestView::FetchFinalitySignature {
                    id: FinalitySignatureId { block_hash, era_id, public_key: pk },
                    peer: peers.last(),
                },
        );
        assert(peers.len() * n == t.len() * n + n) by (nonlinear_arith)
            requires
                peers.len() == t.len() + 1,
        ;
        assert forall|p: int, v: int| 0 <= p < peers.len() && 0 <= v < n implies signature_fetches(
            peers,
            block_hash,
            era_id,
            validators,
        )[p * n + v] == SyncRequestView::FetchFinalitySignature {
            id: FinalitySignatureId { block_hash, era_id, public_key: validators[v] },
            peer: peers[p],
        } by {
            if p < t.len() {
                assert(p * n + v < t.len() * n) by (nonlinear_arith)
                    requires
                        p < t.len(),
                        v < n,
                        0 <= v,
                        0 <= p,
                ;
                assert(t[p] == peers[p]);
            } else {
                assert(p * n == t.len() * n) by (nonlinear_arith)
                    requires
                        p == t.len(),
                ;
            }
        }
    }
}

/// No action needs execution results, whose fetching is not offered.
pub open spec fn fetchable(actions: Seq<BlockAcquisitionAction>) -> bool {
    forall|i: int| 0 <= i < actions.len() ==> !(#[trigger] actions[i].need_next is ExecutionResults)
}

/// Appends one request to `out`, keeping the views in step.
fn push_request(out: &mut Vec<SyncRequest>, r: SyncRequest)
    ensures
        requests_view(final(out)@) == requests_view(old(out)@).push(r@),
{
    out.push(r);
    assert(requests_view(out@) =~= requests_view(old(out)@).push(r@));
}

/// Appends the requests of one action.
fn push_action_requests(out: &mut Vec<SyncRequest>, action: &BlockAcquisitionAction)
    requires
        !(action.need_next is ExecutionResults),
    ensures
        requests_view(final(out)@) == requests_view(old(out)@) + action_requests(*action),
{
    let peers = &action.peers_to_ask;
    let ghost base = requests_view(out@);
    match &action.need_next {
        NeedNext::Nothing => {
            assert(base + Seq::<SyncRequestView>::empty() =~= base);
        },
        NeedNext::BlockHeader(h) => {
            let mut i: usize = 0;
            while i < peers.len()
                invariant
                    i <= peers@.len(),
                    requests_view(out@) == base + peers@.take(i as int).map_values(
                        |p: u64| SyncRequestView::FetchBlockHeader { block_hash: *h, peer: p },
                    ),
                decreases peers@.len() - i,
            {
                push_request(out, SyncRequest::FetchBlockHeader { block_hash: *h, peer: peers[i] });
                i = i + 1;
                assert(peers@.take(i as int).map_values(
                    |p: u64| SyncRequestView::FetchBlockHeader { block_hash: *h, peer: p },
                ) =~= peers@.take(i - 1).map_values(
                    |p: u64| SyncRequestView::FetchBlockHeader { block_hash: *h, peer: p },
                ).push(SyncRequestView::FetchBlockHeader { block_hash: *h, peer: peers@[i - 1] }));
            }
            assert(peers@.take(i as int) =~= peers@);
        },
        NeedNext::BlockBody(h) => {
            let mut i: usize = 0;
            while i < peers.len()
                invariant
                    i <= peers@.len(),
                    requests_view(out@) == base + peers@.take(i as int).map_values(
                        |p: u64| SyncRequestView::FetchBlockAdded { block_hash: *h, peer: p },
                    ),
                decreases peers@.len() - i,
            {
                push_request(out, SyncRequest::FetchBlockAdded { block_hash: *h, peer: peers[i] });
                i = i + 1;
                assert(peers@.take(i as int).map_values(
                    |p: u64| SyncRequestView::FetchBlockAdded { block_hash: *h, peer: p },
                ) =~= peers@.take(i - 1).map_values(
                    |p: u64| SyncRequestView::FetchBlockAdded { block_hash: *h, peer: p },
                ).push(SyncRequestView::FetchBlockAdded { block_hash: *h, peer: peers@[i - 1] }));
            }
            assert(peers@.take(i as int) =~= peers@);
        },
        NeedNext::FinalitySignatures(h, era_id, validators) => {
            let mut i: usize = 0;
            while i < peers.len()
                invariant
                    i <= peers@.len(),
                    requests_view(out@) == base + signature_fetches(
                        peers@.take(i as int),
                        *h,
                        *era_id,
                        validators@,
                    ),
                decreases peers@.len() - i,
            {
                let peer = peers[i];
                let ghost before = requests_view(out@);
                let mut j: usize = 0;
                while j < validators.len()
                    invariant
                        j <= validators@.len(),
                        requests_view(out@) == before + validators@.take(j as int).map_values(
                            |pk: PublicKey|
                                SyncRequestView::FetchFinalitySignature {
                                    id: FinalitySignatureId { block_hash: *h, era_id: *era_id, public_key: pk },
                                    peer,
                                },
                        ),
                    decreases validators@.len() - j,
                {
                    let id = FinalitySignatureId {
                        block_hash: *h,
                        era_id: *era_id,
                        public_key: validators[j],
                    };
                    push_request(out, SyncRequest::FetchFinalitySignature { id, peer });
                    j = j + 1;
                    assert(validators@.take(j as int).map_values(
                        |pk: PublicKey|
                            SyncRequestView::FetchFinalitySignature {
                                id: FinalitySignatureId { block_hash: *h, era_id: *era_id, public_key: pk },
                                peer,
                            },
                    ) =~= validators@.take(j - 1).map_values(
                        |pk: PublicKey|
                            SyncRequestView::FetchFinalitySignature {
                                id: FinalitySignatureId { block_hash: *h, era_id: *era_id, public_key: pk },
                                peer,
                            },
                    ).push(SyncRequestView::FetchFinalitySignature { id, peer }));
                }
                proof {
                    assert(validators@.take(j as int) =~= validators@);
                    assert(peers@.take(i + 1).drop_last() =~= peers@.take(i as int));
                    assert(peers@.take(i + 1).last() == peer);
                }
                i = i + 1;
            }
            assert(peers@.take(i as int) =~= peers@);
        },
        NeedNext::GlobalState(h, root) => {
            let mut copy: Vec<u64> = Vec::new();
            let mut i: usize = 0;
            while i < peers.len()
                invariant
                    i <= peers@.len(),
                    copy@ == peers@.take(i as int),
                decreases peers@.len() - i,
            {
                copy.push(peers[i]);
                i = i + 1;
                assert(copy@ =~= peers@.take(i as int));
            }
            assert(peers@.take(i as int) =~= peers@);
            push_request(out, SyncRequest::SyncGlobalState { block_hash: *h, root_hash: *root, peers: copy });
            assert(base.push(SyncRequestView::SyncGlobalState { block_hash: *h, root_hash: *root, peers: peers@ })
                =~= base + action_requests(*action));
        },
        NeedNext::Deploy(h, d) => {
            let mut i: usize = 0;
            while i < peers.len()
                invariant
                    i <= peers@.len(),
                    requests_view(out@) == base + peers@.take(i as int).map_values(
                        |p: u64| SyncRequestView::FetchDeploy { block_hash: *h, deploy_hash: *d, peer: p },
                    ),
                decreases peers@.len() - i,
            {
                push_request(out, SyncRequest::FetchDeploy { block_hash: *h, deploy_hash: *d, peer: peers[i] });
                i = i + 1;
                assert(peers@.take(i as int).map_values(
                    |p: u64| SyncRequestView::FetchDeploy { block_hash: *h, deploy_hash: *d, peer: p },
                ) =~= peers@.take(i - 1).map_values(
                    |p: u64| SyncRequestView::FetchDeploy { block_hash: *h, deploy_hash: *d, peer: p },
                ).push(SyncRequestView::FetchDeploy { block_hash: *h, deploy_hash: *d, peer: peers@[i - 1] }));
            }
            assert(peers@.take(i as int) =~= peers@);
        },
        NeedNext::EraValidators(e) => {
            push_request(out, SyncRequest::GetEraValidators(*e));
            assert(base.push(SyncRequestView::GetEraValidators(*e)) =~= base + action_requests(*action));
        },
        NeedNext::Peers(h) => {
            push_request(out, SyncRequest::GetAccumulatedPeers(*h));
            assert(base.push(SyncRequestView::GetAccumulatedPeers(*h)) =~= base + action_requests(*action));
        },
        NeedNext::ExecutionResults(_) => {},
    }
}

/// The requests that the builders' next needs turn into, builder by builder: a header, a
/// block body or a deploy is fetched from each peer to ask; each validator's finality
/// signature from each peer; the global state is synchronized from all of them; era
/// validators and peers holding the block are asked for once.
pub fn need_next(actions: &Vec<BlockAcquisitionAction>) -> (r: Vec<SyncRequest>)
    requires
        fetchable(actions@),
    ensures
        requests_view(r@) == all_requests(actions@),
{
    let mut out: Vec<SyncRequest> = Vec::new();
    let mut i: usize = 0;
    assert(requests_view(out@) =~= all_requests(actions@.take(0)));
    while i < actions.len()
        invariant
            i <= actions@.len(),
            fetchable(actions@),
            requests_view(out@) == all_requests(actions@.take(i as int)),
        decreases actions@.len() - i,
    {
        assert(!(actions@[i as int].need_next is ExecutionResults));
        push_action_requests(&mut out, &actions[i]);
        proof {
            assert(actions@.take(i + 1).drop_last() =~= actions@.take(i as int));
        }
        i = i + 1;
    }
    assert(actions@.take(i as int) =~= actions@);
    out
}

/// The requests, followed by asking for the next needs again after the interval.
pub fn hook_need_next(effects: Vec<SyncRequest>) -> (r: Vec<SyncRequest>)
    ensures
        requests_view(r@) == requests_view(effects@).push(
            SyncRequestView::NeedNextAfter(NEED_NEXT_INTERVAL_MILLIS),
        ),
{
    let mut out = effects;
    push_request(&mut out, SyncRequest::NeedNextAfter(NEED_NEXT_INTERVAL_MILLIS));
    out
}

/// What the synchronizer knows of a builder: its block, whether it is complete, and the
/// block's height once known.
#[derive(Debug, Clone, Copy, PartialEq, Eq)]
pub struct BuilderSummary {
    /// The block being built.
    pub block_hash: [u8; 32],
    /// The block is complete.
    pub is_complete: bool,
    /// The block's height, once known.
    pub block_height: Option<u64>,
}

/// A builder whose complete block has a known height.
pub open spec fn executable(b: BuilderSummary) -> bool {
    b.is_complete && b.block_height is Some
}

/// The hash of the highest complete block whose height is known; `None` when there is none.
/// Among equally high blocks, the last one is taken.
pub fn highest_executable_block_hash(builders: &Vec<BuilderSummary>) -> (r: Option<[u8; 32]>)
    ensures
        r is None <==> forall|i: int| 0 <= i < builders@.len() ==> !executable(#[trigger] builders@[i]),
        r matches Some(h) ==> exists|i: int|
            0 <= i < builders@.len() && executable(#[trigger] builders@[i]) && builders@[i].block_hash == h
                && forall|j: int|
                0 <= j < builders@.len() && executable(#[trigger] builders@[j])
                    ==> builders@[j].block_height->0 <= builders@[i].block_height->0
                && forall|j: int|
                i < j < builders@.len() && executable(#[trigger] builders@[j])
                    ==> builders@[j].block_height->0 < builders@[i].block_height->0,
{
    let mut best: Option<usize> = None;
    let mut i: usize = 0;
    while i < builders.len()
        invariant
            i <= builders@.len(),
            best is None <==> forall|j: int| 0 <= j < i ==> !executable(#[trigger] builders@[j]),
            best matches Some(b) ==> b < i && executable(builders@[b as int]) && (forall|j: int|
                0 <= j < i && executable(#[trigger] builders@[j])
                    ==> builders@[j].block_height->0 <= builders@[b as int].block_height->0) && (forall|j: int|
                b < j < i && executable(#[trigger] builders@[j])
                    ==> builders@[j].block_height->0 < builders@[b as int].block_height->0),
        decreases builders@.len() - i,
    {
        let b = &builders[i];
        if b.is_complete {
            match b.block_height {
                Some(h) => {
                    let better = match best {
                        None => true,
                        Some(k) => match builders[k].block_height {
                            Some(bh) => bh <= h,
                            None => true,
                        },
                    };
                    if better {
                        best = Some(i);
                    }
                },
                None => {},
            }
        }
        i = i + 1;
    }
    match best {
        Some(k) => Some(builders[k].block_hash),
        None => None,
    }
}

/// The latest of the builders' progress times, the global state synchronizer's and the
/// synchronizer's own.
pub fn last_progress(builder_times: &Vec<Option<u64>>, global_sync: u64, own: u64) -> (r: u64)
    ensures
        r >= global_sync,
        r >= own,
        forall|i: int| 0 <= i < builder_times@.len() ==> (#[trigger] builder_times@[i] matches Some(t)
            ==> t <= r),
        r == global_sync || r == own || exists|i: int|
            0 <= i < builder_times@.len() && #[trigger] builder_times@[i] == Some(r),
{
    let mut latest: u64 = if global_sync >= own {
        global_sync
    } else {
        own
    };
    let mut i: usize = 0;
    while i < builder_times.len()
        invariant
            i <= builder_times@.len(),
            latest >= global_sync,
            latest >= own,
            forall|j: int| 0 <= j < i ==> (#[trigger] builder_times@[j] matches Some(t) ==> t <= latest),
            latest == global_sync || latest == own || exists|j: int|
                0 <= j < i && #[trigger] builder_times@[j] == Some(latest),
        decreases builder_times@.len() - i,
    {
        match builder_times[i] {
            Some(t) => {
                if t > latest {
                    latest = t;
                    assert(builder_times@[i as int] == Some(latest));
                }
            },
            None => {},
        }
        i = i + 1;
    }
    latest
}

/// What a fetch of an item of a block came to.
#[derive(Debug, Clone, Copy, PartialEq, Eq)]
pub enum FetchOutcome {
    /// The peer sent the item of the block.
    FromPeer { block_hash: [u8; 32], peer: u64 },
    /// Storage held the item of the block.
    FromStorage { block_hash: [u8; 32] },
    /// The peer did not deliver the item: it was absent, rejected or timed out.
    PeerFailed { block_hash: [u8; 32], peer: u64 },
    /// No request for the item could be made.
    NotRequested { block_hash: [u8; 32] },
}

/// What the synchronizer does with the outcome of a fetch.
#[derive(Debug, Clone, Copy, PartialEq, Eq, Structural)]
pub enum FetchAction {
    /// Nothing.
    Ignore,
    /// Demote the peer, if one is known, at the block's builder.
    DemotePeer(Option<u64>),
    /// Hand the item to the block's builder, with the peer that sent it, if any.
    Register(Option<u64>),
}

/// The block whose item a fetch was for.
pub open spec fn spec_fetched_block_hash(o: FetchOutcome) -> [u8; 32] {
    match o {
        FetchOutcome::FromPeer { block_hash, .. } => block_hash,
        FetchOutcome::FromStorage { block_hash } => block_hash,
        FetchOutcome::PeerFailed { block_hash, .. } => block_hash,
        FetchOutcome::NotRequested { block_hash } => block_hash,
    }
}

/// The block whose item a fetch was for: the builder of that block handles the outcome.
pub fn fetched_block_hash(outcome: FetchOutcome) -> (r: [u8; 32])
    ensures
        r == spec_fetched_block_hash(outcome),
{
    match outcome {
        FetchOutcome::FromPeer { block_hash, .. } => block_hash,
        FetchOutcome::FromStorage { block_hash } => block_hash,
        FetchOutcome::PeerFailed { block_hash, .. } => block_hash,
        FetchOutcome::NotRequested { block_hash } => block_hash,
    }
}

/// What a fetched block header or block-added comes to: nothing without a builder for the
/// block; otherwise the item is registered with the peer that sent it, or, when it did not
/// come, the peer that failed (if any) is demoted.
pub open spec fn spec_block_item_fetched(o: FetchOutcome, has_builder: bool) -> FetchAction {
    if !has_builder {
        FetchAction::Ignore
    } else {
        match o {
            FetchOutcome::FromPeer { peer, .. } => FetchAction::Register(Some(peer)),
            FetchOutcome::FromStorage { .. } => FetchAction::Register(None),
            FetchOutcome::PeerFailed { peer, .. } => FetchAction::DemotePeer(Some(peer)),
            FetchOutcome::NotRequested { .. } => FetchAction::DemotePeer(None),
        }
    }
}

fn block_item_fetched(outcome: FetchOutcome, has_builder: bool) -> (r: FetchAction)
    ensures
        r == spec_block_item_fetched(outcome, has_builder),
{
    if !has_builder {
        return FetchAction::Ignore;
    }
    match outcome {
        FetchOutcome::FromPeer { peer, .. } => FetchAction::Register(Some(peer)),
        FetchOutcome::FromStorage { .. } => FetchAction::Register(None),
        FetchOutcome::PeerFailed { peer, .. } => FetchAction::DemotePeer(Some(peer)),
        FetchOutcome::NotRequested { .. } => FetchAction::DemotePeer(None),
    }
}

/// What a fetched block header comes to, given whether a builder works on its block.
pub fn block_header_fetched(outcome: FetchOutcome, has_builder: bool) -> (r: FetchAction)
    ensures
        r == spec_block_item_fetched(outcome, has_builder),
{
    block_item_fetched(outcome, has_builder)
}

/// What a fetched block-added comes to, given whether a builder works on its block.
pub fn block_added_fetched(outcome: FetchOutcome, has_builder: bool) -> (r: FetchAction)
    ensures
        r == spec_block_item_fetched(outcome, has_builder),
{
    block_item_fetched(outcome, has_builder)
}

/// What a fetched finality signature comes to: a signature that came is registered with the
/// builder of its block, if there is one; a failed fetch is ignored.
pub open spec fn spec_finality_signature_fetched(o: FetchOutcome, has_builder: bool) -> FetchAction {
    match o {
        FetchOutcome::FromPeer { peer, .. } => if has_builder {
            FetchAction::Register(Some(peer))
        } else {
            FetchAction::Ignore
        },
        FetchOutcome::FromStorage { .. } => if has_builder {
            FetchAction::Register(None)
        } else {
            FetchAction::Ignore
        },
        _ => FetchAction::Ignore,
    }
}

/// What a fetched finality signature comes to, given whether a builder works on its block.
pub fn finality_signature_fetched(outcome: FetchOutcome, has_builder: bool) -> (r: FetchAction)
    ensures
        r == spec_finality_signature_fetched(outcome, has_builder),
{
    match outcome {
        FetchOutcome::FromPeer { peer, .. } => if has_builder {
            FetchAction::Register(Some(peer))
        } else {
            FetchAction::Ignore
        },
        FetchOutcome::FromStorage { .. } => if has_builder {
            FetchAction::Register(None)
        } else {
            FetchAction::Ignore
        },
        _ => FetchAction::Ignore,
    }
}

} // verus!
