//! The state tracker: what the generic update reads of global state, and the changes it
//! asks for, in order.
use vstd::prelude::*;

use super::config::Transfer;
use super::recipients::{snapshot_view, snapshot_wf, RecipientView, SeigniorageRecipientsSnapshotV2};
use crate::auction::bid_kind::BidKind;
use crate::auction::bids::EraId;
use crate::keys::PublicKey;
use crate::keys::{AccountHash, URef};
use crate::u512::U512;

verus! {

/// A read or a change the update asked of the tracker, in the order it asked.
pub enum TrackerEffect {
    /// The bids were read, and these were found.
    ReadBids(Seq<BidKind>),
    /// A bid was written; removed validators' stakes are slashed rather than unbonded when
    /// the flag is set.
    SetBid(BidKind, bool),
    /// A purse was created with this balance.
    CreatePurse(U512, URef),
    /// A transfer was made.
    Transfer(Transfer),
    /// A purse's balance was set.
    SetPurseBalance(URef, U512),
    /// An account and its entity were created with this balance.
    CreateEntityForAccount(AccountHash, U512),
    /// The withdrawals and unbonds from a bonding purse were removed.
    RemoveWithdrawsAndUnbonds(URef),
    /// A new snapshot of seigniorage recipients was written.
    WriteSnapshot(Seq<(EraId, Seq<(PublicKey, RecipientView)>)>),
}

/// The state of the tracker as the update sees it.
pub trait TrackerState: Sized {
    /// The bids in global state, as updated so far.
    spec fn spec_bids(&self) -> Seq<BidKind>;

    /// The main purse of an account's entity, if the account exists.
    spec fn spec_main_purse(&self, account_hash: AccountHash) -> Option<URef>;

    /// The snapshot of seigniorage recipients in global state.
    spec fn spec_snapshot(&self) -> Seq<(EraId, Seq<(PublicKey, RecipientView)>)>;

    /// The reads and changes asked for so far.
    spec fn spec_effects(&self) -> Seq<TrackerEffect>;
}

/// `b` is `a` with `e` asked for and the accounts as they were.
pub open spec fn logged<T: TrackerState>(a: T, b: T, e: TrackerEffect) -> bool {
    &&& b.spec_effects() == a.spec_effects().push(e)
    &&& forall|h: AccountHash| #[trigger] b.spec_main_purse(h) == a.spec_main_purse(h)
}

/// The bids and the snapshot of seigniorage recipients are as they were.
pub open spec fn kept_auction<T: TrackerState>(a: T, b: T) -> bool {
    &&& b.spec_bids() == a.spec_bids()
    &&& b.spec_snapshot() == a.spec_snapshot()
}

/// The tracker of the changes a generic update makes to global state.
pub trait StateTracker: TrackerState {
    /// Reads the snapshot of seigniorage recipients: its eras in increasing order, each
    /// with its recipients ordered by key.
    fn read_snapshot(&mut self) -> (r: SeigniorageRecipientsSnapshotV2)
        ensures
            snapshot_view(r@) == old(self).spec_snapshot(),
            snapshot_wf(snapshot_view(r@)),
            final(self).spec_effects() == old(self).spec_effects(),
            final(self).spec_bids() == old(self).spec_bids(),
            final(self).spec_snapshot() == old(self).spec_snapshot(),
            forall|h: AccountHash| #[trigger] final(self).spec_main_purse(h) == old(self).spec_main_purse(h),
    ;

    /// Writes a new snapshot of seigniorage recipients.
    fn write_snapshot(&mut self, snapshot: &SeigniorageRecipientsSnapshotV2)
        ensures
            logged(*old(self), *final(self), TrackerEffect::WriteSnapshot(snapshot_view(snapshot@))),
            final(self).spec_bids() == old(self).spec_bids(),
    ;

    /// The bids, as updated so far.
    fn get_bids(&mut self) -> (r: Vec<BidKind>)
        ensures
            r@ == old(self).spec_bids(),
            logged(*old(self), *final(self), TrackerEffect::ReadBids(r@)),
            final(self).spec_bids() == old(self).spec_bids(),
    ;

    /// Writes a bid.
    fn set_bid(&mut self, bid: BidKind, slash_instead_of_unbonding: bool)
        ensures
            logged(
                *old(self),
                *final(self),
                TrackerEffect::SetBid(bid, slash_instead_of_unbonding),
            ),
    ;

    /// Creates a purse with the given balance.
    fn create_purse(&mut self, amount: U512) -> (r: URef)
        ensures
            logged(*old(self), *final(self), TrackerEffect::CreatePurse(amount, r)),
            final(self).spec_bids() == old(self).spec_bids(),
    ;

    /// Moves tokens between the main purses of two accounts.
    fn execute_transfer(&mut self, transfer: &Transfer)
        ensures
            final(self).spec_effects() == old(self).spec_effects().push(
                TrackerEffect::Transfer(*transfer),
            ),
            kept_auction(*old(self), *final(self)),
    ;

    /// The main purse of an account's entity, if the account exists.
    fn get_account(&mut self, account_hash: &AccountHash) -> (r: Option<URef>)
        ensures
            r == old(self).spec_main_purse(*account_hash),
            final(self).spec_effects() == old(self).spec_effects(),
            forall|h: AccountHash| #[trigger] final(self).spec_main_purse(h) == old(self).spec_main_purse(h),
            kept_auction(*old(self), *final(self)),
    ;

    /// Sets a purse's balance.
    fn set_purse_balance(&mut self, purse: URef, balance: U512)
        ensures
            logged(*old(self), *final(self), TrackerEffect::SetPurseBalance(purse, balance)),
            kept_auction(*old(self), *final(self)),
    ;

    /// Creates an account and its entity with the given balance.
    fn create_addressable_entity_for_account(&mut self, account_hash: AccountHash, balance: U512)
        ensures
            final(self).spec_effects() == old(self).spec_effects().push(
                TrackerEffect::CreateEntityForAccount(account_hash, balance),
            ),
            kept_auction(*old(self), *final(self)),
    ;

    /// Removes the withdrawals and unbonds from a bonding purse; they are kept apart from the
    /// bids, which stay as they were.
    fn remove_withdraws_and_unbonds_with_bonding_purse(&mut self, bonding_purse: &URef)
        ensures
            logged(
                *old(self),
                *final(self),
                TrackerEffect::RemoveWithdrawsAndUnbonds(*bonding_purse),
            ),
            final(self).spec_bids() == old(self).spec_bids(),
    ;
}

} // verus!
