//! The tip jar contract's entry points over its persistent state.
//!
//! Authorization of the caller (the `require_auth` of the sender, creator or
//! current owner) is the host's part and happens before these are called.

use vstd::prelude::*;
use crate::address::Address;
use crate::nft::MilestoneNft;
use crate::nft::metadata::Metadata;
use crate::nft::minting::{
    MilestoneStore, MilestoneStoreView, get_nft, get_owner_tokens, record_tip_and_maybe_mint,
    set_milestone_step, transfer_nft,
};
use crate::types::TipJarError;

verus! {

/// The contract's persistent state: its administrator, once initialized,
/// and the milestone NFT entries.
pub struct TipJarContract {
    admin: Option<Address>,
    milestones: MilestoneStore,
}

/// The value of a [`TipJarContract`].
pub struct TipJarContractView {
    pub admin: Option<Seq<u8>>,
    pub milestones: MilestoneStoreView,
}

impl View for TipJarContract {
    type V = TipJarContractView;

    closed spec fn view(&self) -> TipJarContractView {
        TipJarContractView {
            admin: match self.admin {
                Some(a) => Some(a@),
                None => None,
            },
            milestones: self.milestones@,
        }
    }
}

impl TipJarContract {
    /// The milestone entries are well formed.
    pub closed spec fn wf(&self) -> bool {
        self.milestones.wf()
    }

    /// A contract that is not initialized yet and has no milestone entries.
    pub fn new() -> (c: TipJarContract)
        ensures
            c.wf(),
            c@.admin is None,
            c@.milestones.tip_totals == Map::<Seq<u8>, i128>::empty(),
            c@.milestones.milestone_steps == Map::<Seq<u8>, i128>::empty(),
            c@.milestones.tokens == Map::<u64, crate::nft::MilestoneNftView>::empty(),
            c@.milestones.owner_tokens == Map::<Seq<u8>, Seq<u64>>::empty(),
            c@.milestones.token_counter == 0,
    {
        TipJarContract { admin: None, milestones: MilestoneStore::new() }
    }

    /// A contract state made of an administrator (if initialized) and the
    /// milestone entries.
    pub fn from_parts(admin: Option<Address>, milestones: MilestoneStore) -> (c: TipJarContract)
        requires
            milestones.wf(),
        ensures
            c.wf(),
            c@.milestones == milestones@,
            c@.admin == (match admin {
                Some(a) => Some(a@),
                None => None::<Seq<u8>>,
            }),
    {
        TipJarContract { admin, milestones }
    }

    /// The administrator, once initialized.
    pub fn admin(&self) -> (a: Option<&Address>)
        ensures
            match a {
                Some(x) => self@.admin == Some(x@),
                None => self@.admin is None,
            },
    {
        match &self.admin {
            Some(a) => Some(a),
            None => None,
        }
    }

    /// The milestone entries.
    pub fn milestones(&self) -> (m: &MilestoneStore)
        requires
            self.wf(),
        ensures
            m.wf(),
            m@ == self@.milestones,
    {
        &self.milestones
    }

    /// One-time setup to choose the administrator for the TipJar; a second
    /// call is refused with `AlreadyInitialized` and nothing changes.
    pub fn init(&mut self, admin: &Address) -> (r: Result<(), TipJarError>)
        ensures
            old(self).wf() ==> final(self).wf(),
            old(self)@.admin is Some ==> r == Err::<(), TipJarError>(TipJarError::AlreadyInitialized)
                && final(self)@ == old(self)@,
            old(self)@.admin is None ==> r is Ok && final(self)@ == (TipJarContractView {
                admin: Some(admin@),
                ..old(self)@
            }),
    {
        if self.admin.is_some() {
            return Err(TipJarError::AlreadyInitialized);
        }
        self.admin = Some(admin.duplicate());
        Ok(())
    }

    /// Configures a creator-specific milestone threshold used for automatic
    /// NFT minting; a threshold that is not positive is refused with
    /// `InvalidGoalAmount` and nothing changes.
    pub fn configure_milestone_nft(&mut self, creator: &Address, milestone_step: i128) -> (r: Result<(), TipJarError>)
        requires
            old(self).wf(),
        ensures
            final(self).wf(),
            final(self)@.admin == old(self)@.admin,
            milestone_step <= 0 ==> r == Err::<(), TipJarError>(TipJarError::InvalidGoalAmount)
                && final(self)@.milestones == old(self)@.milestones,
            milestone_step > 0 ==> r is Ok && final(self)@.milestones == old(self)@.milestones.with_step(
                creator@,
                milestone_step,
            ),
    {
        set_milestone_step(&mut self.milestones, creator, milestone_step)
    }

    /// Records a tip amount and automatically mints commemorative NFTs for
    /// reached milestones.
    ///
    /// Returns minted token IDs in ascending milestone order.
    pub fn record_tip_for_milestone(
        &mut self,
        sender: &Address,
        creator: &Address,
        amount: i128,
        metadata: &Metadata,
        now: u64,
    ) -> (r: Result<Vec<u64>, TipJarError>)
        requires
            old(self).wf(),
            metadata.wf(),
            old(self)@.milestones.tip_within_limits(creator@, amount as int),
        ensures
            final(self).wf(),
            final(self)@.admin == old(self)@.admin,
            amount <= 0 ==> r == Err::<Vec<u64>, TipJarError>(TipJarError::InvalidAmount)
                && final(self)@.milestones == old(self)@.milestones,
            amount > 0 ==> r is Ok && r->Ok_0@ == old(self)@.milestones.next_ids(
                old(self)@.milestones.levels_crossed(creator@, amount as int),
            ) && final(self)@.milestones == old(self)@.milestones.after_tip(
                sender@,
                creator@,
                amount as int,
                metadata@,
                now,
            ),
    {
        record_tip_and_maybe_mint(&mut self.milestones, sender, creator, amount, metadata, now)
    }

    /// Transfers a milestone NFT to another address.
    pub fn transfer_milestone_nft(&mut self, from: &Address, to: &Address, token_id: u64) -> (r: Result<(), TipJarError>)
        requires
            old(self).wf(),
        ensures
            final(self).wf(),
            final(self)@.admin == old(self)@.admin,
            match old(self)@.milestones.transfer_error(from@, token_id) {
                Some(e) => r == Err::<(), TipJarError>(e) && final(self)@.milestones == old(self)@.milestones,
                None => r is Ok && final(self)@.milestones == old(self)@.milestones.after_transfer(
                    from@,
                    to@,
                    token_id,
                ),
            },
    {
        transfer_nft(&mut self.milestones, from, to, token_id)
    }

    /// Returns milestone NFT token data by token ID.
    pub fn get_milestone_nft(&self, token_id: u64) -> (nft: Option<MilestoneNft>)
        requires
            self.wf(),
        ensures
            match nft {
                Some(n) => self@.milestones.tokens.contains_key(token_id) && n@
                    == self@.milestones.tokens[token_id] && n.metadata.wf(),
                None => !self@.milestones.tokens.contains_key(token_id),
            },
    {
        get_nft(&self.milestones, token_id)
    }

    /// Returns owned milestone NFT token IDs for `owner`.
    pub fn get_owned_milestone_nfts(&self, owner: &Address) -> (ids: Vec<u64>)
        requires
            self.wf(),
        ensures
            ids@ == self@.milestones.tokens_of(owner@),
    {
        get_owner_tokens(&self.milestones, owner)
    }
}

} // verus!
