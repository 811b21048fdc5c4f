//! Milestone NFT module: commemorative NFTs minted when creator tipping
//! milestones are reached.

pub mod history;
pub mod laws;
pub mod metadata;
pub mod minting;

use vstd::prelude::*;
use crate::address::Address;
use crate::table::TableValue;
use self::metadata::Metadata;

verus! {

/// Commemorative NFT minted when a milestone threshold is reached.
#[derive(Clone, Debug, PartialEq, Eq)]
pub struct MilestoneNft {
    /// Globally unique token ID.
    pub token_id: u64,
    /// Current owner of the NFT.
    pub owner: Address,
    /// Creator this milestone belongs to.
    pub creator: Address,
    /// Milestone level reached (1-based).
    pub milestone_level: u64,
    /// Creator cumulative tips at mint time.
    pub cumulative_tips: i128,
    /// Arbitrary NFT metadata.
    pub metadata: Metadata,
    /// Ledger timestamp at mint.
    pub minted_at: u64,
}

/// The value of a [`MilestoneNft`]: addresses by strkey, metadata as a map.
pub struct MilestoneNftView {
    pub token_id: u64,
    pub owner: Seq<u8>,
    pub creator: Seq<u8>,
    pub milestone_level: u64,
    pub cumulative_tips: i128,
    pub metadata: Map<Seq<u8>, Seq<u8>>,
    pub minted_at: u64,
}

impl View for MilestoneNft {
    type V = MilestoneNftView;

    open spec fn view(&self) -> MilestoneNftView {
        MilestoneNftView {
            token_id: self.token_id,
            owner: self.owner@,
            creator: self.creator@,
            milestone_level: self.milestone_level,
            cumulative_tips: self.cumulative_tips,
            metadata: self.metadata@,
            minted_at: self.minted_at,
        }
    }
}

impl MilestoneNft {
    /// A copy of this NFT record.
    pub fn duplicate(&self) -> (n: MilestoneNft)
        requires
            self.metadata.wf(),
        ensures
            n@ == self@,
            n.metadata.wf(),
    {
        MilestoneNft {
            token_id: self.token_id,
            owner: self.owner.duplicate(),
            creator: self.creator.duplicate(),
            milestone_level: self.milestone_level,
            cumulative_tips: self.cumulative_tips,
            metadata: self.metadata.duplicate(),
            minted_at: self.minted_at,
        }
    }
}

impl TableValue for MilestoneNft {
    open spec fn valid(&self) -> bool {
        self.metadata.wf()
    }

    fn copy_value(&self) -> (r: MilestoneNft) {
        self.duplicate()
    }
}

} // verus!
