//! Milestone tipping ledger: commemorative NFTs minted when a creator's
//! cumulative tips cross configured milestone thresholds.
//!
//! The contract's persistent state is modelled by plain values (see
//! [`nft::minting::MilestoneStore`] and [`TipJarContract`]); every state
//! transition of the milestone module is a verified function over that model.

pub mod address;
pub mod contract;
pub mod nft;
pub mod table;
pub mod text;
pub mod types;

pub use address::Address;
pub use text::Text;
pub use types::{
    BatchTip, LeaderboardEntry, LockedTip, MatchingProgram, Milestone, ParticipantKind, Role,
    TimePeriod, TipHistoryQuery, TipJarError, TipRecord, TipWithMessage,
};
pub use contract::TipJarContract;
