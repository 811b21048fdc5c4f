//! Records, roles and errors of the tip jar.

use vstd::prelude::*;
use crate::address::Address;
use crate::nft::metadata::Metadata;
use crate::text::Text;

verus! {

/// A tip carrying a message and metadata.
#[derive(Clone, Debug, PartialEq, Eq)]
pub struct TipWithMessage {
    pub sender: Address,
    pub creator: Address,
    pub amount: i128,
    pub message: Text,
    pub metadata: Metadata,
    pub timestamp: u64,
}

/// A creator's funding milestone.
#[derive(Clone, Debug, PartialEq, Eq)]
pub struct Milestone {
    pub id: u64,
    pub creator: Address,
    pub goal_amount: i128,
    pub current_amount: i128,
    pub description: Text,
    pub deadline: Option<u64>,
    pub completed: bool,
}

/// One tip of a batch.
#[derive(Clone, Debug, PartialEq, Eq)]
pub struct BatchTip {
    pub creator: Address,
    pub token: Address,
    pub amount: i128,
}

/// A tip that can be withdrawn only after `unlock_timestamp`.
#[derive(Clone, Debug, PartialEq, Eq)]
pub struct LockedTip {
    pub sender: Address,
    pub creator: Address,
    pub token: Address,
    pub amount: i128,
    pub unlock_timestamp: u64,
}

/// Internal record of a tip for refund tracking.
#[derive(Clone, Debug, PartialEq, Eq)]
pub struct TipRecord {
    pub id: u64,
    pub sender: Address,
    pub creator: Address,
    pub token: Address,
    pub amount: i128,
    pub timestamp: u64,
    pub refunded: bool,
    pub refund_requested: bool,
}

/// Time window of a leaderboard.
#[derive(Clone, Copy, Debug, PartialEq, Eq, Structural)]
pub enum TimePeriod {
    AllTime,
    Monthly,
    Weekly,
}

/// A leaderboard line.
#[derive(Clone, Debug, PartialEq, Eq)]
pub struct LeaderboardEntry {
    pub address: Address,
    pub total_amount: i128,
    pub tip_count: u32,
}

/// Which side of a tip a participant is on.
#[derive(Clone, Copy, Debug, PartialEq, Eq, Structural)]
pub enum ParticipantKind {
    Tipper,
    Creator,
}

/// Query parameters for tip history retrieval.
#[derive(Clone, Debug, PartialEq, Eq)]
pub struct TipHistoryQuery {
    pub creator: Option<Address>,
    pub sender: Option<Address>,
    pub min_amount: Option<i128>,
    pub max_amount: Option<i128>,
    pub start_time: Option<u64>,
    pub end_time: Option<u64>,
    pub limit: u32,
    pub offset: u32,
}

/// Role for role-based access control.
#[derive(Clone, Copy, Debug, PartialEq, Eq, Structural)]
pub enum Role {
    Admin,
    Moderator,
    Creator,
}

/// A sponsor-funded tip matching program.
///
/// `match_ratio` is in basis points: 100 = 1:1, 200 = 2:1.
#[derive(Clone, Debug, PartialEq, Eq)]
pub struct MatchingProgram {
    pub id: u64,
    pub sponsor: Address,
    pub creator: Address,
    pub token: Address,
    pub match_ratio: u32,
    pub max_match_amount: i128,
    pub current_matched: i128,
    pub active: bool,
}

/// Errors of the tip jar; each has a stable numeric code (see [`TipJarError::code`]).
#[derive(Clone, Copy, Debug, PartialEq, Eq, Structural, PartialOrd, Ord)]
pub enum TipJarError {
    AlreadyInitialized,
    TokenNotWhitelisted,
    InvalidAmount,
    NothingToWithdraw,
    MessageTooLong,
    MilestoneNotFound,
    MilestoneAlreadyCompleted,
    InvalidGoalAmount,
    Unauthorized,
    RoleNotFound,
    BatchTooLarge,
    InsufficientBalance,
    InvalidUnlockTime,
    TipStillLocked,
    LockedTipNotFound,
    MatchingProgramNotFound,
    MatchingProgramInactive,
    InvalidMatchRatio,
    DexNotConfigured,
    NftNotConfigured,
    SwapFailed,
    NftNotFound,
    NotNftOwner,
}

/// The numeric code of an error, as reported by the contract (1 to 23).
pub open spec fn error_code(e: TipJarError) -> u32 {
    match e {
        TipJarError::AlreadyInitialized => 1,
        TipJarError::TokenNotWhitelisted => 2,
        TipJarError::InvalidAmount => 3,
        TipJarError::NothingToWithdraw => 4,
        TipJarError::MessageTooLong => 5,
        TipJarError::MilestoneNotFound => 6,
        TipJarError::MilestoneAlreadyCompleted => 7,
        TipJarError::InvalidGoalAmount => 8,
        TipJarError::Unauthorized => 9,
        TipJarError::RoleNotFound => 10,
        TipJarError::BatchTooLarge => 11,
        TipJarError::InsufficientBalance => 12,
        TipJarError::InvalidUnlockTime => 13,
        TipJarError::TipStillLocked => 14,
        TipJarError::LockedTipNotFound => 15,
        TipJarError::MatchingProgramNotFound => 16,
        TipJarError::MatchingProgramInactive => 17,
        TipJarError::InvalidMatchRatio => 18,
        TipJarError::DexNotConfigured => 19,
        TipJarError::NftNotConfigured => 20,
        TipJarError::SwapFailed => 21,
        TipJarError::NftNotFound => 22,
        TipJarError::NotNftOwner => 23,
    }
}

impl TipJarError {
    /// The numeric code of this error.
    pub fn code(&self) -> (c: u32)
        ensures
            c == error_code(*self),
    {
        match self {
            TipJarError::AlreadyInitialized => 1,
            TipJarError::TokenNotWhitelisted => 2,
            TipJarError::InvalidAmount => 3,
            TipJarError::NothingToWithdraw => 4,
            TipJarError::MessageTooLong => 5,
            TipJarError::MilestoneNotFound => 6,
            TipJarError::MilestoneAlreadyCompleted => 7,
            TipJarError::InvalidGoalAmount => 8,
            TipJarError::Unauthorized => 9,
            TipJarError::RoleNotFound => 10,
            TipJarError::BatchTooLarge => 11,
            TipJarError::InsufficientBalance => 12,
            TipJarError::InvalidUnlockTime => 13,
            TipJarError::TipStillLocked => 14,
            TipJarError::LockedTipNotFound => 15,
            TipJarError::MatchingProgramNotFound => 16,
            TipJarError::MatchingProgramInactive => 17,
            TipJarError::InvalidMatchRatio => 18,
            TipJarError::DexNotConfigured => 19,
            TipJarError::NftNotConfigured => 20,
            TipJarError::SwapFailed => 21,
            TipJarError::NftNotFound => 22,
            TipJarError::NotNftOwner => 23,
        }
    }

    /// The error with numeric code `code`, if there is one.
    pub fn from_code(code: u32) -> (e: Option<TipJarError>)
        ensures
            match e {
                Some(err) => error_code(err) == code,
                None => code < 1 || code > 23,
            },
    {
        match code {
            1 => Some(TipJarError::AlreadyInitialized),
            2 => Some(TipJarError::TokenNotWhitelisted),
            3 => Some(TipJarError::InvalidAmount),
            4 => Some(TipJarError::NothingToWithdraw),
            5 => Some(TipJarError::MessageTooLong),
            6 => Some(TipJarError::MilestoneNotFound),
            7 => Some(TipJarError::MilestoneAlreadyCompleted),
            8 => Some(TipJarError::InvalidGoalAmount),
            9 => Some(TipJarError::Unauthorized),
            10 => Some(TipJarError::RoleNotFound),
            11 => Some(TipJarError::BatchTooLarge),
            12 => Some(TipJarError::InsufficientBalance),
            13 => Some(TipJarError::InvalidUnlockTime),
            14 => Some(TipJarError::TipStillLocked),
            15 => Some(TipJarError::LockedTipNotFound),
            16 => Some(TipJarError::MatchingProgramNotFound),
            17 => Some(TipJarError::MatchingProgramInactive),
            18 => Some(TipJarError::InvalidMatchRatio),
            19 => Some(TipJarError::DexNotConfigured),
            20 => Some(TipJarError::NftNotConfigured),
            21 => Some(TipJarError::SwapFailed),
            22 => Some(TipJarError::NftNotFound),
            23 => Some(TipJarError::NotNftOwner),
            _ => None,
        }
    }
}

/// Distinct errors have distinct codes.
pub proof fn lemma_error_codes_distinct(a: TipJarError, b: TipJarError)
    ensures
        error_code(a) == error_code(b) <==> a == b,
{
}

} // verus!
