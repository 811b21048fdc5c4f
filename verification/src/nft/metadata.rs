//! Metadata helpers for milestone NFTs.

use vstd::prelude::*;
use vstd::string::StringSliceAdditionalSpecFns;
use crate::address::Address;
use crate::table::Table;
use crate::text::{Text, decimal_digits, signed_decimal};

verus! {

/// NFT metadata: text keys mapped to text values.
pub type Metadata = Table<Text, Text>;

/// Key naming the metadata standard.
pub open spec fn standard_key() -> Seq<u8> {
    "standard".spec_bytes()
}

/// Identifier of the milestone NFT metadata standard.
pub open spec fn standard_name() -> Seq<u8> {
    "tipjar-milestone-nft-v1".spec_bytes()
}

/// Key of the creator's strkey.
pub open spec fn creator_key() -> Seq<u8> {
    "creator".spec_bytes()
}

/// Key of the milestone level, in decimal.
pub open spec fn milestone_level_key() -> Seq<u8> {
    "milestone_level".spec_bytes()
}

/// Key of the cumulative tips at mint time, in decimal.
pub open spec fn cumulative_tips_key() -> Seq<u8> {
    "cumulative_tips".spec_bytes()
}

/// The caller's metadata with the four standard milestone fields set on top
/// (each overriding a caller entry under the same key).
pub open spec fn milestone_metadata(
    base: Map<Seq<u8>, Seq<u8>>,
    creator: Seq<u8>,
    milestone_level: u64,
    cumulative_tips: i128,
) -> Map<Seq<u8>, Seq<u8>> {
    base.insert(standard_key(), standard_name()).insert(creator_key(), creator).insert(
        milestone_level_key(),
        decimal_digits(milestone_level as nat),
    ).insert(cumulative_tips_key(), signed_decimal(cumulative_tips as int))
}

/// Merges caller-provided metadata with standardized milestone fields.
pub fn build_metadata(
    creator: &Address,
    milestone_level: u64,
    cumulative_tips: i128,
    base_metadata: &Metadata,
) -> (metadata: Metadata)
    requires
        base_metadata.wf(),
    ensures
        metadata.wf(),
        metadata@ == milestone_metadata(
            base_metadata@,
            creator@,
            milestone_level,
            cumulative_tips,
        ),
{
    let mut metadata = base_metadata.duplicate();
    metadata.insert(Text::from_str("standard"), Text::from_str("tipjar-milestone-nft-v1"));
    metadata.insert(Text::from_str("creator"), Text::from_bytes(creator.strkey()));
    metadata.insert(Text::from_str("milestone_level"), Text::from_u64(milestone_level));
    metadata.insert(Text::from_str("cumulative_tips"), Text::from_i128(cumulative_tips));
    metadata
}

} // verus!
