//! Plain data carried through the pipeline: block identifiers, header
//! records, peer identities and the chain configuration consumed by the
//! verify stages.

use vstd::prelude::*;

verus! {

/// An ordered block number.
#[derive(Clone, Copy, PartialEq, Eq, Structural, Debug)]
pub struct BlockNumber(pub u64);

/// A 32-byte content hash, held as four 64-bit words.
#[derive(Clone, Copy, PartialEq, Eq, Structural, Debug)]
pub struct BlockHash {
    pub word0: u64,
    pub word1: u64,
    pub word2: u64,
    pub word3: u64,
}

/// A block number paired with its content hash; anchors the window to an
/// external checkpoint and expresses parent-child linkage.
#[derive(Clone, Copy, PartialEq, Eq, Structural, Debug)]
pub struct BlockHashAndNumber {
    pub number: BlockNumber,
    pub hash: BlockHash,
}

/// Identity of the peer that supplied a slice, kept for penalization.
#[derive(Clone, Copy, PartialEq, Eq, Structural, Debug)]
pub struct PeerId(pub u64);

/// One header record: the fields the window's chain rules read.
#[derive(Clone, Copy, PartialEq, Eq, Structural, Debug)]
pub struct Header {
    pub number: BlockNumber,
    pub hash: BlockHash,
    pub parent_hash: BlockHash,
    pub difficulty: u64,
    pub timestamp: u64,
}

/// Immutable consensus parameters; each header must satisfy them
/// independently of its neighbours.
#[derive(Clone, Copy, PartialEq, Eq, Structural, Debug)]
pub struct ChainConfig {
    /// Lowest acceptable difficulty for a header.
    pub min_difficulty: u64,
    /// Highest acceptable timestamp for a header.
    pub max_timestamp: u64,
}

impl ChainConfig {
    /// Whether a single header satisfies the consensus validity rules.
    pub open spec fn spec_header_valid(self, h: Header) -> bool {
        &&& h.difficulty >= self.min_difficulty
        &&& h.timestamp <= self.max_timestamp
    }

    pub fn header_valid(&self, h: &Header) -> (r: bool)
        ensures
            r == self.spec_header_valid(*h),
    {
        h.difficulty >= self.min_difficulty && h.timestamp <= self.max_timestamp
    }
}

} // verus!
