//! The chain values the triage works on: hashes, dates, headers and blocks.

use vstd::prelude::*;

verus! {

/// Identifier of a block: the 32-byte hash of its header.
///
/// Two hashes are equal exactly when their bytes are.
#[derive(Clone, Copy, Debug, Eq, Hash)]
pub struct HeaderHash {
    pub bytes: [u8; 32],
}

impl PartialEq for HeaderHash {
    fn eq(&self, other: &Self) -> (r: bool) {
        let mut i: usize = 0;
        while i < 32
            invariant
                i <= 32,
                forall|j: int| 0 <= j < i ==> self.bytes[j] == other.bytes[j],
            decreases 32 - i,
        {
            if self.bytes[i] != other.bytes[i] {
                return false;
            }
            i += 1;
        }
        assert(self.bytes =~= other.bytes);
        true
    }
}

impl vstd::std_specs::cmp::PartialEqSpecImpl for HeaderHash {
    open spec fn obeys_eq_spec() -> bool {
        true
    }

    open spec fn eq_spec(&self, other: &Self) -> bool {
        *self == *other
    }
}

/// Position of a block in time: an epoch and a slot within it.
///
/// Dates are ordered by epoch first and by slot second.
#[derive(Clone, Copy, Debug, PartialEq, Eq, PartialOrd, Ord, Hash, Structural)]
pub struct BlockDate {
    pub epoch: u32,
    pub slot_id: u32,
}

impl BlockDate {
    /// `self` comes strictly before `other`.
    pub open spec fn precedes(self, other: BlockDate) -> bool {
        self.epoch < other.epoch || (self.epoch == other.epoch && self.slot_id < other.slot_id)
    }

    /// Decides whether `self` comes strictly before `other`.
    pub fn is_before(&self, other: &BlockDate) -> (r: bool)
        ensures
            r == self.precedes(*other),
    {
        self.epoch < other.epoch || (self.epoch == other.epoch && self.slot_id < other.slot_id)
    }
}

/// Dates are totally ordered: two dates are equal, or exactly one precedes
/// the other, and precedence is transitive.
pub proof fn lemma_block_date_total_order(a: BlockDate, b: BlockDate, c: BlockDate)
    ensures
        !a.precedes(a),
        a == b || a.precedes(b) || b.precedes(a),
        !(a.precedes(b) && b.precedes(a)),
        a.precedes(b) && b.precedes(c) ==> a.precedes(c),
{
}

/// Metadata of a block: its identifier, its parent's identifier, its
/// distance from the first block of the chain and its date.
#[derive(Clone, Copy, Debug, PartialEq, Eq)]
pub struct Header {
    pub hash: HeaderHash,
    pub parent_hash: HeaderHash,
    pub chain_length: u64,
    pub block_date: BlockDate,
}

impl Header {
    /// The identifier of the block this header describes.
    pub fn hash(&self) -> (r: HeaderHash)
        ensures
            r == self.hash,
    {
        self.hash
    }

    /// The identifier of the preceding block.
    pub fn parent_hash(&self) -> (r: HeaderHash)
        ensures
            r == self.parent_hash,
    {
        self.parent_hash
    }

    /// The number of blocks between this one and the first of the chain.
    pub fn chain_length(&self) -> (r: u64)
        ensures
            r == self.chain_length,
    {
        self.chain_length
    }

    /// The date of the block.
    pub fn block_date(&self) -> (r: BlockDate)
        ensures
            r == self.block_date,
    {
        self.block_date
    }
}

/// A full block: a header and the bytes of its contents.
#[derive(Debug, PartialEq, Eq)]
pub struct Block {
    pub header: Header,
    pub contents: Vec<u8>,
}

/// What a [`Block`] holds, as mathematical values.
pub struct BlockView {
    pub header: Header,
    pub contents: Seq<u8>,
}

impl View for Block {
    type V = BlockView;

    open spec fn view(&self) -> BlockView {
        BlockView { header: self.header, contents: self.contents@ }
    }
}

impl Clone for Block {
    fn clone(&self) -> (r: Self)
        ensures
            r@ == self@,
    {
        let contents = self.contents.clone();
        assert(contents@ =~= self.contents@);
        Block { header: self.header, contents }
    }
}

impl Block {
    /// The header of the block.
    pub fn header(&self) -> (r: Header)
        ensures
            r == self.header,
    {
        self.header
    }

    /// The identifier of the block, which is that of its header.
    pub fn hash(&self) -> (r: HeaderHash)
        ensures
            r == self.header.hash,
    {
        self.header.hash
    }
}

} // verus!
