//! Blocks: the sub-piece unit that peers exchange.
use std::ops::Range;
use vstd::prelude::*;

verus! {

/// Length of a requested block (16 KiB).
pub const BLOCK_SIZE: u32 = 0x4000;

/// Index of a piece within the torrent.
pub type PieceIndex = u32;

/// A byte offset.
pub type Offset = usize;

/// `ceil(a / b)` over the integers.
pub open spec fn ceil_div(a: int, b: int) -> int {
    (a + b - 1) / b
}

/// Number of blocks of a piece of `piece_length` bytes.
pub open spec fn spec_block_count(piece_length: int) -> int {
    ceil_div(piece_length, BLOCK_SIZE as int)
}

/// Length of the block that starts at `begin` inside a piece of `piece_length`
/// bytes: a full block, or what is left at the end of the piece.
pub open spec fn spec_block_len(piece_length: int, begin: int) -> int {
    if piece_length - begin < BLOCK_SIZE as int {
        piece_length - begin
    } else {
        BLOCK_SIZE as int
    }
}

/// Identifies a block: its piece, its offset within the piece and its length.
#[derive(Debug, Clone, Copy, PartialEq, Eq, Structural)]
pub struct BlockInfo {
    /// Index of the piece within the bitfield.
    pub piece_index: PieceIndex,
    /// The offset in bytes within the piece.
    pub begin: u32,
    /// Length of the block.
    pub length: u32,
}

impl BlockInfo {
    /// A full-size block of piece `piece_index` starting at `begin`.
    pub fn new(piece_index: PieceIndex, begin: u32) -> (r: Self)
        ensures
            r.piece_index == piece_index,
            r.begin == begin,
            r.length == BLOCK_SIZE,
    {
        BlockInfo { piece_index, begin, length: BLOCK_SIZE }
    }
}

/// A block of data sent between peers.
#[derive(Debug, Clone)]
pub struct Block {
    /// Which block this is.
    pub block_info: BlockInfo,
    /// The payload.
    pub data: Vec<u8>,
}

impl Block {
    pub fn new(block_info: BlockInfo, data: Vec<u8>) -> (r: Self)
        ensures
            r.block_info == block_info,
            r.data@ == data@,
    {
        Block { block_info, data }
    }

    pub fn piece_index(&self) -> (r: PieceIndex)
        ensures
            r == self.block_info.piece_index,
    {
        self.block_info.piece_index
    }

    pub fn get_offset(&self) -> (r: Offset)
        ensures
            r == self.block_info.begin,
    {
        self.block_info.begin as Offset
    }

    /// Range of bytes within the piece which the block holds data for.
    pub fn byte_range(&self) -> (r: Range<Offset>)
        requires
            self.block_info.begin + self.data@.len() <= usize::MAX,
        ensures
            r.start == self.block_info.begin,
            r.end == self.block_info.begin + self.data@.len(),
    {
        let start = self.get_offset();
        let end = start + self.data.len();
        Range { start, end }
    }

    /// The bytes of `range` (indices into the payload), tagged with `range.start`.
    pub fn get_slice(&self, range: Range<usize>) -> (r: IoVec)
        requires
            range.start <= range.end <= self.data@.len(),
        ensures
            r.begin == range.start,
            r.data@ == self.data@.subrange(range.start as int, range.end as int),
    {
        let begin = range.start;
        let data = copy_range(&self.data, range.start, range.end);
        IoVec::new(begin, data)
    }
}

/// The bytes `v[start..end]` as a new vector.
pub fn copy_range(v: &[u8], start: usize, end: usize) -> (r: Vec<u8>)
    requires
        start <= end <= v@.len(),
    ensures
        r@ == v@.subrange(start as int, end as int),
{
    let mut r: Vec<u8> = Vec::with_capacity(end - start);
    let mut i: usize = start;
    while i < end
        invariant
            start <= i <= end <= v@.len(),
            r@ == v@.subrange(start as int, i as int),
        decreases end - i,
    {
        r.push(v[i]);
        i = i + 1;
    }
    r
}

/// Number of blocks in a piece of `piece_length` bytes: `ceil(piece_length / BLOCK_SIZE)`.
pub fn block_count(piece_length: u64) -> (r: usize)
    requires
        spec_block_count(piece_length as int) <= usize::MAX,
    ensures
        r == spec_block_count(piece_length as int),
{
    let full = piece_length / (BLOCK_SIZE as u64);
    let rest = piece_length % (BLOCK_SIZE as u64);
    let n: u64 = if rest != 0 { full + 1 } else { full };
    assert(n == spec_block_count(piece_length as int)) by (nonlinear_arith)
        requires
            full == piece_length / 0x4000,
            rest == piece_length % 0x4000,
            rest != 0 ==> n == full + 1,
            rest == 0 ==> n == full,
    {}
    n as usize
}

/// Length of the block of a piece of `piece_length` bytes that starts at `begin`.
pub fn block_len(piece_length: u64, begin: u64) -> (r: u32)
    requires
        begin < piece_length,
    ensures
        r == spec_block_len(piece_length as int, begin as int),
        0 < r <= BLOCK_SIZE,
{
    let left = piece_length - begin;
    if left < BLOCK_SIZE as u64 {
        left as u32
    } else {
        BLOCK_SIZE
    }
}

/// Bytes destined for a given offset.
#[derive(Debug, Clone)]
pub struct IoVec {
    /// Byte offset where the data begins.
    pub begin: Offset,
    /// The bytes.
    pub data: Vec<u8>,
}

impl IoVec {
    pub fn new(begin: Offset, data: Vec<u8>) -> (r: Self)
        ensures
            r.begin == begin,
            r.data@ == data@,
    {
        IoVec { begin, data }
    }
}

} // verus!
