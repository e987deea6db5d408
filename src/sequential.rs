//! A piece written strictly in order, block after block, and the block type
//! that feeds it.
use crate::block::{copy_range, BLOCK_SIZE};
use crate::piece::{bytes_eq, sha1_of};
use vstd::prelude::*;

verus! {

/// Where a block goes: offset within the piece, its length, and the piece.
#[derive(Debug, Clone, Copy)]
pub struct Blockinfo {
    pub offset: u64,
    pub length: u64,
    pub index: usize,
}

/// Bytes of a piece together with where they go.
#[derive(Debug, Clone)]
pub struct Block {
    pub block_info: Blockinfo,
    pub data: Vec<u8>,
}

impl Block {
    pub open spec fn data_view(&self) -> Seq<u8> {
        self.data@
    }

    pub fn new(data: &[u8], block_info: Blockinfo) -> (r: Self)
        ensures
            r.data_view() == data@,
            r.block_info.offset == block_info.offset,
            r.block_info.length == block_info.length,
            r.block_info.index == block_info.index,
    {
        let n = data.len();
        Self { block_info, data: copy_range(data, 0, n) }
    }

    /// The block's bytes.
    pub fn data(&self) -> (r: &Vec<u8>)
        ensures
            r@ == self.data_view(),
    {
        &self.data
    }
}

/// What a piece is: its length, its expected hash and its index.
#[derive(Debug, Clone)]
pub struct PieceInfo {
    pub length: u64,
    pub hash: Vec<u8>,
    pub piece_index: usize,
}

/// Why a block is refused.
#[derive(Debug, Clone, Copy, PartialEq, Eq, Structural)]
pub enum WriteError {
    /// The block does not start where the written bytes end.
    WrongOffset,
    /// The block would reach past the end of the piece.
    Overflow,
    /// The block's stated length is not the length of its bytes.
    LengthMismatch,
}

/// A piece that accepts only the block that starts where the written bytes end.
#[derive(Debug)]
pub struct Piece {
    pub piece_info: PieceInfo,
    /// The bytes written so far.
    pub data: Vec<u8>,
}

impl Piece {
    /// The bytes written so far.
    pub open spec fn written(&self) -> Seq<u8> {
        self.data@
    }

    pub open spec fn wf(&self) -> bool {
        self.written().len() <= self.piece_info.length
    }

    pub fn new(piece_info: PieceInfo) -> (r: Self)
        ensures
            r.wf(),
            r.written().len() == 0,
            r.piece_info.length == piece_info.length,
            r.piece_info.piece_index == piece_info.piece_index,
            r.piece_info.hash@ == piece_info.hash@,
    {
        Self { piece_info, data: Vec::new() }
    }

    /// All bytes of the piece are written.
    pub fn is_full(&self) -> (r: bool)
        ensures
            r == (self.written().len() == self.piece_info.length),
    {
        self.size() == self.piece_info.length
    }

    /// Number of bytes written.
    pub fn size(&self) -> (r: u64)
        ensures
            r == self.written().len(),
    {
        self.data.len() as u64
    }

    /// Appends `block`, which must start where the written bytes end, state
    /// its own length, and fit in the piece. A refused block changes nothing.
    pub fn write(&mut self, block: Block) -> (r: Result<(), WriteError>)
        requires
            old(self).wf(),
        ensures
            final(self).wf(),
            final(self).piece_info == old(self).piece_info,
            block.block_info.offset != old(self).written().len() ==> r == Err::<(), WriteError>(
                WriteError::WrongOffset),
            block.block_info.offset == old(self).written().len() && old(self).written().len()
                + block.block_info.length > old(self).piece_info.length ==> r == Err::<
                (),
                WriteError,
            >(WriteError::Overflow),
            block.block_info.offset == old(self).written().len() && old(self).written().len()
                + block.block_info.length <= old(self).piece_info.length
                && block.data_view().len() != block.block_info.length ==> r == Err::<(), WriteError>(
                WriteError::LengthMismatch),
            r is Ok <==> block.block_info.offset == old(self).written().len() && old(
                self,
            ).written().len() + block.block_info.length <= old(self).piece_info.length
                && block.data_view().len() == block.block_info.length,
            r is Ok ==> final(self).written() == old(self).written() + block.data_view(),
            r is Err ==> final(self).written() == old(self).written(),
    {
        let at = self.data.len() as u64;
        if block.block_info.offset != at {
            return Err(WriteError::WrongOffset);
        }
        if block.block_info.length > self.piece_info.length - at {
            return Err(WriteError::Overflow);
        }
        if block.data.len() as u64 != block.block_info.length {
            return Err(WriteError::LengthMismatch);
        }
        crate::codec::put_slice(&mut self.data, block.data.as_slice());
        Ok(())
    }

    /// The bytes written so far.
    pub fn get_raw_data(self) -> (r: Vec<u8>)
        ensures
            r@ == self.written(),
    {
        self.data
    }

    /// Whether the SHA-1 of the bytes written is the expected hash.
    pub fn check_integrity(&self) -> (r: bool)
        ensures
            r == (sha1_of(self.written()) == self.piece_info.hash@),
    {
        let digest = crate::piece::sha1_digest(self.data.as_slice());
        bytes_eq(digest.as_slice(), self.piece_info.hash.as_slice())
    }

    /// The next block to request: from the end of the written bytes, a full
    /// block or what is left of the piece.
    pub fn next_block(&self) -> (r: Blockinfo)
        requires
            self.wf(),
        ensures
            r.offset == self.written().len(),
            r.index == self.piece_info.piece_index,
            r.length == if self.piece_info.length - self.written().len() < BLOCK_SIZE {
                self.piece_info.length - self.written().len()
            } else {
                BLOCK_SIZE as int
            },
    {
        let at = self.data.len() as u64;
        let required = self.piece_info.length - at;
        let length = if required < BLOCK_SIZE as u64 { required } else { BLOCK_SIZE as u64 };
        Blockinfo { offset: at, index: self.piece_info.piece_index, length }
    }

    /// The piece is complete and its hash matches: it may be written out.
    pub fn can_be_flushed(&self) -> (r: bool)
        ensures
            r == (self.written().len() == self.piece_info.length && sha1_of(self.written())
                == self.piece_info.hash@),
    {
        if !self.is_full() {
            return false;
        }
        self.check_integrity()
    }
}

} // verus!
