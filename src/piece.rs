//! Pieces: assembling blocks, checking the SHA-1 of a complete piece, and
//! the store of all pieces of a torrent with the own bitfield.
use crate::block::{block_len, spec_block_count, spec_block_len, BlockInfo, Block, PieceIndex, BLOCK_SIZE};
use crate::storage::{file_writes, files_fit, writes_for, FileInfo, FileWrite};
use std::ops::Range;
use vstd::prelude::*;

verus! {

/// The SHA-1 digest of a byte string.
pub uninterp spec fn sha1_of(data: Seq<u8>) -> Seq<u8>;

/// Relies on `sha1::Sha1` through `Digest::digest`: the 20-byte SHA-1 digest
/// of `data`, a function of `data` alone.
#[verifier::external_body]
pub(crate) fn sha1_digest(data: &[u8]) -> (r: [u8; 20])
    ensures
        r@ == sha1_of(data@),
{
    <sha1::Sha1 as sha1::Digest>::digest(data).into()
}

/// Whether two byte strings are equal.
pub fn bytes_eq(a: &[u8], b: &[u8]) -> (r: bool)
    ensures
        r == (a@ == b@),
{
    if a.len() != b.len() {
        return false;
    }
    let mut i: usize = 0;
    while i < a.len()
        invariant
            i <= a@.len(),
            a@.len() == b@.len(),
            forall|k: int| 0 <= k < i ==> a@[k] == b@[k],
        decreases a@.len() - i,
    {
        if a[i] != b[i] {
            return false;
        }
        i = i + 1;
    }
    assert(a@ =~= b@);
    true
}

/// Why a block or a piece operation is refused.
#[derive(Debug, Clone, Copy, PartialEq, Eq, Structural)]
pub enum PieceError {
    /// The piece index is not below the piece count.
    UnknownPiece,
    /// The piece is no longer waiting for blocks.
    NotPending,
    /// The offset is not on a 16 KiB boundary inside the piece, or the length
    /// is not that of the block at that offset.
    InvalidBlock,
    /// A block at this offset was already received.
    DuplicateBlock,
}

/// Slot (block number) of the block that starts at `begin`.
pub open spec fn slot_of(begin: int) -> int {
    begin / (BLOCK_SIZE as int)
}

/// A block at `begin` with `data_len` bytes is one of the blocks of a piece of `len` bytes.
pub open spec fn block_fits(len: int, begin: int, data_len: int) -> bool {
    &&& 0 <= begin < len
    &&& begin % (BLOCK_SIZE as int) == 0
    &&& data_len == spec_block_len(len, begin)
}

/// Every slot holds its block.
pub open spec fn all_filled(s: Seq<Option<Seq<u8>>>) -> bool {
    forall|k: int| 0 <= k < s.len() ==> (#[trigger] s[k]) is Some
}

/// The received blocks, concatenated in offset order.
pub open spec fn concat_slots(s: Seq<Option<Seq<u8>>>) -> Seq<u8>
    decreases s.len(),
{
    if s.len() == 0 {
        Seq::empty()
    } else {
        concat_slots(s.drop_last()) + match s.last() {
            Some(d) => d,
            None => Seq::empty(),
        }
    }
}

/// `n` empty slots.
pub open spec fn empty_slots(n: nat) -> Seq<Option<Seq<u8>>> {
    Seq::new(n, |k: int| None)
}

/// What the store knows of one piece.
pub struct PieceModel {
    pub len: nat,
    pub hash: Seq<u8>,
    /// Still waiting for blocks.
    pub pending: bool,
    /// One entry per block, in offset order.
    pub slots: Seq<Option<Seq<u8>>>,
}

/// A piece as it is before any block arrives.
pub open spec fn fresh_piece(len: nat, hash: Seq<u8>) -> PieceModel {
    PieceModel {
        len,
        hash,
        pending: true,
        slots: empty_slots(spec_block_count(len as int) as nat),
    }
}

/// The effect of receiving the block `data` at `begin`: a block that does not
/// fit, or that was received already, changes nothing. The block that
/// completes the piece triggers the hash check: on a match the piece stops
/// waiting; on a mismatch all its blocks are dropped.
pub open spec fn insert_step(p: PieceModel, begin: int, data: Seq<u8>) -> PieceModel {
    if !p.pending || !block_fits(p.len as int, begin, data.len() as int) || p.slots[slot_of(
        begin,
    )] is Some {
        p
    } else {
        let s = p.slots.update(slot_of(begin), Some(data));
        if !all_filled(s) {
            PieceModel { len: p.len, hash: p.hash, pending: true, slots: s }
        } else if sha1_of(concat_slots(s)) == p.hash {
            PieceModel { len: p.len, hash: p.hash, pending: false, slots: s }
        } else {
            PieceModel { len: p.len, hash: p.hash, pending: true, slots: empty_slots(s.len()) }
        }
    }
}

/// The piece after receiving `blocks` (offset, data) in order.
pub open spec fn insert_all(p: PieceModel, blocks: Seq<(int, Seq<u8>)>) -> PieceModel
    decreases blocks.len(),
{
    if blocks.len() == 0 {
        p
    } else {
        insert_step(insert_all(p, blocks.drop_last()), blocks.last().0, blocks.last().1)
    }
}

/// Immutable description of a piece.
#[derive(Debug)]
pub struct PieceInfo {
    /// The index of the piece in the bitfield.
    pub index: PieceIndex,
    /// How many connected peers have the piece.
    pub frequency: usize,
    /// The piece is still waiting for blocks.
    pub pending: bool,
    /// Expected SHA-1 of the piece.
    pub hash: crate::message::Hash,
    /// Length of the piece.
    pub len: u64,
    /// Offset of the piece within the torrent.
    pub offset: u64,
    /// Range of file indexes that the piece overlaps.
    pub file_range: Range<usize>,
}

impl Default for PieceInfo {
    fn default() -> (r: Self)
        ensures
            r.index == 0,
            r.frequency == 0,
            !r.pending,
            r.hash@ == seq![0u8; 20],
            r.len == 0,
            r.offset == 0,
            r.file_range.start == 0,
            r.file_range.end == 0,
    {
        let hash: [u8; 20] = [0u8; 20];
        assert(hash@ =~= seq![0u8; 20]);
        PieceInfo {
            index: 0,
            frequency: 0,
            pending: false,
            hash,
            len: 0,
            offset: 0,
            file_range: Range { start: 0, end: 0 },
        }
    }
}

pub open spec fn opt_view(o: Option<Vec<u8>>) -> Option<Seq<u8>> {
    match o {
        Some(v) => Some(v@),
        None => None,
    }
}

/// One piece of the torrent and the blocks received for it so far.
#[derive(Debug)]
pub struct Piece {
    piece_info: PieceInfo,
    /// One entry per block of the piece, in offset order.
    slots: Vec<Option<Vec<u8>>>,
    /// First byte not yet requested from any peer.
    next_offset: u64,
}

impl Piece {
    pub closed spec fn info(&self) -> PieceInfo {
        self.piece_info
    }

    pub closed spec fn slots_view(&self) -> Seq<Option<Seq<u8>>> {
        self.slots@.map_values(|o: Option<Vec<u8>>| opt_view(o))
    }

    pub closed spec fn cursor(&self) -> u64 {
        self.next_offset
    }

    pub open spec fn model(&self) -> PieceModel {
        PieceModel {
            len: self.info().len as nat,
            hash: self.info().hash@,
            pending: self.info().pending,
            slots: self.slots_view(),
        }
    }

    pub closed spec fn wf(&self) -> bool {
        &&& self.piece_info.len <= u32::MAX
        &&& self.slots@.len() == spec_block_count(self.piece_info.len as int)
        &&& forall|k: int|
            0 <= k < self.slots@.len() && (#[trigger] self.slots@[k]) is Some ==> self.slots@[k]->Some_0@.len()
                == spec_block_len(self.piece_info.len as int, k * BLOCK_SIZE)
        &&& self.next_offset <= self.piece_info.len
        &&& (self.next_offset % (BLOCK_SIZE as u64) == 0 || self.next_offset
            == self.piece_info.len)
    }

    /// A piece with no block received yet.
    pub fn new(piece_info: PieceInfo) -> (r: Self)
        requires
            piece_info.len <= u32::MAX,
        ensures
            r.wf(),
            r.info() == piece_info,
            r.slots_view() == empty_slots(spec_block_count(piece_info.len as int) as nat),
            r.cursor() == 0,
    {
        let n = crate::block::block_count(piece_info.len);
        let mut slots: Vec<Option<Vec<u8>>> = Vec::with_capacity(n);
        let mut i: usize = 0;
        while i < n
            invariant
                i <= n,
                slots@.len() == i,
                forall|k: int| 0 <= k < i ==> (#[trigger] slots@[k]) is None,
            decreases n - i,
        {
            slots.push(None);
            i = i + 1;
        }
        let r = Self { piece_info, slots, next_offset: 0 };
        assert(r.slots_view() =~= empty_slots(n as nat));
        r
    }

    /// Whether every block of the piece was received.
    pub fn is_complete(&self) -> (r: bool)
        ensures
            r == all_filled(self.slots_view()),
    {
        let mut i: usize = 0;
        while i < self.slots.len()
            invariant
                i <= self.slots@.len(),
                forall|k: int| 0 <= k < i ==> (#[trigger] self.slots@[k]) is Some,
            decreases self.slots@.len() - i,
        {
            if self.slots[i].is_none() {
                assert(self.slots_view()[i as int] is None);
                return false;
            }
            i = i + 1;
        }
        assert forall|k: int| 0 <= k < self.slots_view().len() implies (
        #[trigger] self.slots_view()[k]) is Some by {
            assert(self.slots@[k] is Some);
        }
        true
    }

    /// Stores `block` in its slot. Refused, with no change, when it is not one
    /// of the piece's blocks or when its slot is already filled.
    pub fn insert_block(&mut self, block: Block) -> (r: Result<(), PieceError>)
        requires
            old(self).wf(),
        ensures
            final(self).wf(),
            final(self).info() == old(self).info(),
            final(self).cursor() == old(self).cursor(),
            !block_fits(
                old(self).info().len as int,
                block.block_info.begin as int,
                block.data@.len() as int,
            ) ==> r == Err::<(), PieceError>(PieceError::InvalidBlock),
            block_fits(
                old(self).info().len as int,
                block.block_info.begin as int,
                block.data@.len() as int,
            ) && old(self).slots_view()[slot_of(block.block_info.begin as int)] is Some ==> r
                == Err::<(), PieceError>(PieceError::DuplicateBlock),
            r is Ok <==> block_fits(
                old(self).info().len as int,
                block.block_info.begin as int,
                block.data@.len() as int,
            ) && old(self).slots_view()[slot_of(block.block_info.begin as int)] is None,
            r is Ok ==> final(self).slots_view() == old(self).slots_view().update(
                slot_of(block.block_info.begin as int),
                Some(block.data@),
            ),
            r is Err ==> *final(self) == *old(self),
    {
        let begin = block.block_info.begin as u64;
        let len = self.piece_info.len;
        if begin % (BLOCK_SIZE as u64) != 0 || begin >= len {
            return Err(PieceError::InvalidBlock);
        }
        if block.data.len() as u64 != block_len(len, begin) as u64 {
            return Err(PieceError::InvalidBlock);
        }
        let k = (begin / (BLOCK_SIZE as u64)) as usize;
        proof {
            lemma_slot_in_range(len as int, begin as int);
        }
        if self.slots[k].is_some() {
            return Err(PieceError::DuplicateBlock);
        }
        let ghost old_view = self.slots_view();
        self.slots.set(k, Some(block.data));
        assert(self.slots_view() =~= old_view.update(k as int, Some(block.data@)));
        assert(k * BLOCK_SIZE == begin);
        Ok(())
    }

    /// The received blocks, concatenated in offset order.
    pub fn data(&self) -> (r: Vec<u8>)
        ensures
            r@ == concat_slots(self.slots_view()),
    {
        let mut r: Vec<u8> = Vec::new();
        let mut i: usize = 0;
        while i < self.slots.len()
            invariant
                i <= self.slots@.len(),
                r@ == concat_slots(self.slots_view().subrange(0, i as int)),
            decreases self.slots@.len() - i,
        {
            let ghost before = r@;
            match &self.slots[i] {
                Some(d) => {
                    crate::codec::put_slice(&mut r, d.as_slice());
                },
                None => {},
            }
            let ghost s = self.slots_view().subrange(0, i + 1);
            assert(s.drop_last() =~= self.slots_view().subrange(0, i as int));
            assert(s.last() == self.slots_view()[i as int]);
            assert(r@ =~= concat_slots(s));
            i = i + 1;
        }
        assert(self.slots_view().subrange(0, self.slots@.len() as int) =~= self.slots_view());
        r
    }

    /// Whether the SHA-1 of the received blocks, in offset order, is the
    /// expected hash.
    pub fn validate(&self) -> (r: bool)
        ensures
            r == (sha1_of(concat_slots(self.slots_view())) == self.info().hash@),
    {
        let data = self.data();
        let digest = sha1_digest(data.as_slice());
        bytes_eq(digest.as_slice(), self.piece_info.hash.as_slice())
    }

    /// Drops all received blocks and starts requesting from the beginning.
    pub fn reset(&mut self)
        requires
            old(self).wf(),
        ensures
            final(self).wf(),
            final(self).info() == old(self).info(),
            final(self).slots_view() == empty_slots(old(self).slots_view().len()),
            final(self).cursor() == 0,
    {
        let n = self.slots.len();
        let ghost info = self.piece_info;
        let mut i: usize = 0;
        while i < n
            invariant
                self.piece_info == info,
                n == self.slots@.len(),
                i <= n,
                self.piece_info.len <= u32::MAX,
                self.slots@.len() == spec_block_count(self.piece_info.len as int),
                forall|k: int| 0 <= k < i ==> (#[trigger] self.slots@[k]) is None,
                forall|k: int|
                    0 <= k < self.slots@.len() && (#[trigger] self.slots@[k]) is Some
                        ==> self.slots@[k]->Some_0@.len() == spec_block_len(
                        self.piece_info.len as int,
                        k * BLOCK_SIZE,
                    ),
            decreases n - i,
        {
            self.slots.set(i, None);
            i = i + 1;
        }
        self.next_offset = 0;
        assert(self.slots_view() =~= empty_slots(n as nat));
    }

    /// Marks the piece as no longer waiting for blocks.
    fn mark_done(&mut self)
        requires
            old(self).wf(),
        ensures
            final(self).wf(),
            final(self).slots_view() == old(self).slots_view(),
            final(self).cursor() == old(self).cursor(),
            final(self).info().pending == false,
            final(self).info().index == old(self).info().index,
            final(self).info().len == old(self).info().len,
            final(self).info().offset == old(self).info().offset,
            final(self).info().hash == old(self).info().hash,
    {
        self.piece_info.pending = false;
    }

    /// Moves the request cursor past the next block.
    fn advance(&mut self)
        requires
            old(self).wf(),
            old(self).cursor() < old(self).info().len,
        ensures
            final(self).wf(),
            final(self).slots_view() == old(self).slots_view(),
            final(self).info() == old(self).info(),
            final(self).cursor() == old(self).cursor() + spec_block_len(
                old(self).info().len as int,
                old(self).cursor() as int,
            ),
    {
        let l = block_len(self.piece_info.len, self.next_offset);
        let c = self.next_offset;
        let len = self.piece_info.len;
        let nc = c + l as u64;
        assert(nc % 16384 == 0 || nc == len) by (nonlinear_arith)
            requires
                nc == c + l,
                c % 16384 == 0,
                l == 16384 || c + l == len,
        ;
        self.next_offset = nc;
    }

    pub fn length(&self) -> (r: u64)
        ensures
            r == self.info().len,
    {
        self.piece_info.len
    }

    pub fn hash(&self) -> (r: &crate::message::Hash)
        ensures
            r@ == self.info().hash@,
    {
        &self.piece_info.hash
    }

    /// The next block of the piece that was not requested yet, if any.
    pub fn request_block(&self) -> (r: Option<BlockInfo>)
        requires
            self.wf(),
        ensures
            self.cursor() < self.info().len <==> r is Some,
            r matches Some(b) ==> {
                &&& b.piece_index == self.info().index
                &&& b.begin == self.cursor()
                &&& b.length == spec_block_len(self.info().len as int, self.cursor() as int)
            },
    {
        if self.next_offset < self.piece_info.len {
            let length = block_len(self.piece_info.len, self.next_offset);
            Some(BlockInfo {
                piece_index: self.piece_info.index,
                begin: self.next_offset as u32,
                length,
            })
        } else {
            None
        }
    }
}

/// The slot of an aligned offset inside a piece is one of its slots, and its
/// block starts at that offset.
pub proof fn lemma_slot_in_range(len: int, begin: int)
    requires
        0 <= begin < len,
        begin % (BLOCK_SIZE as int) == 0,
    ensures
        0 <= slot_of(begin) < spec_block_count(len),
        slot_of(begin) * BLOCK_SIZE == begin,
{
    assert(0 <= begin / 16384 < (len + 16383) / 16384 && (begin / 16384) * 16384 == begin)
        by (nonlinear_arith)
        requires
            0 <= begin < len,
            begin % 16384 == 0,
    ;
}

/// The data of the block that starts at slot `k`'s offset.
pub open spec fn block_data_at(blocks: Seq<(int, Seq<u8>)>, k: int) -> Seq<u8> {
    blocks[choose|i: int| 0 <= i < blocks.len() && blocks[i].0 == k * BLOCK_SIZE].1
}

/// The slots of a piece filled with `blocks`, each at its offset.
pub open spec fn assembled_slots(blocks: Seq<(int, Seq<u8>)>, n: nat) -> Seq<Option<Seq<u8>>> {
    Seq::new(n, |k: int| Some(block_data_at(blocks, k)))
}

/// The slots filled by the first `j` of `blocks`.
pub open spec fn filled_by(blocks: Seq<(int, Seq<u8>)>, j: int, n: nat) -> Seq<Option<Seq<u8>>> {
    Seq::new(
        n,
        |k: int|
            if exists|i: int| 0 <= i < j && blocks[i].0 == k * BLOCK_SIZE {
                Some(block_data_at(blocks, k))
            } else {
                None
            },
    )
}

/// `blocks` are blocks of a piece of `len` bytes that cover each of its
/// block offsets exactly once.
pub open spec fn covers_once(len: nat, blocks: Seq<(int, Seq<u8>)>) -> bool {
    &&& forall|i: int|
        0 <= i < blocks.len() ==> block_fits(len as int, #[trigger] blocks[i].0, blocks[i].1.len() as int)
    &&& forall|i: int, j: int|
        0 <= i < j < blocks.len() ==> #[trigger] blocks[i].0 != #[trigger] blocks[j].0
    &&& forall|k: int|
        0 <= k < spec_block_count(len as int) ==> #[trigger] offset_received(blocks, k)
}

/// Some block of `blocks` starts at slot `k`'s offset.
pub open spec fn offset_received(blocks: Seq<(int, Seq<u8>)>, k: int) -> bool {
    exists|i: int| 0 <= i < blocks.len() && blocks[i].0 == k * BLOCK_SIZE
}

proof fn lemma_block_slot(len: nat, blocks: Seq<(int, Seq<u8>)>, j: int)
    requires
        covers_once(len, blocks),
        0 <= j < blocks.len(),
    ensures
        0 <= slot_of(blocks[j].0) < spec_block_count(len as int),
        slot_of(blocks[j].0) * BLOCK_SIZE == blocks[j].0,
        block_data_at(blocks, slot_of(blocks[j].0)) == blocks[j].1,
        forall|i: int| 0 <= i < blocks.len() && i != j ==> blocks[i].0 != blocks[j].0,
{
    assert(block_fits(len as int, blocks[j].0, blocks[j].1.len() as int));
    lemma_slot_in_range(len as int, blocks[j].0);
    assert forall|i: int| 0 <= i < blocks.len() && i != j implies blocks[i].0 != blocks[j].0 by {
        if i < j {
            assert(blocks[i].0 != blocks[j].0);
        } else {
            assert(blocks[j].0 != blocks[i].0);
        }
    }
    let c = choose|i: int| 0 <= i < blocks.len() && blocks[i].0 == slot_of(blocks[j].0) * BLOCK_SIZE;
    assert(blocks[c].0 == blocks[j].0);
}

/// Before the last of `blocks` arrives the piece is still waiting, and holds
/// exactly the blocks received so far.
proof fn lemma_insert_prefix(len: nat, hash: Seq<u8>, blocks: Seq<(int, Seq<u8>)>, j: int)
    requires
        covers_once(len, blocks),
        0 <= j < blocks.len(),
    ensures
        insert_all(fresh_piece(len, hash), blocks.take(j)) == (PieceModel {
            len,
            hash,
            pending: true,
            slots: filled_by(blocks, j, spec_block_count(len as int) as nat),
        }),
    decreases j,
{
    let n = spec_block_count(len as int) as nat;
    if j == 0 {
        assert(blocks.take(0).len() == 0);
        assert(filled_by(blocks, 0, n) =~= empty_slots(n));
    } else {
        let jj = j - 1;
        lemma_insert_prefix(len, hash, blocks, jj);
        assert(blocks.take(j).drop_last() =~= blocks.take(jj));
        assert(blocks.take(j).last() == blocks[jj]);
        let p = insert_all(fresh_piece(len, hash), blocks.take(jj));
        let b = blocks[jj];
        lemma_block_slot(len, blocks, jj);
        let sl = slot_of(b.0);
        assert(p.slots[sl] is None) by {
            if exists|i: int| 0 <= i < jj && blocks[i].0 == sl * BLOCK_SIZE {
                let i = choose|i: int| 0 <= i < jj && blocks[i].0 == sl * BLOCK_SIZE;
                assert(blocks[i].0 == b.0);
            }
        }
        let s = p.slots.update(sl, Some(b.1));
        assert(s =~= filled_by(blocks, j, n)) by {
            assert forall|k: int| 0 <= k < n implies s[k] == filled_by(blocks, j, n)[k] by {
                if k == sl {
                    assert(blocks[jj].0 == k * BLOCK_SIZE);
                } else {
                    assert(k * BLOCK_SIZE != sl * BLOCK_SIZE);
                    if exists|i: int| 0 <= i < j && blocks[i].0 == k * BLOCK_SIZE {
                        let i = choose|i: int| 0 <= i < j && blocks[i].0 == k * BLOCK_SIZE;
                        assert(i != jj);
                        assert(0 <= i < jj && blocks[i].0 == k * BLOCK_SIZE);
                    }
                }
            }
        }
        let last = blocks.len() - 1;
        lemma_block_slot(len, blocks, last);
        let sl2 = slot_of(blocks[last].0);
        assert(s[sl2] is None) by {
            if exists|i: int| 0 <= i < j && blocks[i].0 == sl2 * BLOCK_SIZE {
                let i = choose|i: int| 0 <= i < j && blocks[i].0 == sl2 * BLOCK_SIZE;
                assert(blocks[i].0 == blocks[last].0);
            }
        }
        assert(!all_filled(s));
    }
}

/// Whatever the order in which the blocks of a piece arrive, each exactly
/// once, the block that completes the piece triggers the hash check; the
/// piece stops waiting (and may be flushed and marked as had) if and only if
/// the SHA-1 of the blocks in offset order is the expected hash, and
/// otherwise is emptied and waits again.
pub proof fn lemma_insert_any_order(len: nat, hash: Seq<u8>, blocks: Seq<(int, Seq<u8>)>)
    requires
        len > 0,
        covers_once(len, blocks),
    ensures
        ({
            let n = spec_block_count(len as int) as nat;
            let q = insert_all(fresh_piece(len, hash), blocks);
            &&& !q.pending <==> sha1_of(concat_slots(assembled_slots(blocks, n))) == hash
            &&& !q.pending ==> q.slots == assembled_slots(blocks, n)
            &&& q.pending ==> q.slots == empty_slots(n)
        }),
{
    let n = spec_block_count(len as int) as nat;
    assert(n > 0) by (nonlinear_arith)
        requires
            len > 0,
            n == (len + 16383) / 16384,
    ;
    assert(offset_received(blocks, 0));
    let m = blocks.len() as int;
    let j = m - 1;
    lemma_insert_prefix(len, hash, blocks, j);
    assert(blocks.drop_last() =~= blocks.take(j));
    let p = insert_all(fresh_piece(len, hash), blocks.take(j));
    let b = blocks[j];
    lemma_block_slot(len, blocks, j);
    let sl = slot_of(b.0);
    assert(p.slots[sl] is None) by {
        if exists|i: int| 0 <= i < j && blocks[i].0 == sl * BLOCK_SIZE {
            let i = choose|i: int| 0 <= i < j && blocks[i].0 == sl * BLOCK_SIZE;
            assert(blocks[i].0 == b.0);
        }
    }
    let s = p.slots.update(sl, Some(b.1));
    assert(s =~= assembled_slots(blocks, n)) by {
        assert forall|k: int| 0 <= k < n implies s[k] == assembled_slots(blocks, n)[k] by {
            if k != sl {
                assert(k * BLOCK_SIZE != sl * BLOCK_SIZE);
                assert(offset_received(blocks, k));
                let i = choose|i: int| 0 <= i < blocks.len() && blocks[i].0 == k * BLOCK_SIZE;
                assert(i != j);
                assert(0 <= i < j && blocks[i].0 == k * BLOCK_SIZE);
            }
        }
    }
    assert(all_filled(s));
}

/// Number of `true` entries.
pub open spec fn count_true(s: Seq<bool>) -> nat
    decreases s.len(),
{
    if s.len() == 0 {
        0
    } else {
        count_true(s.drop_last()) + if s.last() {
            1nat
        } else {
            0nat
        }
    }
}

/// Counts the `true` entries of `bits`.
pub fn count_ones(bits: &[bool]) -> (r: usize)
    ensures
        r == count_true(bits@),
{
    let mut r: usize = 0;
    let mut i: usize = 0;
    while i < bits.len()
        invariant
            i <= bits@.len(),
            r == count_true(bits@.subrange(0, i as int)),
            r <= i,
        decreases bits@.len() - i,
    {
        assert(bits@.subrange(0, i + 1).drop_last() =~= bits@.subrange(0, i as int));
        if bits[i] {
            r = r + 1;
        }
        i = i + 1;
    }
    assert(bits@.subrange(0, bits@.len() as int) =~= bits@);
    r
}

/// The blocks of a complete piece add up to its length.
proof fn lemma_concat_len(s: Seq<Option<Seq<u8>>>, len: int, j: int)
    requires
        0 <= len,
        s.len() == spec_block_count(len),
        0 <= j <= s.len(),
        forall|k: int| 0 <= k < s.len() ==> (#[trigger] s[k]) is Some,
        forall|k: int|
            0 <= k < s.len() ==> (#[trigger] s[k])->Some_0.len() == spec_block_len(len, k * BLOCK_SIZE),
    ensures
        concat_slots(s.subrange(0, j)).len() == if j * BLOCK_SIZE <= len {
            j * BLOCK_SIZE
        } else {
            len
        },
    decreases j,
{
    if j > 0 {
        lemma_concat_len(s, len, j - 1);
        assert(s.subrange(0, j).drop_last() =~= s.subrange(0, j - 1));
        assert(s.subrange(0, j).last() == s[j - 1]);
        assert((j - 1) * 16384 < len && (j * 16384 > len ==> len - (j - 1) * 16384 < 16384))
            by (nonlinear_arith)
            requires
                0 < j <= (len + 16383) / 16384,
        ;
    }
}

/// What the store does with a received block.
#[derive(Debug)]
pub enum InsertOutcome {
    /// The block was stored; the piece still waits for others.
    Stored,
    /// The piece is complete and its hash matches: these writes put it into the files.
    Verified(Vec<FileWrite>),
    /// The piece is complete but its hash does not match: its blocks were dropped.
    HashMismatch,
}

/// The file that holds byte `p`.
pub open spec fn holds_offset(f: FileInfo, p: int) -> bool {
    f.offset <= p < f.end()
}

/// File `f` starts inside `[offset, offset + len)`.
pub open spec fn starts_within(f: FileInfo, offset: int, len: int) -> bool {
    offset <= f.offset < offset + len
}

/// `r` is the range of files that the bytes `[offset, offset + len)`
/// overlap: from the first file that holds byte `offset`, on through the
/// files that start inside the range; empty when no file holds `offset`.
pub open spec fn overlap_range(files: Seq<FileInfo>, offset: int, len: int, r: Range<usize>) -> bool {
    &&& (forall|i: int| 0 <= i < files.len() ==> !holds_offset(#[trigger] files[i], offset))
        ==> r.start == 0 && r.end == 0
    &&& (exists|i: int| 0 <= i < files.len() && holds_offset(#[trigger] files[i], offset)) ==> {
        &&& r.start < r.end <= files.len()
        &&& holds_offset(files[r.start as int], offset)
        &&& forall|i: int| 0 <= i < r.start ==> !holds_offset(#[trigger] files[i], offset)
        &&& forall|i: int| r.start < i < r.end ==> starts_within(#[trigger] files[i], offset, len)
        &&& r.end < files.len() ==> !starts_within(files[r.end as int], offset, len)
    }
}

/// The files that a piece overlaps: from the first file that holds the
/// piece's first byte, on through the files that start inside the piece.
/// Empty when no file holds the first byte.
pub fn get_overlapping_range(files: &[FileInfo], piece: &PieceInfo) -> (r: Range<usize>)
    requires
        piece.offset + piece.len <= u64::MAX,
    ensures
        overlap_range(files@, piece.offset as int, piece.len as int, r),
{
    let start = piece.offset;
    let end = piece.offset + piece.len;
    let n = files.len();
    let mut first: usize = 0;
    while first < n
        invariant
            n == files@.len(),
            first <= n,
            end == start + piece.len,
            start == piece.offset,
            forall|i: int| 0 <= i < first ==> !holds_offset(#[trigger] files@[i], start as int),
        decreases n - first,
    {
        let f = &files[first];
        if f.offset <= start && (start as u128) < (f.offset as u128) + (f.length as u128) {
            let mut last: usize = first + 1;
            while last < n
                invariant
                    n == files@.len(),
                    first < last <= n,
                    start == piece.offset,
                    holds_offset(files@[first as int], start as int),
                    forall|i: int| 0 <= i < first ==> !holds_offset(#[trigger] files@[i], start as int),
                    forall|i: int|
                        first < i < last ==> starts_within(
                            #[trigger] files@[i],
                            start as int,
                            piece.len as int,
                        ),
                    end == start + piece.len,
                decreases n - last,
            {
                let o = files[last].offset;
                if !(start <= o && o < end) {
                    return Range { start: first, end: last };
                }
                last = last + 1;
            }
            return Range { start: first, end: last };
        }
        first = first + 1;
    }
    Range { start: 0, end: 0 }
}

/// All pieces of a torrent, the blocks received for each, and the own bitfield.
pub struct PieceHandler {
    /// The pieces the client has: verified and written.
    bitfield: Vec<bool>,
    pieces: Vec<Piece>,
    files: Vec<FileInfo>,
}

impl PieceHandler {
    pub closed spec fn own_bits(&self) -> Seq<bool> {
        self.bitfield@
    }

    pub closed spec fn pieces_view(&self) -> Seq<Piece> {
        self.pieces@
    }

    pub closed spec fn files_view(&self) -> Seq<FileInfo> {
        self.files@
    }

    pub open spec fn piece_model(&self, i: int) -> PieceModel {
        self.pieces_view()[i].model()
    }

    pub closed spec fn wf(&self) -> bool {
        &&& self.pieces@.len() == self.bitfield@.len()
        &&& self.pieces@.len() <= u32::MAX
        &&& files_fit(self.files@)
        &&& forall|i: int|
            0 <= i < self.pieces@.len() ==> {
                &&& (#[trigger] self.pieces@[i]).wf()
                &&& self.pieces@[i].info().index == i
                &&& self.pieces@[i].info().offset + self.pieces@[i].info().len <= u64::MAX
                &&& self.bitfield@[i] ==> !self.pieces@[i].info().pending
            }
    }

    /// The store of a torrent of `total_length` bytes cut into pieces of
    /// `piece_length` bytes (the last one may be shorter), with the expected
    /// hashes concatenated in `hashes`. Pieces whose bit is set in `bitfield`
    /// are had already; the others wait for blocks.
    pub fn from_metainfo(
        piece_length: u64,
        total_length: u64,
        hashes: &[u8],
        bitfield: Vec<bool>,
        files: Vec<FileInfo>,
    ) -> (r: Self)
        requires
            0 < piece_length <= u32::MAX,
            crate::block::ceil_div(total_length as int, piece_length as int) <= u32::MAX,
            hashes@.len() == 20 * crate::block::ceil_div(total_length as int, piece_length as int),
            bitfield@.len() == crate::block::ceil_div(total_length as int, piece_length as int),
            files_fit(files@),
        ensures
            r.wf(),
            r.own_bits() == bitfield@,
            r.files_view() == files@,
            r.pieces_view().len() == bitfield@.len(),
            forall|i: int|
                0 <= i < r.pieces_view().len() ==> {
                    let p = #[trigger] r.pieces_view()[i];
                    &&& p.info().offset == i * piece_length
                    &&& p.info().len == piece_len_of(total_length as int, piece_length as int, i)
                    &&& p.info().hash@ == hashes@.subrange(20 * i, 20 * i + 20)
                    &&& p.info().pending == !bitfield@[i]
                    &&& overlap_range(files@, p.info().offset as int, p.info().len as int, p.info().file_range)
                    &&& p.slots_view() == empty_slots(spec_block_count(p.info().len as int) as nat)
                    &&& p.cursor() == 0
                },
    {
        let count = bitfield.len();
        let hlen = hashes.len();
        let mut pieces: Vec<Piece> = Vec::with_capacity(count);
        let mut i: usize = 0;
        while i < count
            invariant
                hlen == hashes@.len(),
                count == bitfield@.len(),
                count == crate::block::ceil_div(total_length as int, piece_length as int),
                count <= u32::MAX,
                0 < piece_length <= u32::MAX,
                hashes@.len() == 20 * count,
                i <= count,
                pieces@.len() == i,
                forall|k: int|
                    0 <= k < i ==> {
                        let p = #[trigger] pieces@[k];
                        &&& p.wf()
                        &&& p.info().index == k
                        &&& p.info().offset + p.info().len <= u64::MAX
                        &&& p.info().offset == k * piece_length
                        &&& p.info().len == if total_length - k * piece_length < piece_length {
                            total_length - k * piece_length
                        } else {
                            piece_length as int
                        }
                        &&& p.info().hash@ == hashes@.subrange(20 * k, 20 * k + 20)
                        &&& p.info().pending == !bitfield@[k]
                        &&& overlap_range(files@, p.info().offset as int, p.info().len as int, p.info().file_range)
                        &&& p.slots_view() == empty_slots(spec_block_count(p.info().len as int) as nat)
                        &&& p.cursor() == 0
                    },
            decreases count - i,
        {
            assert((i as int) * piece_length < total_length) by (nonlinear_arith)
                requires
                    0 <= i < (total_length + piece_length - 1) / (piece_length as int),
                    piece_length > 0,
            ;
            let offset: u64 = (i as u64) * piece_length;
            let left = total_length - offset;
            let len = if left < piece_length { left } else { piece_length };
            assert(20 * i + 20 <= 20 * count) by (nonlinear_arith)
                requires
                    i < count,
            ;
            let hash = crate::codec::take_20(hashes, 20 * i);
            let mut info = PieceInfo {
                index: i as u32,
                frequency: 0,
                pending: !bitfield[i],
                hash,
                len,
                offset,
                file_range: Range { start: 0, end: 0 },
            };
            info.file_range = get_overlapping_range(files.as_slice(), &info);
            let piece = Piece::new(info);
            pieces.push(piece);
            i = i + 1;
        }
        PieceHandler { bitfield, pieces, files }
    }

    /// The own bitfield.
    pub fn get_bitfield(&self) -> (r: &Vec<bool>)
        ensures
            r@ == self.own_bits(),
    {
        &self.bitfield
    }

    /// Number of pieces.
    pub fn piece_count(&self) -> (r: usize)
        requires
            self.wf(),
        ensures
            r == self.own_bits().len(),
            r == self.pieces_view().len(),
    {
        self.bitfield.len()
    }

    /// Number of pieces not had yet.
    pub fn miss_count(&self) -> (r: usize)
        ensures
            r == self.own_bits().len() - count_true(self.own_bits()),
    {
        let have = count_ones(self.bitfield.as_slice());
        proof {
            lemma_count_le(self.own_bits());
        }
        self.bitfield.len() - have
    }

    /// Number of pieces had.
    pub fn have_count(&self) -> (r: usize)
        ensures
            r == count_true(self.own_bits()),
    {
        count_ones(self.bitfield.as_slice())
    }

    /// Completes the hash check of piece `index`, all of whose blocks are in,
    /// given the SHA-1 `digest` of its blocks in offset order. On a match the
    /// piece stops waiting and the writes that put it into the files are
    /// returned; otherwise its blocks are dropped and it waits again.
    pub fn finish_piece(&mut self, index: usize, digest: &[u8; 20]) -> (r: InsertOutcome)
        requires
            old(self).wf(),
            index < old(self).pieces_view().len(),
            old(self).piece_model(index as int).pending,
            all_filled(old(self).piece_model(index as int).slots),
        ensures
            final(self).wf(),
            final(self).own_bits() == old(self).own_bits(),
            final(self).files_view() == old(self).files_view(),
            final(self).pieces_view().len() == old(self).pieces_view().len(),
            forall|j: int|
                0 <= j < old(self).pieces_view().len() && j != index ==> #[trigger] final(self).pieces_view()[j]
                    == old(self).pieces_view()[j],
            final(self).pieces_view()[index as int].info().offset == old(self).pieces_view()[index as int].info().offset,
            digest@ == old(self).piece_model(index as int).hash ==> {
                &&& r matches InsertOutcome::Verified(w)
                &&& writes_for(
                    old(self).files_view(),
                    old(self).pieces_view()[index as int].info().offset as int,
                    concat_slots(old(self).piece_model(index as int).slots),
                    r->Verified_0@,
                )
                &&& final(self).piece_model(index as int) == (PieceModel {
                    pending: false,
                    ..old(self).piece_model(index as int)
                })
            },
            digest@ != old(self).piece_model(index as int).hash ==> {
                &&& r matches InsertOutcome::HashMismatch
                &&& final(self).piece_model(index as int) == (PieceModel {
                    slots: empty_slots(old(self).piece_model(index as int).slots.len()),
                    ..old(self).piece_model(index as int)
                })
            },
    {
        let ghost old_model = self.piece_model(index as int);
        proof {
            let p = self.pieces@[index as int];
            assert(p.wf());
            assert forall|k: int| 0 <= k < p.slots_view().len() implies (#[trigger] p.slots_view()[k])->Some_0.len()
                == spec_block_len(p.info().len as int, k * BLOCK_SIZE) by {
                assert(p.slots_view()[k] is Some);
                assert(p.slots@[k] is Some);
            }
            lemma_concat_len(p.slots_view(), p.info().len as int, p.slots_view().len() as int);
            assert(p.slots_view().subrange(0, p.slots_view().len() as int) =~= p.slots_view());
            assert(p.slots_view().len() * 16384 >= p.info().len) by (nonlinear_arith)
                requires
                    p.slots_view().len() == (p.info().len + 16383) / 16384,
            ;
        }
        if bytes_eq(digest.as_slice(), self.pieces[index].piece_info.hash.as_slice()) {
            let data = self.pieces[index].data();
            let offset = self.pieces[index].piece_info.offset;
            let writes = file_writes(self.files.as_slice(), offset, data.as_slice());
            self.pieces[index].mark_done();
            proof {
                let q = self.pieces@[index as int];
                assert(q.model() =~= (PieceModel { pending: false, ..old_model }));
                assert forall|i: int| 0 <= i < self.pieces@.len() implies {
                    &&& (#[trigger] self.pieces@[i]).wf()
                    &&& self.pieces@[i].info().index == i
                    &&& self.pieces@[i].info().offset + self.pieces@[i].info().len <= u64::MAX
                    &&& self.bitfield@[i] ==> !self.pieces@[i].info().pending
                } by {}
            }
            InsertOutcome::Verified(writes)
        } else {
            self.pieces[index].reset();
            proof {
                let q = self.pieces@[index as int];
                assert(q.model() =~= (PieceModel {
                    slots: empty_slots(old_model.slots.len()),
                    ..old_model
                }));
            }
            InsertOutcome::HashMismatch
        }
    }

    /// Receives `block`: stores it in its piece, and when it completes the
    /// piece, checks the piece's hash (see `finish_piece`).
    pub fn insert_block(&mut self, block: Block) -> (r: Result<InsertOutcome, PieceError>)
        requires
            old(self).wf(),
        ensures
            final(self).wf(),
            final(self).own_bits() == old(self).own_bits(),
            final(self).files_view() == old(self).files_view(),
            final(self).pieces_view().len() == old(self).pieces_view().len(),
            ({
                let i = block.block_info.piece_index as int;
                let begin = block.block_info.begin as int;
                let data = block.data@;
                &&& i >= old(self).pieces_view().len() ==> r == Err::<InsertOutcome, PieceError>(
                    PieceError::UnknownPiece)
                &&& i >= old(self).pieces_view().len() ==> final(self).pieces_view() == old(self).pieces_view()
                &&& i < old(self).pieces_view().len() ==> {
                    let p = old(self).piece_model(i);
                    let s = p.slots.update(slot_of(begin), Some(data));
                    let accepted = p.pending && block_fits(p.len as int, begin, data.len() as int)
                        && p.slots[slot_of(begin)] is None;
                    &&& forall|j: int|
                        0 <= j < old(self).pieces_view().len() && j != i ==> #[trigger] final(self).pieces_view()[j]
                            == old(self).pieces_view()[j]
                    &&& final(self).piece_model(i) == insert_step(p, begin, data)
                    &&& !p.pending ==> r == Err::<InsertOutcome, PieceError>(PieceError::NotPending)
                    &&& p.pending && !block_fits(p.len as int, begin, data.len() as int) ==> r
                        == Err::<InsertOutcome, PieceError>(PieceError::InvalidBlock)
                    &&& p.pending && block_fits(p.len as int, begin, data.len() as int)
                        && p.slots[slot_of(begin)] is Some ==> r == Err::<InsertOutcome, PieceError>(
                        PieceError::DuplicateBlock)
                    &&& (r matches Ok(InsertOutcome::Stored)) <==> accepted && !all_filled(s)
                    &&& (r matches Ok(InsertOutcome::Verified(_))) <==> accepted && all_filled(s)
                        && sha1_of(concat_slots(s)) == p.hash
                    &&& (r matches Ok(InsertOutcome::HashMismatch)) <==> accepted && all_filled(s)
                        && sha1_of(concat_slots(s)) != p.hash
                    &&& r matches Ok(InsertOutcome::Verified(w)) ==> writes_for(
                        old(self).files_view(),
                        old(self).pieces_view()[i].info().offset as int,
                        concat_slots(s),
                        w@,
                    )
                }
            }),
    {
        let i = block.block_info.piece_index as usize;
        if i >= self.pieces.len() {
            return Err(PieceError::UnknownPiece);
        }
        if !self.pieces[i].piece_info.pending {
            return Err(PieceError::NotPending);
        }
        let ghost old_self = *self;
        let ghost p = self.piece_model(i as int);
        let ghost begin = block.block_info.begin as int;
        let ghost data = block.data@;
        let res = self.pieces[i].insert_block(block);
        match res {
            Err(e) => {
                proof {
                    assert(self.pieces@ =~= old_self.pieces@);
                }
                return Err(e);
            },
            Ok(()) => {},
        }
        proof {
            assert(self.pieces@[i as int].model() =~= (PieceModel {
                slots: p.slots.update(slot_of(begin), Some(data)),
                ..p
            }));
        }
        if !self.pieces[i].is_complete() {
            return Ok(InsertOutcome::Stored);
        }
        let whole = self.pieces[i].data();
        let digest = sha1_digest(whole.as_slice());
        let out = self.finish_piece(i, &digest);
        Ok(out)
    }

    /// Records that piece `index` was written to the files: its bit is set if
    /// the piece passed its hash check. Returns whether the bit was newly set.
    pub fn confirm_written(&mut self, index: usize) -> (r: bool)
        requires
            old(self).wf(),
            index < old(self).pieces_view().len(),
        ensures
            final(self).wf(),
            final(self).pieces_view() == old(self).pieces_view(),
            final(self).files_view() == old(self).files_view(),
            r == (!old(self).piece_model(index as int).pending && !old(self).own_bits()[index as int]),
            final(self).own_bits() == old(self).own_bits().update(
                index as int,
                old(self).own_bits()[index as int] || r,
            ),
    {
        if !self.pieces[index].piece_info.pending && !self.bitfield[index] {
            self.bitfield.set(index, true);
            true
        } else {
            proof {
                assert(self.bitfield@ =~= self.bitfield@.update(index as int, self.bitfield@[index as int]));
            }
            false
        }
    }

    /// Piece `i` is one to request from a peer whose bitfield is `peer`: the
    /// peer has it, we do not, it waits for blocks, and some of its blocks
    /// were not requested yet.
    pub open spec fn eligible(&self, peer: Seq<bool>, i: int) -> bool {
        &&& 0 <= i < peer.len()
        &&& i < self.pieces_view().len()
        &&& peer[i]
        &&& !self.own_bits()[i]
        &&& self.pieces_view()[i].info().pending
        &&& self.pieces_view()[i].cursor() < self.pieces_view()[i].info().len
    }

    /// Picks the next block to request from a peer whose bitfield is `peer`:
    /// the first block not yet requested of the lowest-indexed eligible piece.
    pub fn pick_piece(&mut self, peer: &[bool]) -> (r: Option<BlockInfo>)
        requires
            old(self).wf(),
        ensures
            final(self).wf(),
            final(self).own_bits() == old(self).own_bits(),
            final(self).files_view() == old(self).files_view(),
            final(self).pieces_view().len() == old(self).pieces_view().len(),
            r is None <==> forall|i: int| 0 <= i < peer@.len() ==> !old(self).eligible(peer@, i),
            r is None ==> final(self).pieces_view() == old(self).pieces_view(),
            r matches Some(b) ==> {
                let i = b.piece_index as int;
                let p = old(self).pieces_view()[i];
                &&& old(self).eligible(peer@, i)
                &&& forall|j: int| 0 <= j < i ==> !old(self).eligible(peer@, j)
                &&& b.begin == p.cursor()
                &&& b.length == spec_block_len(p.info().len as int, p.cursor() as int)
                &&& final(self).pieces_view()[i].cursor() == p.cursor() + b.length
                &&& final(self).pieces_view()[i].model() == p.model()
                &&& final(self).pieces_view()[i].info() == p.info()
                &&& forall|j: int|
                    0 <= j < old(self).pieces_view().len() && j != i ==> #[trigger] final(self).pieces_view()[j]
                        == old(self).pieces_view()[j]
            },
    {
        let n = if peer.len() < self.pieces.len() { peer.len() } else { self.pieces.len() };
        let mut i: usize = 0;
        while i < n
            invariant
                *self == *old(self),
                self.wf(),
                n == peer@.len() || n == self.pieces@.len(),
                n <= peer@.len(),
                n <= self.pieces@.len(),
                i <= n,
                forall|j: int| 0 <= j < i ==> !self.eligible(peer@, j),
            decreases n - i,
        {
            if peer[i] && !self.bitfield[i] && self.pieces[i].piece_info.pending
                && self.pieces[i].next_offset < self.pieces[i].piece_info.len {
                let b = self.pieces[i].request_block();
                assert(self.eligible(peer@, i as int));
                let ghost old_self = *self;
                self.pieces[i].advance();
                proof {
                    assert forall|j: int| 0 <= j < self.pieces@.len() implies {
                        &&& (#[trigger] self.pieces@[j]).wf()
                        &&& self.pieces@[j].info().index == j
                        &&& self.pieces@[j].info().offset + self.pieces@[j].info().len <= u64::MAX
                        &&& self.bitfield@[j] ==> !self.pieces@[j].info().pending
                    } by {
                        if j != i {
                            assert(self.pieces@[j] == old_self.pieces@[j]);
                        }
                    }
                }
                return b;
            }
            i = i + 1;
        }
        proof {
            assert forall|j: int| 0 <= j < peer@.len() implies !self.eligible(peer@, j) by {
                if j >= n {
                    assert(j >= self.pieces@.len());
                }
            }
        }
        None
    }

    /// Whether a bitfield payload of `byte_len` bytes has one bit per piece,
    /// padded to whole bytes.
    pub fn match_bitfield_len(&self, byte_len: usize) -> (r: bool)
        ensures
            r == (byte_len == crate::block::ceil_div(self.own_bits().len() as int, 8)),
    {
        byte_len == crate::bitfield::bitfield_len(self.bitfield.len())
    }
}

proof fn lemma_count_le(s: Seq<bool>)
    ensures
        count_true(s) <= s.len(),
    decreases s.len(),
{
    if s.len() > 0 {
        lemma_count_le(s.drop_last());
    }
}

/// Length of piece `i` of a torrent of `total` bytes cut into pieces of
/// `piece_length` bytes: the last one holds what is left.
pub open spec fn piece_len_of(total: int, piece_length: int, i: int) -> int {
    if total - i * piece_length < piece_length {
        total - i * piece_length
    } else {
        piece_length
    }
}

/// The pieces of a torrent tile its bytes: every byte `p` lies in piece
/// `p / piece_length`, which is one of the pieces, and in no other piece.
pub proof fn lemma_pieces_cover(total: int, piece_length: int, p: int, j: int)
    requires
        piece_length > 0,
        0 <= p < total,
    ensures
        0 <= p / piece_length < crate::block::ceil_div(total, piece_length),
        (p / piece_length) * piece_length <= p < (p / piece_length) * piece_length + piece_len_of(
            total,
            piece_length,
            p / piece_length,
        ),
        0 <= j && j * piece_length <= p < j * piece_length + piece_len_of(total, piece_length, j)
            ==> j == p / piece_length,
{
    let i = p / piece_length;
    assert(0 <= i && i * piece_length <= p < i * piece_length + piece_length) by (nonlinear_arith)
        requires
            piece_length > 0,
            0 <= p,
            i == p / piece_length,
    ;
    assert(i < (total + piece_length - 1) / piece_length) by (nonlinear_arith)
        requires
            piece_length > 0,
            0 <= p < total,
            i == p / piece_length,
            i * piece_length <= p,
    ;
    if 0 <= j && j * piece_length <= p && p < j * piece_length + piece_len_of(total, piece_length, j) {
        assert(p < j * piece_length + piece_length);
        assert(j == i) by (nonlinear_arith)
            requires
                piece_length > 0,
                0 <= j,
                j * piece_length <= p < j * piece_length + piece_length,
                i * piece_length <= p < i * piece_length + piece_length,
        ;
    }
}

} // verus!
