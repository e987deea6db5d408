//! The torrent as one byte array laid over an ordered list of files.
use crate::block::copy_range;
use std::ops::Range;
use vstd::prelude::*;

verus! {

/// One destination file: where it lives and which bytes of the torrent it holds.
#[derive(Clone, Debug)]
pub struct FileInfo {
    pub path: String,
    /// Offset of the file's first byte within the torrent.
    pub offset: u64,
    pub length: u64,
}

impl FileInfo {
    /// Offset one past the file's last byte within the torrent.
    pub open spec fn end(&self) -> int {
        self.offset + self.length
    }

    pub fn get_offset(&self) -> (r: u64)
        ensures
            r == self.offset,
    {
        self.offset
    }

    pub fn get_length(&self) -> (r: u64)
        ensures
            r == self.length,
    {
        self.length
    }

    /// The bytes of the torrent that the file holds.
    pub fn byte_range(&self) -> (r: Range<u64>)
        requires
            self.end() <= u64::MAX,
        ensures
            r.start == self.offset,
            r.end == self.end(),
    {
        Range { start: self.offset, end: self.offset + self.length }
    }
}

/// Layout of a torrent on disk.
#[derive(Clone, Debug)]
pub struct DiskInfo {
    /// The number of pieces in the torrent.
    pub piece_count: u32,
    /// The length of a piece.
    pub piece_len: u32,
    /// The length of the last piece.
    pub last_piece_length: u32,
    /// The files of the torrent, in order.
    pub files: Vec<FileInfo>,
    /// Directory the files are rooted at.
    pub download_dir: Option<String>,
}

/// Bytes to be written into one file at an offset within that file.
#[derive(Clone, Debug)]
pub struct FileWrite {
    /// Index of the file in the torrent's file list.
    pub file_index: usize,
    /// Offset within the file.
    pub file_offset: u64,
    pub data: Vec<u8>,
}

/// No file reaches past the largest offset.
pub open spec fn files_fit(files: Seq<FileInfo>) -> bool {
    forall|i: int| 0 <= i < files.len() ==> #[trigger] files[i].end() <= u64::MAX
}

/// The files follow each other without gaps, from offset 0.
pub open spec fn contiguous(files: Seq<FileInfo>) -> bool {
    &&& files.len() > 0 ==> files[0].offset == 0
    &&& forall|i: int| 0 < i < files.len() ==> #[trigger] files[i].offset == files[i - 1].end()
}

/// Length of the torrent that the files hold.
pub open spec fn total_length(files: Seq<FileInfo>) -> int {
    if files.len() == 0 {
        0
    } else {
        files.last().end()
    }
}

pub open spec fn max(a: int, b: int) -> int {
    if a >= b {
        a
    } else {
        b
    }
}

pub open spec fn min(a: int, b: int) -> int {
    if a <= b {
        a
    } else {
        b
    }
}

/// The bytes `[offset, offset + len)` of the torrent meet file `f`.
pub open spec fn overlaps(f: FileInfo, offset: int, len: int) -> bool {
    max(offset, f.offset as int) < min(offset + len, f.end())
}

/// `w` writes into `f` exactly the part of `data` (which starts at torrent
/// offset `offset`) that falls within `f`.
pub open spec fn write_matches(w: FileWrite, f: FileInfo, offset: int, data: Seq<u8>) -> bool {
    let s = max(offset, f.offset as int);
    let e = min(offset + data.len(), f.end());
    &&& s < e
    &&& w.file_offset == s - f.offset
    &&& w.data@ == data.subrange(s - offset, e - offset)
}

/// `r` is the list of writes that lays `data`, starting at torrent offset
/// `offset`, over `files`: one per file that it meets, in file order.
pub open spec fn writes_for(files: Seq<FileInfo>, offset: int, data: Seq<u8>, r: Seq<FileWrite>) -> bool {
    &&& forall|k: int|
        0 <= k < r.len() ==> #[trigger] r[k].file_index < files.len() && write_matches(
            r[k],
            files[r[k].file_index as int],
            offset,
            data,
        )
    &&& forall|k1: int, k2: int|
        0 <= k1 < k2 < r.len() ==> #[trigger] r[k1].file_index < #[trigger] r[k2].file_index
    &&& forall|i: int|
        0 <= i < files.len() && #[trigger] overlaps(files[i], offset, data.len() as int) ==> exists|
            k: int,
        |
            0 <= k < r.len() && r[k].file_index == i
}

/// Splits `data`, the bytes of the torrent from `offset` on, at file boundaries.
pub fn file_writes(files: &[FileInfo], offset: u64, data: &[u8]) -> (r: Vec<FileWrite>)
    requires
        files_fit(files@),
        offset + data@.len() <= u64::MAX,
    ensures
        writes_for(files@, offset as int, data@, r@),
{
    let mut r: Vec<FileWrite> = Vec::new();
    let dlen = data.len();
    let piece_end: u64 = offset + dlen as u64;
    let mut i: usize = 0;
    while i < files.len()
        invariant
            dlen == data@.len(),
            files_fit(files@),
            piece_end == offset + data@.len(),
            i <= files@.len(),
            forall|k: int|
                0 <= k < r@.len() ==> #[trigger] r@[k].file_index < i && write_matches(
                    r@[k],
                    files@[r@[k].file_index as int],
                    offset as int,
                    data@,
                ),
            forall|k1: int, k2: int|
                0 <= k1 < k2 < r@.len() ==> #[trigger] r@[k1].file_index
                    < #[trigger] r@[k2].file_index,
            forall|j: int|
                0 <= j < i && #[trigger] overlaps(files@[j], offset as int, data@.len() as int)
                    ==> exists|k: int| 0 <= k < r@.len() && r@[k].file_index == j,
        decreases files@.len() - i,
    {
        let f = &files[i];
        assert(f.end() <= u64::MAX);
        let file_end: u64 = f.offset + f.length;
        let s: u64 = if offset >= f.offset { offset } else { f.offset };
        let e: u64 = if piece_end <= file_end { piece_end } else { file_end };
        if s < e {
            let bytes = copy_range(data, (s - offset) as usize, (e - offset) as usize);
            let w = FileWrite { file_index: i, file_offset: s - f.offset, data: bytes };
            let ghost prev = r@;
            assert(write_matches(w, files@[i as int], offset as int, data@));
            r.push(w);
            proof {
                assert(r@[prev.len() as int] == w);
                assert(forall|k: int| 0 <= k < prev.len() ==> r@[k] == prev[k]);
                assert forall|j: int|
                    0 <= j < i + 1 && #[trigger] overlaps(
                        files@[j],
                        offset as int,
                        data@.len() as int,
                    ) implies exists|k: int| 0 <= k < r@.len() && r@[k].file_index == j by {
                    if j < i {
                        let k = choose|k: int| 0 <= k < prev.len() && prev[k].file_index == j;
                        assert(r@[k] == prev[k]);
                    } else {
                        assert(r@[prev.len() as int].file_index == j);
                    }
                }
            }
        }
        i = i + 1;
    }
    r
}

/// Some file of a gap-free layout holds each byte of the torrent.
pub proof fn lemma_file_containing(files: Seq<FileInfo>, p: int)
    requires
        contiguous(files),
        0 <= p < total_length(files),
    ensures
        exists|i: int| 0 <= i < files.len() && files[i].offset <= p < #[trigger] files[i].end(),
    decreases files.len(),
{
    let n = files.len();
    if files[n - 1].offset <= p {
        assert(files[n - 1].offset <= p < files[n - 1].end());
    } else {
        let prefix = files.drop_last();
        assert(n >= 2) by {
            if n == 1 {
                assert(files[0].offset == 0);
            }
        }
        assert(files[n - 1].offset == files[n - 2].end());
        assert(prefix[n - 2] == files[n - 2]);
        assert(contiguous(prefix)) by {
            assert forall|i: int| 0 < i < prefix.len() implies #[trigger] prefix[i].offset
                == prefix[i - 1].end() by {
                assert(files[i].offset == files[i - 1].end());
            }
        }
        lemma_file_containing(prefix, p);
        let i = choose|i: int| 0 <= i < prefix.len() && prefix[i].offset <= p < #[trigger] prefix[i].end();
        assert(files[i] == prefix[i]);
    }
}

/// With files that follow each other without gaps, the writes of a piece put
/// every byte of the piece into the file that holds its offset, at the place
/// within that file that corresponds to the offset.
pub proof fn lemma_every_byte_written(
    files: Seq<FileInfo>,
    offset: int,
    data: Seq<u8>,
    r: Seq<FileWrite>,
    p: int,
)
    requires
        contiguous(files),
        files_fit(files),
        0 <= offset,
        offset + data.len() <= total_length(files),
        writes_for(files, offset, data, r),
        offset <= p < offset + data.len(),
    ensures
        exists|k: int|
            #![trigger r[k]]
            0 <= k < r.len() && {
                let f = files[r[k].file_index as int];
                let at = p - f.offset - r[k].file_offset;
                &&& f.offset <= p < f.end()
                &&& 0 <= at < r[k].data@.len()
                &&& r[k].data@[at] == data[p - offset]
            },
{
    lemma_file_containing(files, p);
    let i = choose|i: int| 0 <= i < files.len() && files[i].offset <= p < #[trigger] files[i].end();
    assert(overlaps(files[i], offset, data.len() as int));
    let k = choose|k: int| 0 <= k < r.len() && r[k].file_index == i;
    let f = files[i];
    let w = r[k];
    assert(write_matches(w, f, offset, data));
    let s = max(offset, f.offset as int);
    let e = min(offset + data.len(), f.end());
    assert(s <= p < e);
    assert(w.data@[p - s] == data.subrange(s - offset, e - offset)[p - s]);
    assert(w.data@[p - s] == data[p - offset]);
    assert(p - f.offset - w.file_offset == p - s);
}

/// A list of ranges, to intersect.
pub struct RangeExt {
    pub ranges: Vec<Range<u64>>,
}

impl RangeExt {
    pub fn new(ranges: Vec<Range<u64>>) -> (r: Self)
        ensures
            r.ranges@ == ranges@,
    {
        Self { ranges }
    }

    /// The intersection of all the ranges: the largest start to the smallest
    /// end (empty, with end below start, when they do not meet).
    pub fn intersection(&self) -> (r: Range<u64>)
        requires
            self.ranges@.len() > 0,
        ensures
            exists|i: int| 0 <= i < self.ranges@.len() && r.start == self.ranges@[i].start,
            exists|i: int| 0 <= i < self.ranges@.len() && r.end == self.ranges@[i].end,
            forall|i: int| 0 <= i < self.ranges@.len() ==> r.start >= #[trigger] self.ranges@[i].start,
            forall|i: int| 0 <= i < self.ranges@.len() ==> r.end <= #[trigger] self.ranges@[i].end,
    {
        let mut start = self.ranges[0].start;
        let mut end = self.ranges[0].end;
        let mut i: usize = 0;
        while i < self.ranges.len()
            invariant
                0 < self.ranges@.len(),
                i <= self.ranges@.len(),
                exists|k: int| 0 <= k < self.ranges@.len() && start == self.ranges@[k].start,
                exists|k: int| 0 <= k < self.ranges@.len() && end == self.ranges@[k].end,
                forall|k: int| 0 <= k < i ==> start >= #[trigger] self.ranges@[k].start,
                forall|k: int| 0 <= k < i ==> end <= #[trigger] self.ranges@[k].end,
            decreases self.ranges@.len() - i,
        {
            let s = self.ranges[i].start;
            let e = self.ranges[i].end;
            if s > start {
                start = s;
            }
            if e < end {
                end = e;
            }
            i = i + 1;
        }
        Range { start, end }
    }
}

} // verus!
