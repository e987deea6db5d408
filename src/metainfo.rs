//! What the library takes from a metainfo document: the file layout, the
//! piece count, the info-hash and the tracker list.
use crate::block::ceil_div;
use crate::piece::sha1_of;
use crate::storage::{contiguous, total_length, FileInfo};
use vstd::prelude::*;

verus! {

/// A DHT node: host and port.
#[derive(Debug, Clone)]
pub struct Node(pub String, pub i64);

/// One file of a multi-file torrent: its path segments and its length.
#[derive(Debug, Clone)]
pub struct File {
    pub path: Vec<String>,
    pub length: u64,
    pub md5sum: Option<String>,
}

/// Sum of the lengths.
pub open spec fn sum_lengths(lengths: Seq<u64>) -> int
    decreases lengths.len(),
{
    if lengths.len() == 0 {
        0
    } else {
        sum_lengths(lengths.drop_last()) + lengths.last()
    }
}

/// Lays files of the given lengths one after the other from offset 0:
/// file `i` starts where file `i - 1` ends. `paths` and `lengths` go together.
pub fn layout_files(paths: Vec<String>, lengths: &[u64]) -> (r: Vec<FileInfo>)
    requires
        paths@.len() == lengths@.len(),
        sum_lengths(lengths@) <= u64::MAX,
    ensures
        r@.len() == lengths@.len(),
        contiguous(r@),
        total_length(r@) == sum_lengths(lengths@),
        forall|i: int| 0 <= i < r@.len() ==> (#[trigger] r@[i]).length == lengths@[i],
        forall|i: int| 0 <= i < r@.len() ==> (#[trigger] r@[i]).path@ == paths@[i]@,
        forall|i: int| 0 <= i < r@.len() ==> (#[trigger] r@[i]).end() <= u64::MAX,
{
    let mut r: Vec<FileInfo> = Vec::with_capacity(lengths.len());
    let mut offset: u64 = 0;
    let mut paths = paths;
    let ghost all_paths = paths@;
    let n = lengths.len();
    let mut i: usize = 0;
    while i < n
        invariant
            n == lengths@.len(),
            all_paths.len() == n,
            paths@.len() == n - i,
            forall|k: int| 0 <= k < paths@.len() ==> paths@[k] == all_paths[i + k],
            sum_lengths(lengths@) <= u64::MAX,
            i <= n,
            r@.len() == i,
            offset == sum_lengths(lengths@.subrange(0, i as int)),
            contiguous(r@),
            total_length(r@) == offset,
            forall|k: int| 0 <= k < i ==> (#[trigger] r@[k]).length == lengths@[k],
            forall|k: int| 0 <= k < i ==> (#[trigger] r@[k]).path@ == all_paths[k]@,
            forall|k: int| 0 <= k < i ==> (#[trigger] r@[k]).end() <= u64::MAX,
        decreases n - i,
    {
        proof {
            assert(lengths@.subrange(0, i + 1).drop_last() =~= lengths@.subrange(0, i as int));
            lemma_sum_prefix_le(lengths@, i + 1);
        }
        let path = paths.remove(0);
        let len = lengths[i];
        let ghost before = r@;
        r.push(FileInfo { path, offset, length: len });
        proof {
            assert(r@[i as int].path@ == all_paths[i as int]@);
            assert forall|k: int| 0 < k < r@.len() implies #[trigger] r@[k].offset == r@[k - 1].end() by {
                if k < i {
                    assert(r@[k] == before[k] && r@[k - 1] == before[k - 1]);
                } else {
                    assert(r@[k - 1] == before[k - 1]);
                    assert(before.last() == before[k - 1]);
                }
            }
        }
        offset = offset + len;
        i = i + 1;
    }
    assert(lengths@.subrange(0, n as int) =~= lengths@);
    r
}

/// A prefix sums to no more than the whole.
proof fn lemma_sum_prefix_le(s: Seq<u64>, j: int)
    requires
        0 <= j <= s.len(),
    ensures
        sum_lengths(s.subrange(0, j)) <= sum_lengths(s),
    decreases s.len() - j,
{
    if j < s.len() {
        lemma_sum_prefix_le(s, j + 1);
        assert(s.subrange(0, j + 1).drop_last() =~= s.subrange(0, j));
    } else {
        assert(s.subrange(0, j) =~= s);
    }
}

/// Total length of the files.
pub fn total_size(lengths: &[u64]) -> (r: Option<u64>)
    ensures
        r is Some <==> sum_lengths(lengths@) <= u64::MAX,
        r matches Some(t) ==> t == sum_lengths(lengths@),
{
    let mut total: u64 = 0;
    let mut i: usize = 0;
    while i < lengths.len()
        invariant
            i <= lengths@.len(),
            total == sum_lengths(lengths@.subrange(0, i as int)),
        decreases lengths@.len() - i,
    {
        assert(lengths@.subrange(0, i + 1).drop_last() =~= lengths@.subrange(0, i as int));
        if lengths[i] > u64::MAX - total {
            proof {
                lemma_sum_prefix_le(lengths@, i + 1);
            }
            return None;
        }
        total = total + lengths[i];
        i = i + 1;
    }
    assert(lengths@.subrange(0, lengths@.len() as int) =~= lengths@);
    Some(total)
}

/// Number of pieces of a torrent of `total` bytes: `ceil(total / piece_length)`;
/// the last piece may be shorter.
pub fn total_pieces(total: u64, piece_length: u64) -> (r: u64)
    requires
        piece_length > 0,
    ensures
        r == ceil_div(total as int, piece_length as int),
{
    let q = total / piece_length;
    assert(total % piece_length != 0 ==> q < u64::MAX) by (nonlinear_arith)
        requires
            piece_length > 0,
            q == total / piece_length,
            total <= u64::MAX,
    {
        if total % piece_length != 0 {
            assert(piece_length >= 2);
        }
    }
    let r = if total % piece_length != 0 { q + 1 } else { q };
    proof {
        let t = total as int;
        let d = piece_length as int;
        let m = t % d;
        vstd::arithmetic::div_mod::lemma_fundamental_div_mod(t, d);
        assert(0 <= m < d) by {
            vstd::arithmetic::div_mod::lemma_mod_bound(t, d);
        }
        if m == 0 {
            vstd::arithmetic::div_mod::lemma_fundamental_div_mod_converse(t + d - 1, d, q as int, d - 1);
        } else {
            assert(t + d - 1 == (q + 1) * d + (m - 1)) by (nonlinear_arith)
                requires
                    t == d * q + m,
            ;
            vstd::arithmetic::div_mod::lemma_fundamental_div_mod_converse(t + d - 1, d, q + 1, m - 1);
        }
    }
    r
}

/// The info-hash: the SHA-1 of the bencoded `info` dictionary.
pub fn info_hash(bencoded_info: &[u8]) -> (r: crate::message::Hash)
    ensures
        r@ == sha1_of(bencoded_info@),
{
    crate::piece::sha1_digest(bencoded_info)
}

/// The first URL of each tier, in tier order; empty tiers give none.
pub open spec fn first_of_tiers(tiers: Seq<Vec<String>>) -> Seq<Seq<char>>
    decreases tiers.len(),
{
    if tiers.len() == 0 {
        Seq::empty()
    } else {
        first_of_tiers(tiers.drop_last()) + if tiers.last()@.len() > 0 {
            seq![tiers.last()@[0]@]
        } else {
            Seq::empty()
        }
    }
}

pub open spec fn urls_view(v: Seq<String>) -> Seq<Seq<char>> {
    v.map_values(|s: String| s@)
}

/// The trackers to announce to: the `announce` URL when there is one, else
/// the first URL of each tier of `announce-list` (empty tiers skipped).
pub fn tracker_urls(announce: Option<String>, announce_list: Option<Vec<Vec<String>>>) -> (r: Vec<String>)
    ensures
        announce matches Some(a) ==> urls_view(r@) == seq![a@],
        announce is None && announce_list is None ==> r@.len() == 0,
        announce is None && announce_list is Some ==> urls_view(r@) == first_of_tiers(
            announce_list->Some_0@,
        ),
{
    match announce {
        Some(a) => {
            let mut r: Vec<String> = Vec::new();
            let ghost av = a@;
            r.push(a);
            assert(urls_view(r@) =~= seq![av]);
            r
        },
        None => match announce_list {
            None => Vec::new(),
            Some(tiers) => {
                let mut r: Vec<String> = Vec::new();
                let mut t: usize = 0;
                while t < tiers.len()
                    invariant
                        t <= tiers@.len(),
                        urls_view(r@) == first_of_tiers(tiers@.subrange(0, t as int)),
                    decreases tiers@.len() - t,
                {
                    let ghost sub = tiers@.subrange(0, t + 1);
                    assert(sub.drop_last() =~= tiers@.subrange(0, t as int));
                    assert(sub.last() == tiers@[t as int]);
                    let ghost before = r@;
                    if tiers[t].len() > 0 {
                        let first = tiers[t][0].clone();
                        r.push(first);
                        assert(urls_view(r@) =~= urls_view(before) + seq![tiers@[t as int]@[0]@]);
                    } else {
                        assert(urls_view(r@) =~= urls_view(before) + Seq::<Seq<char>>::empty());
                    }
                    t = t + 1;
                }
                assert(tiers@.subrange(0, tiers@.len() as int) =~= tiers@);
                r
            },
        },
    }
}

} // verus!
