//! Bitfields: one bit per piece, most significant bit first, padded with zeros.
use crate::block::ceil_div;
use vstd::prelude::*;

verus! {

/// Bit `j` (0 = most significant) of byte `b`.
pub open spec fn bit_at(b: u8, j: u8) -> bool {
    ((b >> ((7 - j) as u8)) & 1u8) == 1u8
}

/// Bit `i` of a packed bitfield.
pub open spec fn bit_of(bytes: Seq<u8>, i: int) -> bool {
    bit_at(bytes[i / 8], (i % 8) as u8)
}

/// Number of bytes of a bitfield of `piece_count` bits.
pub fn bitfield_len(piece_count: usize) -> (r: usize)
    ensures
        r == ceil_div(piece_count as int, 8),
{
    let r = piece_count / 8 + if piece_count % 8 != 0 { 1 } else { 0 };
    assert(r == ceil_div(piece_count as int, 8)) by (nonlinear_arith)
        requires
            r == piece_count / 8 + if piece_count % 8 != 0 { 1int } else { 0int },
    {}
    r
}

/// The first `piece_count` bits of `bytes`.
pub fn from_bytes(bytes: &[u8], piece_count: usize) -> (r: Vec<bool>)
    requires
        piece_count <= bytes@.len() * 8,
    ensures
        r@.len() == piece_count,
        forall|i: int| 0 <= i < piece_count ==> r@[i] == bit_of(bytes@, i),
{
    let mut r: Vec<bool> = Vec::with_capacity(piece_count);
    let mut i: usize = 0;
    while i < piece_count
        invariant
            i <= piece_count <= bytes@.len() * 8,
            r@.len() == i,
            forall|k: int| 0 <= k < i ==> r@[k] == bit_of(bytes@, k),
        decreases piece_count - i,
    {
        let b = bytes[i / 8];
        let j = (i % 8) as u8;
        r.push(((b >> (7u8 - j)) & 1u8) == 1u8);
        i = i + 1;
    }
    r
}

proof fn lemma_bit_set(b: u8, j: u8, k: u8)
    requires
        j < 8,
        k < 8,
    ensures
        bit_at(b | (0x80u8 >> j), k) == (k == j || bit_at(b, k)),
{
    assert((((b | (0x80u8 >> j)) >> ((7 - k) as u8)) & 1u8 == 1u8) == (k == j || ((b >> ((7
        - k) as u8)) & 1u8) == 1u8)) by (bit_vector)
        requires
            j < 8,
            k < 8,
    ;
}

proof fn lemma_bit_zero(k: u8)
    requires
        k < 8,
    ensures
        !bit_at(0u8, k),
{
    assert(((0u8 >> ((7 - k) as u8)) & 1u8) != 1u8) by (bit_vector)
        requires
            k < 8,
    ;
}

/// Packs `bits` into bytes, most significant bit first; the padding bits are zero.
pub fn to_bytes(bits: &[bool]) -> (r: Vec<u8>)
    ensures
        r@.len() == ceil_div(bits@.len() as int, 8),
        forall|i: int| 0 <= i < bits@.len() ==> bit_of(r@, i) == bits@[i],
        forall|i: int| bits@.len() <= i < r@.len() * 8 ==> !bit_of(r@, i),
{
    let n = bits.len();
    let nbytes = bitfield_len(n);
    let mut r: Vec<u8> = Vec::with_capacity(nbytes);
    let mut k: usize = 0;
    while k < nbytes
        invariant
            n == bits@.len(),
            nbytes == ceil_div(n as int, 8),
            k <= nbytes,
            r@.len() == k,
            forall|i: int| 0 <= i < k * 8 ==> bit_of(r@, i) == (i < n && bits@[i]),
        decreases nbytes - k,
    {
        let mut b: u8 = 0;
        let mut j: u8 = 0;
        proof {
            assert forall|t: u8| t < 8 implies !bit_at(b, t) by {
                lemma_bit_zero(t);
            }
        }
        while j < 8
            invariant
                n == bits@.len(),
                nbytes == ceil_div(n as int, 8),
                k < nbytes,
                j <= 8,
                forall|t: u8| t < 8 ==> bit_at(b, t) == (t < j && k * 8 + t < n && bits@[k * 8 + t]),
            decreases 8 - j,
        {
            assert(k * 8 + j < nbytes * 8) by (nonlinear_arith)
                requires
                    k < nbytes,
                    j < 8,
            ;
            let idx: usize = k * 8 + j as usize;
            if idx < n && bits[idx] {
                let old_b = b;
                b = b | (0x80u8 >> j);
                proof {
                    assert forall|t: u8| t < 8 implies bit_at(b, t) == (t < j + 1 && k * 8 + t < n
                        && bits@[k * 8 + t]) by {
                        lemma_bit_set(old_b, j, t);
                    }
                }
            }
            j = j + 1;
        }
        let ghost prev = r@;
        r.push(b);
        proof {
            assert forall|i: int| 0 <= i < (k + 1) * 8 implies bit_of(r@, i) == (i < n
                && bits@[i]) by {
                if i < k * 8 {
                    assert(i / 8 < k) by (nonlinear_arith)
                        requires
                            0 <= i < k * 8,
                    ;
                    assert(r@[i / 8] == prev[i / 8]);
                } else {
                    assert(i / 8 == k && k * 8 + (i % 8) == i) by (nonlinear_arith)
                        requires
                            k * 8 <= i < (k + 1) * 8,
                    ;
                    let t = (i % 8) as u8;
                    assert(bit_at(b, t) == (k * 8 + t < n && bits@[k * 8 + t]));
                }
            }
        }
        k = k + 1;
    }
    proof {
        assert(n <= nbytes * 8) by (nonlinear_arith)
            requires
                nbytes == ceil_div(n as int, 8),
        ;
    }
    r
}

} // verus!
