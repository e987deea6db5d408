//! Reading a tracker's decoded answer: its fields, and its peer list in
//! compact or dictionary form.
use crate::piece::bytes_eq;
use crate::tracker::{compact_peer_ok, decimal, parse_compact_peers, put_decimal, PeerAddr, Peers, TrackerResponse};
use vstd::prelude::*;

verus! {

/// A decoded bencode value.
#[derive(Debug)]
pub enum Bencode {
    Int(i64),
    Bytes(Vec<u8>),
    List(Vec<Bencode>),
    Dict(Vec<(Vec<u8>, Bencode)>),
}

/// The key `failure reason`.
pub open spec fn key_failure_reason() -> Seq<u8> {
    seq![102u8, 97, 105, 108, 117, 114, 101, 32, 114, 101, 97, 115, 111, 110]
}

fn key_failure_reason_bytes() -> (r: Vec<u8>)
    ensures
        r@ == key_failure_reason(),
{
    let r: Vec<u8> = vec![102u8, 97, 105, 108, 117, 114, 101, 32, 114, 101, 97, 115, 111, 110];
    assert(r@ =~= key_failure_reason());
    r
}

/// The key `warning message`.
pub open spec fn key_warning_message() -> Seq<u8> {
    seq![119u8, 97, 114, 110, 105, 110, 103, 32, 109, 101, 115, 115, 97, 103, 101]
}

fn key_warning_message_bytes() -> (r: Vec<u8>)
    ensures
        r@ == key_warning_message(),
{
    let r: Vec<u8> = vec![119u8, 97, 114, 110, 105, 110, 103, 32, 109, 101, 115, 115, 97, 103, 101];
    assert(r@ =~= key_warning_message());
    r
}

/// The key `complete`.
pub open spec fn key_complete() -> Seq<u8> {
    seq![99u8, 111, 109, 112, 108, 101, 116, 101]
}

fn key_complete_bytes() -> (r: Vec<u8>)
    ensures
        r@ == key_complete(),
{
    let r: Vec<u8> = vec![99u8, 111, 109, 112, 108, 101, 116, 101];
    assert(r@ =~= key_complete());
    r
}

/// The key `incomplete`.
pub open spec fn key_incomplete() -> Seq<u8> {
    seq![105u8, 110, 99, 111, 109, 112, 108, 101, 116, 101]
}

fn key_incomplete_bytes() -> (r: Vec<u8>)
    ensures
        r@ == key_incomplete(),
{
    let r: Vec<u8> = vec![105u8, 110, 99, 111, 109, 112, 108, 101, 116, 101];
    assert(r@ =~= key_incomplete());
    r
}

/// The key `interval`.
pub open spec fn key_interval() -> Seq<u8> {
    seq![105u8, 110, 116, 101, 114, 118, 97, 108]
}

fn key_interval_bytes() -> (r: Vec<u8>)
    ensures
        r@ == key_interval(),
{
    let r: Vec<u8> = vec![105u8, 110, 116, 101, 114, 118, 97, 108];
    assert(r@ =~= key_interval());
    r
}

/// The key `min interval`.
pub open spec fn key_min_interval() -> Seq<u8> {
    seq![109u8, 105, 110, 32, 105, 110, 116, 101, 114, 118, 97, 108]
}

fn key_min_interval_bytes() -> (r: Vec<u8>)
    ensures
        r@ == key_min_interval(),
{
    let r: Vec<u8> = vec![109u8, 105, 110, 32, 105, 110, 116, 101, 114, 118, 97, 108];
    assert(r@ =~= key_min_interval());
    r
}

/// The key `tracker id`.
pub open spec fn key_tracker_id() -> Seq<u8> {
    seq![116u8, 114, 97, 99, 107, 101, 114, 32, 105, 100]
}

fn key_tracker_id_bytes() -> (r: Vec<u8>)
    ensures
        r@ == key_tracker_id(),
{
    let r: Vec<u8> = vec![116u8, 114, 97, 99, 107, 101, 114, 32, 105, 100];
    assert(r@ =~= key_tracker_id());
    r
}

/// The key `peers`.
pub open spec fn key_peers() -> Seq<u8> {
    seq![112u8, 101, 101, 114, 115]
}

fn key_peers_bytes() -> (r: Vec<u8>)
    ensures
        r@ == key_peers(),
{
    let r: Vec<u8> = vec![112u8, 101, 101, 114, 115];
    assert(r@ =~= key_peers());
    r
}

/// The key `ip`.
pub open spec fn key_ip() -> Seq<u8> {
    seq![105u8, 112]
}

fn key_ip_bytes() -> (r: Vec<u8>)
    ensures
        r@ == key_ip(),
{
    let r: Vec<u8> = vec![105u8, 112];
    assert(r@ =~= key_ip());
    r
}

/// The key `port`.
pub open spec fn key_port() -> Seq<u8> {
    seq![112u8, 111, 114, 116]
}

fn key_port_bytes() -> (r: Vec<u8>)
    ensures
        r@ == key_port(),
{
    let r: Vec<u8> = vec![112u8, 111, 114, 116];
    assert(r@ =~= key_port());
    r
}
/// The value of the first entry whose key is `key`.
pub open spec fn lookup(entries: Seq<(Vec<u8>, Bencode)>, key: Seq<u8>) -> Option<Bencode>
    decreases entries.len(),
{
    if entries.len() == 0 {
        None
    } else if entries[0].0@ == key {
        Some(entries[0].1)
    } else {
        lookup(entries.drop_first(), key)
    }
}

/// Finds the first entry whose key is `key`.
pub fn find<'a>(entries: &'a Vec<(Vec<u8>, Bencode)>, key: &[u8]) -> (r: Option<&'a Bencode>)
    ensures
        r is None <==> lookup(entries@, key@) is None,
        r matches Some(v) ==> lookup(entries@, key@) == Some(*v),
{
    let mut i: usize = 0;
    assert(entries@.subrange(0, entries@.len() as int) =~= entries@);
    while i < entries.len()
        invariant
            i <= entries@.len(),
            lookup(entries@, key@) == lookup(entries@.subrange(i as int, entries@.len() as int), key@),
        decreases entries@.len() - i,
    {
        let ghost rest = entries@.subrange(i as int, entries@.len() as int);
        assert(rest.drop_first() =~= entries@.subrange(i + 1, entries@.len() as int));
        if bytes_eq(entries[i].0.as_slice(), key) {
            return Some(&entries[i].1);
        }
        i = i + 1;
    }
    None
}

/// The integer under `key`, if it is an integer.
pub open spec fn int_field(entries: Seq<(Vec<u8>, Bencode)>, key: Seq<u8>) -> Option<int> {
    match lookup(entries, key) {
        Some(Bencode::Int(i)) => Some(i as int),
        _ => None,
    }
}

/// The byte string under `key`, if it is a byte string.
pub open spec fn bytes_field(entries: Seq<(Vec<u8>, Bencode)>, key: Seq<u8>) -> Option<Seq<u8>> {
    match lookup(entries, key) {
        Some(Bencode::Bytes(b)) => Some(b@),
        _ => None,
    }
}

fn get_int(entries: &Vec<(Vec<u8>, Bencode)>, key: &[u8]) -> (r: Option<i64>)
    ensures
        r is None <==> int_field(entries@, key@) is None,
        r matches Some(i) ==> int_field(entries@, key@) == Some(i as int),
{
    match find(entries, key) {
        Some(Bencode::Int(i)) => Some(*i),
        _ => None,
    }
}

fn get_bytes(entries: &Vec<(Vec<u8>, Bencode)>, key: &[u8]) -> (r: Option<Vec<u8>>)
    ensures
        r is None <==> bytes_field(entries@, key@) is None,
        r matches Some(b) ==> bytes_field(entries@, key@) == Some(b@),
{
    match find(entries, key) {
        Some(Bencode::Bytes(b)) => {
            let n = b.len();
            Some(crate::block::copy_range(b.as_slice(), 0, n))
        },
        _ => None,
    }
}

pub open spec fn is_digit(b: u8) -> bool {
    48 <= b <= 57
}

/// Value of a string of decimal digits.
pub open spec fn digits_value(s: Seq<u8>) -> int
    decreases s.len(),
{
    if s.len() == 0 {
        0
    } else {
        digits_value(s.drop_last()) * 10 + (s.last() - 48)
    }
}

proof fn lemma_decimal(n: nat)
    ensures
        forall|j: int| 0 <= j < decimal(n).len() ==> is_digit(#[trigger] decimal(n)[j]),
        digits_value(decimal(n)) == n,
        decimal(n).len() >= 1,
        n <= 255 ==> decimal(n).len() <= 3,
    decreases n,
{
    if n < 10 {
        assert(decimal(n).drop_last() =~= Seq::<u8>::empty());
        assert(digits_value(Seq::<u8>::empty()) == 0);
        assert(decimal(n).last() == (48 + n) as u8);
        assert(digits_value(decimal(n)) == digits_value(decimal(n).drop_last()) * 10 + (decimal(n).last() - 48));
    } else {
        lemma_decimal(n / 10);
        let d = decimal(n);
        assert(d.drop_last() =~= decimal(n / 10));
        assert(d == decimal(n / 10) + seq![(48 + n % 10) as u8]);
        assert(d.last() == (48 + n % 10) as u8);
        assert(digits_value(d) == digits_value(d.drop_last()) * 10 + (d.last() - 48));
        assert(digits_value(d) == digits_value(decimal(n / 10)) * 10 + (n % 10));
        assert(n == (n / 10) * 10 + n % 10);
        if n <= 255 {
            if n / 10 >= 10 {
                assert(n / 10 / 10 < 10);
                assert(decimal(n / 10 / 10).len() == 1);
            }
        }
    }
}

/// `s[start..]` begins with the decimal form of `w`, which is followed by
/// the end of `s` or by a byte that is not a digit.
pub open spec fn octet_at(s: Seq<u8>, start: int, w: u8) -> bool {
    let e = start + decimal(w as nat).len();
    &&& e <= s.len()
    &&& s.subrange(start, e) == decimal(w as nat)
    &&& (e == s.len() || !is_digit(s[e]))
}

/// Reads the octet (0 to 255, written without leading zeros) at `start`.
fn parse_octet(s: &[u8], start: usize) -> (r: Option<(u8, usize)>)
    requires
        start <= s@.len(),
    ensures
        r matches Some((w, e)) ==> octet_at(s@, start as int, w) && e == start + decimal(
            w as nat,
        ).len(),
        forall|w: u8| octet_at(s@, start as int, w) ==> r == Some((w, (start + decimal(w as nat).len()) as usize)),
{
    let len = s.len();
    let mut e: usize = start;
    while e < len && s[e] >= 48 && s[e] <= 57
        invariant
            len == s@.len(),
            start <= e <= len,
            forall|j: int| start <= j < e ==> is_digit(#[trigger] s@[j]),
        decreases len - e,
    {
        e = e + 1;
    }
    proof {
        assert forall|w: u8| #[trigger] octet_at(s@, start as int, w) implies e == start + decimal(
            w as nat,
        ).len() by {
            lemma_decimal(w as nat);
            let we = start + decimal(w as nat).len();
            if e < we {
                assert(s@[e as int] == decimal(w as nat)[e - start]);
            } else if e > we {
                assert(is_digit(s@[we]));
            }
        }
    }
    if e == start || e - start > 3 {
        proof {
            assert forall|w: u8| !octet_at(s@, start as int, w) by {
                lemma_decimal(w as nat);
            }
        }
        return None;
    }
    let mut v: u32 = 0;
    let mut i: usize = start;
    while i < e
        invariant
            start <= i <= e <= len,
            e - start <= 3,
            len == s@.len(),
            forall|j: int| start <= j < e ==> is_digit(#[trigger] s@[j]),
            v == digits_value(s@.subrange(start as int, i as int)),
            v < 1000,
            i - start <= 3,
            v < if i - start == 0 { 1int } else if i - start == 1 { 10int } else if i - start == 2 { 100int } else { 1000int },
        decreases e - i,
    {
        assert(s@.subrange(start as int, i + 1).drop_last() =~= s@.subrange(start as int, i as int));
        assert(is_digit(s@[i as int]));
        v = v * 10 + (s[i] - 48) as u32;
        i = i + 1;
    }
    if v > 255 {
        proof {
            assert forall|w: u8| !octet_at(s@, start as int, w) by {
                lemma_decimal(w as nat);
                if octet_at(s@, start as int, w) {
                    assert(s@.subrange(start as int, e as int) == decimal(w as nat));
                }
            }
        }
        return None;
    }
    let mut enc: Vec<u8> = Vec::new();
    put_decimal(&mut enc, v as u64);
    assert(enc@ =~= decimal(v as nat));
    let seg = crate::block::copy_range(s, start, e);
    if !bytes_eq(enc.as_slice(), seg.as_slice()) {
        proof {
            assert forall|w: u8| !octet_at(s@, start as int, w) by {
                lemma_decimal(w as nat);
                if octet_at(s@, start as int, w) {
                    assert(s@.subrange(start as int, e as int) == decimal(w as nat));
                    assert(v == w);
                }
            }
        }
        return None;
    }
    proof {
        lemma_decimal(v as nat);
        assert forall|w: u8| octet_at(s@, start as int, w) implies w == v by {
            lemma_decimal(w as nat);
            assert(s@.subrange(start as int, e as int) == decimal(w as nat));
        }
    }
    Some((v as u8, e))
}

/// The text form `a.b.c.d` of an IPv4 address, each part in decimal
/// without leading zeros.
pub open spec fn dotted(ip: Seq<u8>) -> Seq<u8> {
    decimal(ip[0] as nat) + seq![46u8] + decimal(ip[1] as nat) + seq![46u8] + decimal(
        ip[2] as nat,
    ) + seq![46u8] + decimal(ip[3] as nat)
}

/// Where the parts of `a.b.c.d` lie.
proof fn lemma_dotted_parts(s: Seq<u8>, ip: Seq<u8>)
    requires
        ip.len() == 4,
        s == dotted(ip),
    ensures
        ({
            let dot1 = decimal(ip[0] as nat).len() as int;
            let dot2 = dot1 + 1 + decimal(ip[1] as nat).len();
            let dot3 = dot2 + 1 + decimal(ip[2] as nat).len();
            &&& octet_at(s, 0, ip[0])
            &&& dot1 < s.len() && s[dot1] == 46
            &&& octet_at(s, dot1 + 1, ip[1])
            &&& dot2 < s.len() && s[dot2] == 46
            &&& octet_at(s, dot2 + 1, ip[2])
            &&& dot3 < s.len() && s[dot3] == 46
            &&& octet_at(s, dot3 + 1, ip[3])
            &&& dot3 + 1 + decimal(ip[3] as nat).len() == s.len()
        }),
{
    let d0 = decimal(ip[0] as nat);
    let d1 = decimal(ip[1] as nat);
    let d2 = decimal(ip[2] as nat);
    let d3 = decimal(ip[3] as nat);
    lemma_decimal(ip[0] as nat);
    lemma_decimal(ip[1] as nat);
    lemma_decimal(ip[2] as nat);
    lemma_decimal(ip[3] as nat);
    let dot1 = d0.len() as int;
    let dot2 = dot1 + 1 + d1.len();
    let dot3 = dot2 + 1 + d2.len();
    assert(s.subrange(0, dot1) =~= d0);
    assert(s[dot1] == 46);
    assert(s.subrange(dot1 + 1, dot2) =~= d1);
    assert(s[dot2] == 46);
    assert(s.subrange(dot2 + 1, dot3) =~= d2);
    assert(s[dot3] == 46);
    assert(s.subrange(dot3 + 1, s.len() as int) =~= d3);
}

/// Reads an IPv4 address written as `a.b.c.d`.
pub fn parse_ipv4(s: &[u8]) -> (r: Option<[u8; 4]>)
    ensures
        r matches Some(ip) ==> s@ == dotted(ip@),
        r is None ==> forall|ip: [u8; 4]| s@ != dotted(#[trigger] ip@),
{
    let ghost sv = s@;
    let len = s.len();
    let o1 = parse_octet(s, 0);
    let (a, e1) = match o1 {
        Some(x) => x,
        None => {
            proof {
                assert forall|ip: [u8; 4]| sv != dotted(#[trigger] ip@) by {
                    if sv == dotted(ip@) {
                        lemma_dotted_parts(sv, ip@);
                    }
                }
            }
            return None;
        },
    };
    if e1 >= len || s[e1] != 46 {
        proof {
                assert forall|ip: [u8; 4]| sv != dotted(#[trigger] ip@) by {
                    if sv == dotted(ip@) {
                        lemma_dotted_parts(sv, ip@);
                    }
                }
            }
        return None;
    }
    let o2 = parse_octet(s, e1 + 1);
    let (b, e2) = match o2 {
        Some(x) => x,
        None => {
            proof {
                assert forall|ip: [u8; 4]| sv != dotted(#[trigger] ip@) by {
                    if sv == dotted(ip@) {
                        lemma_dotted_parts(sv, ip@);
                    }
                }
            }
            return None;
        },
    };
    if e2 >= len || s[e2] != 46 {
        proof {
                assert forall|ip: [u8; 4]| sv != dotted(#[trigger] ip@) by {
                    if sv == dotted(ip@) {
                        lemma_dotted_parts(sv, ip@);
                    }
                }
            }
        return None;
    }
    let o3 = parse_octet(s, e2 + 1);
    let (c, e3) = match o3 {
        Some(x) => x,
        None => {
            proof {
                assert forall|ip: [u8; 4]| sv != dotted(#[trigger] ip@) by {
                    if sv == dotted(ip@) {
                        lemma_dotted_parts(sv, ip@);
                    }
                }
            }
            return None;
        },
    };
    if e3 >= len || s[e3] != 46 {
        proof {
                assert forall|ip: [u8; 4]| sv != dotted(#[trigger] ip@) by {
                    if sv == dotted(ip@) {
                        lemma_dotted_parts(sv, ip@);
                    }
                }
            }
        return None;
    }
    let o4 = parse_octet(s, e3 + 1);
    let (d, e4) = match o4 {
        Some(x) => x,
        None => {
            proof {
                assert forall|ip: [u8; 4]| sv != dotted(#[trigger] ip@) by {
                    if sv == dotted(ip@) {
                        lemma_dotted_parts(sv, ip@);
                    }
                }
            }
            return None;
        },
    };
    if e4 != len {
        proof {
                assert forall|ip: [u8; 4]| sv != dotted(#[trigger] ip@) by {
                    if sv == dotted(ip@) {
                        lemma_dotted_parts(sv, ip@);
                    }
                }
            }
        return None;
    }
    let ip: [u8; 4] = [a, b, c, d];
    assert(s@ =~= dotted(ip@));
    Some(ip)
}

/// `item` is a dictionary peer whose `ip` is an IPv4 address in text form
/// and whose `port` is a port number.
pub open spec fn dict_peer_valid(item: Bencode) -> bool {
    match item {
        Bencode::Dict(e) => {
            &&& bytes_field(e@, key_ip()) is Some
            &&& exists|a: [u8; 4]| bytes_field(e@, key_ip())->Some_0 == dotted(#[trigger] a@)
            &&& int_field(e@, key_port()) matches Some(p) && 0 <= p <= 65535
        },
        _ => false,
    }
}

/// `addr` is the address of the dictionary peer `item`.
pub open spec fn dict_peer_is(item: Bencode, addr: PeerAddr) -> bool {
    match item {
        Bencode::Dict(e) => {
            &&& bytes_field(e@, key_ip()) == Some(dotted(addr.ip@))
            &&& int_field(e@, key_port()) == Some(addr.port as int)
        },
        _ => false,
    }
}

/// The usable dictionary peers of `items`, in order.
pub open spec fn valid_peers(items: Seq<Bencode>) -> Seq<Bencode>
    decreases items.len(),
{
    if items.len() == 0 {
        Seq::empty()
    } else {
        valid_peers(items.drop_last()) + if dict_peer_valid(items.last()) {
            seq![items.last()]
        } else {
            Seq::empty()
        }
    }
}

/// Reads one peer of the dictionary form.
pub fn dict_peer(item: &Bencode) -> (r: Option<PeerAddr>)
    ensures
        r is Some <==> dict_peer_valid(*item),
        r matches Some(a) ==> dict_peer_is(*item, a),
{
    match item {
        Bencode::Dict(e) => {
            let ip_key = key_ip_bytes();
            let port_key = key_port_bytes();
            let ip_text = match get_bytes(e, ip_key.as_slice()) {
                Some(t) => t,
                None => return None,
            };
            let port = match get_int(e, port_key.as_slice()) {
                Some(p) => p,
                None => return None,
            };
            if port < 0 || port > 65535 {
                return None;
            }
            match parse_ipv4(ip_text.as_slice()) {
                Some(ip) => Some(PeerAddr { ip, port: port as u16 }),
                None => None,
            }
        },
        _ => None,
    }
}

/// Reads the dictionary form of a peer list; entries that are not a
/// dictionary with an IPv4 `ip` and a `port` are skipped.
pub fn dict_peers(items: &Vec<Bencode>) -> (r: Vec<PeerAddr>)
    ensures
        r@.len() == valid_peers(items@).len(),
        forall|k: int| 0 <= k < r@.len() ==> dict_peer_is(valid_peers(items@)[k], #[trigger] r@[k]),
{
    let mut r: Vec<PeerAddr> = Vec::new();
    let mut i: usize = 0;
    while i < items.len()
        invariant
            i <= items@.len(),
            r@.len() == valid_peers(items@.subrange(0, i as int)).len(),
            forall|k: int|
                0 <= k < r@.len() ==> dict_peer_is(valid_peers(items@.subrange(0, i as int))[k], #[trigger] r@[k]),
        decreases items@.len() - i,
    {
        let ghost sub = items@.subrange(0, i + 1);
        assert(sub.drop_last() =~= items@.subrange(0, i as int));
        assert(sub.last() == items@[i as int]);
        let ghost before = r@;
        match dict_peer(&items[i]) {
            Some(a) => {
                r.push(a);
                assert forall|k: int| 0 <= k < r@.len() implies dict_peer_is(valid_peers(sub)[k], #[trigger] r@[k]) by {
                    if k < before.len() {
                        assert(r@[k] == before[k]);
                    }
                }
            },
            None => {},
        }
        i = i + 1;
    }
    assert(items@.subrange(0, items@.len() as int) =~= items@);
    r
}

/// Why a tracker's answer cannot be used.
#[derive(Debug, Clone)]
pub enum ResponseError {
    /// The answer is not a dictionary.
    NotADictionary,
    /// The tracker refused, giving this reason.
    Failure(Vec<u8>),
    /// There is no `interval`, or it is not a 32-bit count of seconds.
    BadInterval,
}

/// The unsigned 32-bit integer under `key`, else 0.
pub open spec fn count_field(e: Seq<(Vec<u8>, Bencode)>, key: Seq<u8>) -> int {
    match int_field(e, key) {
        Some(i) => if 0 <= i <= u32::MAX {
            i
        } else {
            0
        },
        None => 0,
    }
}

fn get_count(e: &Vec<(Vec<u8>, Bencode)>, key: &[u8]) -> (r: u32)
    ensures
        r == count_field(e@, key@),
{
    match get_int(e, key) {
        Some(i) => if 0 <= i && i <= 0xFFFF_FFFF {
            i as u32
        } else {
            0
        },
        None => 0,
    }
}

/// Whether `o` holds the bytes `s` (or nothing when `s` is `None`).
pub open spec fn same_bytes(o: Option<Vec<u8>>, s: Option<Seq<u8>>) -> bool {
    match (o, s) {
        (Some(v), Some(w)) => v@ == w,
        (None, None) => true,
        _ => false,
    }
}

/// `addrs` is the peer list that the `peers` entry `p` gives: compact bytes,
/// a list of dictionaries, or nothing.
pub open spec fn peers_of_answer(p: Option<Bencode>, addrs: Seq<PeerAddr>) -> bool {
    match p {
        Some(Bencode::Bytes(b)) => {
            &&& addrs.len() == b@.len() / 6
            &&& forall|k: int| 0 <= k < addrs.len() ==> compact_peer_ok(b@, k, #[trigger] addrs[k])
        },
        Some(Bencode::List(items)) => {
            &&& addrs.len() == valid_peers(items@).len()
            &&& forall|k: int| 0 <= k < addrs.len() ==> dict_peer_is(valid_peers(items@)[k], #[trigger] addrs[k])
        },
        _ => addrs.len() == 0,
    }
}

/// The `interval` is a 32-bit count of seconds.
pub open spec fn interval_ok(e: Seq<(Vec<u8>, Bencode)>) -> bool {
    match int_field(e, key_interval()) {
        Some(i) => 0 <= i <= u32::MAX,
        None => false,
    }
}

/// The `min interval`, when it is a count of seconds.
pub open spec fn min_interval_of(e: Seq<(Vec<u8>, Bencode)>) -> Option<u64> {
    match int_field(e, key_min_interval()) {
        Some(m) => if m >= 0 {
            Some(m as u64)
        } else {
            None
        },
        None => None,
    }
}

/// Reads a tracker's decoded answer: a dictionary with a `failure reason`
/// (an error), or an `interval` and, optionally, `min interval`,
/// `complete`, `incomplete`, `tracker id`, `warning message` and `peers`,
/// either compact (6 bytes per IPv4 peer) or a list of dictionaries.
pub fn announce_response(v: &Bencode) -> (r: Result<TrackerResponse, ResponseError>)
    ensures
        !(*v matches Bencode::Dict(_)) ==> r matches Err(ResponseError::NotADictionary),
        *v matches Bencode::Dict(d) ==> {
            let e = d@;
            &&& bytes_field(e, key_failure_reason()) is Some ==> {
                &&& (r matches Err(ResponseError::Failure(mm)))
                &&& r->Err_0->Failure_0@ == bytes_field(e, key_failure_reason())->Some_0
            }
            &&& bytes_field(e, key_failure_reason()) is None && !interval_ok(e) ==> (r matches Err(ResponseError::BadInterval))
            &&& r is Ok <==> bytes_field(e, key_failure_reason()) is None && interval_ok(e)
            &&& (r matches Ok(resp)) ==> {
                let resp = r->Ok_0;
                &&& Some(resp.interval as int) == int_field(e, key_interval())
                &&& resp.complete == count_field(e, key_complete())
                &&& resp.incomplete == count_field(e, key_incomplete())
                &&& resp.failure_reason is None
                &&& same_bytes(resp.warning_message, bytes_field(e, key_warning_message()))
                &&& same_bytes(resp.tracker_id, bytes_field(e, key_tracker_id()))
                &&& resp.min_interval == min_interval_of(e)
                &&& peers_of_answer(lookup(e, key_peers()), resp.peers.addrs@)
            }
        },
{
    let e = match v {
        Bencode::Dict(e) => e,
        _ => return Err(ResponseError::NotADictionary),
    };
    let k = key_failure_reason_bytes();
    if let Some(m) = get_bytes(e, k.as_slice()) {
        return Err(ResponseError::Failure(m));
    }
    let k = key_interval_bytes();
    let interval = match get_int(e, k.as_slice()) {
        Some(i) => if 0 <= i && i <= 0xFFFF_FFFF {
            i as u32
        } else {
            return Err(ResponseError::BadInterval);
        },
        None => return Err(ResponseError::BadInterval),
    };
    let k = key_min_interval_bytes();
    let min_interval = match get_int(e, k.as_slice()) {
        Some(m) => if m >= 0 {
            Some(m as u64)
        } else {
            None
        },
        None => None,
    };
    let k = key_complete_bytes();
    let complete = get_count(e, k.as_slice());
    let k = key_incomplete_bytes();
    let incomplete = get_count(e, k.as_slice());
    let k = key_warning_message_bytes();
    let warning_message = get_bytes(e, k.as_slice());
    let k = key_tracker_id_bytes();
    let tracker_id = get_bytes(e, k.as_slice());
    let k = key_peers_bytes();
    let addrs = match find(e, k.as_slice()) {
        Some(Bencode::Bytes(b)) => parse_compact_peers(b.as_slice()),
        Some(Bencode::List(items)) => dict_peers(items),
        _ => Vec::new(),
    };
    Ok(TrackerResponse {
        failure_reason: None,
        warning_message,
        complete,
        interval,
        min_interval,
        tracker_id,
        incomplete,
        peers: Peers { addrs },
    })
}

} // verus!
