//! Tracker announces: the request and its query string, the compact peer
//! list, and the frames of the UDP tracker protocol.
use crate::codec::{get_u16, get_u32, get_u64, put_slice, put_u16, put_u32, put_u64};
use crate::message::{be16, be16_at, be32, be32_at, be64, be64_at};
use vstd::prelude::*;
use vstd::string::StringSliceAdditionalSpecFns;

verus! {

/// A tracker answers or not.
#[derive(Debug, Clone, Copy, PartialEq, Eq, Structural)]
pub enum TrackerState {
    Alive,
    Dead,
}

/// Bytes that form-urlencoding leaves as they are.
pub open spec fn urlencode_keeps(b: u8) -> bool {
    b == 42 || b == 45 || b == 46 || (48 <= b <= 57) || (65 <= b <= 90) || b == 95 || (97 <= b
        <= 122)
}

/// Upper-case hexadecimal digit of `d` (below 16).
pub open spec fn hex_digit(d: int) -> u8 {
    if d < 10 {
        (48 + d) as u8
    } else {
        (55 + d) as u8
    }
}

/// Form-urlencoding of one byte: kept, `+` for a space, else `%XX`.
pub open spec fn urlencode_byte(b: u8) -> Seq<u8> {
    if urlencode_keeps(b) {
        seq![b]
    } else if b == 32 {
        seq![43u8]
    } else {
        seq![37u8, hex_digit((b / 16) as int), hex_digit((b % 16) as int)]
    }
}

/// Form-urlencoding of a byte string, byte by byte.
pub open spec fn urlencoded(s: Seq<u8>) -> Seq<u8>
    decreases s.len(),
{
    if s.len() == 0 {
        Seq::empty()
    } else {
        urlencoded(s.drop_last()) + urlencode_byte(s.last())
    }
}

/// Relies on `url::form_urlencoded::byte_serialize`: the
/// application/x-www-form-urlencoded serialisation of `b`, which keeps
/// `*-._0-9A-Za-z`, writes a space as `+` and any other byte as `%XX` with
/// upper-case hexadecimal digits.
#[verifier::external_body]
fn form_urlencode(b: &[u8]) -> (r: Vec<u8>)
    ensures
        r@ == urlencoded(b@),
{
    url::form_urlencoded::byte_serialize(b).collect::<String>().into_bytes()
}

/// Decimal digits of `n`, most significant first.
pub open spec fn decimal(n: nat) -> Seq<u8>
    decreases n,
{
    if n < 10 {
        seq![(48 + n) as u8]
    } else {
        decimal(n / 10) + seq![(48 + n % 10) as u8]
    }
}

/// Decimal form of a signed integer.
pub open spec fn signed_decimal(n: int) -> Seq<u8> {
    if n < 0 {
        seq![45u8] + decimal((-n) as nat)
    } else {
        decimal(n as nat)
    }
}

/// Appends the decimal digits of `n`.
pub fn put_decimal(dst: &mut Vec<u8>, n: u64)
    ensures
        final(dst)@ == old(dst)@ + decimal(n as nat),
    decreases n,
{
    let ghost start = dst@;
    if n >= 10 {
        put_decimal(dst, n / 10);
    }
    dst.push((48 + n % 10) as u8);
    assert(dst@ =~= start + decimal(n as nat));
}

/// Appends the decimal form of `n`, with a leading `-` when negative.
pub fn put_signed_decimal(dst: &mut Vec<u8>, n: i32)
    ensures
        final(dst)@ == old(dst)@ + signed_decimal(n as int),
{
    let ghost start = dst@;
    if n < 0 {
        dst.push(45u8);
        let m: u64 = (0i64 - n as i64) as u64;
        put_decimal(dst, m);
        assert(dst@ =~= start + signed_decimal(n as int));
    } else {
        put_decimal(dst, n as u64);
    }
}

/// The bytes `info_hash=`.
pub open spec fn key_info_hash() -> Seq<u8> {
    seq![105u8, 110, 102, 111, 95, 104, 97, 115, 104, 61]
}

/// The bytes `&peer_id=`.
pub open spec fn key_peer_id() -> Seq<u8> {
    seq![38u8, 112, 101, 101, 114, 95, 105, 100, 61]
}

/// The bytes `&downloaded=`.
pub open spec fn key_downloaded() -> Seq<u8> {
    seq![38u8, 100, 111, 119, 110, 108, 111, 97, 100, 101, 100, 61]
}

/// The bytes `&left=`.
pub open spec fn key_left() -> Seq<u8> {
    seq![38u8, 108, 101, 102, 116, 61]
}

/// The bytes `&uploaded=`.
pub open spec fn key_uploaded() -> Seq<u8> {
    seq![38u8, 117, 112, 108, 111, 97, 100, 101, 100, 61]
}

/// The bytes `&event=`.
pub open spec fn key_event() -> Seq<u8> {
    seq![38u8, 101, 118, 101, 110, 116, 61]
}

/// The bytes `&ip_address=`.
pub open spec fn key_ip_address() -> Seq<u8> {
    seq![38u8, 105, 112, 95, 97, 100, 100, 114, 101, 115, 115, 61]
}

/// The bytes `&key=`.
pub open spec fn key_key() -> Seq<u8> {
    seq![38u8, 107, 101, 121, 61]
}

/// The bytes `&num_want=`.
pub open spec fn key_num_want() -> Seq<u8> {
    seq![38u8, 110, 117, 109, 95, 119, 97, 110, 116, 61]
}

/// The bytes `&port=`.
pub open spec fn key_port() -> Seq<u8> {
    seq![38u8, 112, 111, 114, 116, 61]
}

/// The fixed tail `&no_peer_id=0&compact=1`.
pub open spec fn query_tail() -> Seq<u8> {
    seq![38u8, 110, 111, 95, 112, 101, 101, 114, 95, 105, 100, 61, 48, 38, 99, 111, 109, 112, 97, 99, 116, 61, 49]
}

fn put_info_hash(dst: &mut Vec<u8>)
    ensures
        final(dst)@ == old(dst)@ + key_info_hash(),
{
    let lit: Vec<u8> = vec![105u8, 110, 102, 111, 95, 104, 97, 115, 104, 61];
    assert(lit@ =~= key_info_hash());
    put_slice(dst, lit.as_slice());
}

fn put_peer_id(dst: &mut Vec<u8>)
    ensures
        final(dst)@ == old(dst)@ + key_peer_id(),
{
    let lit: Vec<u8> = vec![38u8, 112, 101, 101, 114, 95, 105, 100, 61];
    assert(lit@ =~= key_peer_id());
    put_slice(dst, lit.as_slice());
}

fn put_downloaded(dst: &mut Vec<u8>)
    ensures
        final(dst)@ == old(dst)@ + key_downloaded(),
{
    let lit: Vec<u8> = vec![38u8, 100, 111, 119, 110, 108, 111, 97, 100, 101, 100, 61];
    assert(lit@ =~= key_downloaded());
    put_slice(dst, lit.as_slice());
}

fn put_left(dst: &mut Vec<u8>)
    ensures
        final(dst)@ == old(dst)@ + key_left(),
{
    let lit: Vec<u8> = vec![38u8, 108, 101, 102, 116, 61];
    assert(lit@ =~= key_left());
    put_slice(dst, lit.as_slice());
}

fn put_uploaded(dst: &mut Vec<u8>)
    ensures
        final(dst)@ == old(dst)@ + key_uploaded(),
{
    let lit: Vec<u8> = vec![38u8, 117, 112, 108, 111, 97, 100, 101, 100, 61];
    assert(lit@ =~= key_uploaded());
    put_slice(dst, lit.as_slice());
}

fn put_event(dst: &mut Vec<u8>)
    ensures
        final(dst)@ == old(dst)@ + key_event(),
{
    let lit: Vec<u8> = vec![38u8, 101, 118, 101, 110, 116, 61];
    assert(lit@ =~= key_event());
    put_slice(dst, lit.as_slice());
}

fn put_ip_address(dst: &mut Vec<u8>)
    ensures
        final(dst)@ == old(dst)@ + key_ip_address(),
{
    let lit: Vec<u8> = vec![38u8, 105, 112, 95, 97, 100, 100, 114, 101, 115, 115, 61];
    assert(lit@ =~= key_ip_address());
    put_slice(dst, lit.as_slice());
}

fn put_key(dst: &mut Vec<u8>)
    ensures
        final(dst)@ == old(dst)@ + key_key(),
{
    let lit: Vec<u8> = vec![38u8, 107, 101, 121, 61];
    assert(lit@ =~= key_key());
    put_slice(dst, lit.as_slice());
}

fn put_num_want(dst: &mut Vec<u8>)
    ensures
        final(dst)@ == old(dst)@ + key_num_want(),
{
    let lit: Vec<u8> = vec![38u8, 110, 117, 109, 95, 119, 97, 110, 116, 61];
    assert(lit@ =~= key_num_want());
    put_slice(dst, lit.as_slice());
}

fn put_port(dst: &mut Vec<u8>)
    ensures
        final(dst)@ == old(dst)@ + key_port(),
{
    let lit: Vec<u8> = vec![38u8, 112, 111, 114, 116, 61];
    assert(lit@ =~= key_port());
    put_slice(dst, lit.as_slice());
}

fn put_tail(dst: &mut Vec<u8>)
    ensures
        final(dst)@ == old(dst)@ + query_tail(),
{
    let lit: Vec<u8> = vec![38u8, 110, 111, 95, 112, 101, 101, 114, 95, 105, 100, 61, 48, 38, 99, 111, 109, 112, 97, 99, 116, 61, 49];
    assert(lit@ =~= query_tail());
    put_slice(dst, lit.as_slice());
}

/// An announce request to a tracker.
#[derive(Clone, Debug)]
pub struct TrackerRequest {
    info_hash: Vec<u8>,
    peer_id: Vec<u8>,
    downloaded: u64,
    left: u64,
    uploaded: u64,
    event: String,
    ip_address: u32,
    key: u32,
    num_want: i32,
    port: u16,
}

impl TrackerRequest {
    pub closed spec fn spec_info_hash(&self) -> Seq<u8> {
        self.info_hash@
    }

    pub closed spec fn spec_peer_id(&self) -> Seq<u8> {
        self.peer_id@
    }

    pub closed spec fn spec_downloaded(&self) -> u64 {
        self.downloaded
    }

    pub closed spec fn spec_left(&self) -> u64 {
        self.left
    }

    pub closed spec fn spec_uploaded(&self) -> u64 {
        self.uploaded
    }

    pub closed spec fn spec_event(&self) -> Seq<char> {
        self.event@
    }

    pub closed spec fn spec_ip_address(&self) -> u32 {
        self.ip_address
    }

    pub closed spec fn spec_key(&self) -> u32 {
        self.key
    }

    pub closed spec fn spec_num_want(&self) -> i32 {
        self.num_want
    }

    pub closed spec fn spec_port(&self) -> u16 {
        self.port
    }

}

/// Collects the fields of a `TrackerRequest` one by one.
pub struct TrackerRequestBuilder {
    info_hash: Vec<u8>,
    peer_id: Vec<u8>,
    downloaded: u64,
    left: u64,
    uploaded: u64,
    event: String,
    ip_address: u32,
    key: u32,
    num_want: i32,
    port: u16,
}

impl TrackerRequestBuilder {
    pub closed spec fn spec_info_hash(&self) -> Seq<u8> {
        self.info_hash@
    }

    pub closed spec fn spec_peer_id(&self) -> Seq<u8> {
        self.peer_id@
    }

    pub closed spec fn spec_downloaded(&self) -> u64 {
        self.downloaded
    }

    pub closed spec fn spec_left(&self) -> u64 {
        self.left
    }

    pub closed spec fn spec_uploaded(&self) -> u64 {
        self.uploaded
    }

    pub closed spec fn spec_event(&self) -> Seq<char> {
        self.event@
    }

    pub closed spec fn spec_ip_address(&self) -> u32 {
        self.ip_address
    }

    pub closed spec fn spec_key(&self) -> u32 {
        self.key
    }

    pub closed spec fn spec_num_want(&self) -> i32 {
        self.num_want
    }

    pub closed spec fn spec_port(&self) -> u16 {
        self.port
    }

    /// A builder with every field empty or zero.
    pub fn new() -> (r: TrackerRequestBuilder)
        ensures
            r.spec_info_hash().len() == 0,
            r.spec_peer_id().len() == 0,
            r.spec_downloaded() == 0,
            r.spec_left() == 0,
            r.spec_uploaded() == 0,
            r.spec_event().len() == 0,
            r.spec_ip_address() == 0,
            r.spec_key() == 0,
            r.spec_num_want() == 0,
            r.spec_port() == 0,
    {
        let r = TrackerRequestBuilder {
            info_hash: Vec::new(),
            peer_id: Vec::new(),
            downloaded: 0,
            left: 0,
            uploaded: 0,
            event: String::new(),
            ip_address: 0,
            key: 0,
            num_want: 0,
            port: 0,
        };
        r
    }

    pub fn info_hash(self, info_hash: Vec<u8>) -> (r: TrackerRequestBuilder)
        ensures
            r.spec_info_hash() == info_hash@,
            r.spec_peer_id() == self.spec_peer_id(),
            r.spec_downloaded() == self.spec_downloaded(),
            r.spec_left() == self.spec_left(),
            r.spec_uploaded() == self.spec_uploaded(),
            r.spec_event() == self.spec_event(),
            r.spec_ip_address() == self.spec_ip_address(),
            r.spec_key() == self.spec_key(),
            r.spec_num_want() == self.spec_num_want(),
            r.spec_port() == self.spec_port(),
    {
        let mut b = self;
        b.info_hash = info_hash;
        b
    }

    pub fn peer_id(self, peer_id: Vec<u8>) -> (r: TrackerRequestBuilder)
        ensures
            r.spec_info_hash() == self.spec_info_hash(),
            r.spec_peer_id() == peer_id@,
            r.spec_downloaded() == self.spec_downloaded(),
            r.spec_left() == self.spec_left(),
            r.spec_uploaded() == self.spec_uploaded(),
            r.spec_event() == self.spec_event(),
            r.spec_ip_address() == self.spec_ip_address(),
            r.spec_key() == self.spec_key(),
            r.spec_num_want() == self.spec_num_want(),
            r.spec_port() == self.spec_port(),
    {
        let mut b = self;
        b.peer_id = peer_id;
        b
    }

    pub fn downloaded(self, downloaded: u64) -> (r: TrackerRequestBuilder)
        ensures
            r.spec_info_hash() == self.spec_info_hash(),
            r.spec_peer_id() == self.spec_peer_id(),
            r.spec_downloaded() == downloaded,
            r.spec_left() == self.spec_left(),
            r.spec_uploaded() == self.spec_uploaded(),
            r.spec_event() == self.spec_event(),
            r.spec_ip_address() == self.spec_ip_address(),
            r.spec_key() == self.spec_key(),
            r.spec_num_want() == self.spec_num_want(),
            r.spec_port() == self.spec_port(),
    {
        let mut b = self;
        b.downloaded = downloaded;
        b
    }

    pub fn left(self, left: u64) -> (r: TrackerRequestBuilder)
        ensures
            r.spec_info_hash() == self.spec_info_hash(),
            r.spec_peer_id() == self.spec_peer_id(),
            r.spec_downloaded() == self.spec_downloaded(),
            r.spec_left() == left,
            r.spec_uploaded() == self.spec_uploaded(),
            r.spec_event() == self.spec_event(),
            r.spec_ip_address() == self.spec_ip_address(),
            r.spec_key() == self.spec_key(),
            r.spec_num_want() == self.spec_num_want(),
            r.spec_port() == self.spec_port(),
    {
        let mut b = self;
        b.left = left;
        b
    }

    pub fn uploaded(self, uploaded: u64) -> (r: TrackerRequestBuilder)
        ensures
            r.spec_info_hash() == self.spec_info_hash(),
            r.spec_peer_id() == self.spec_peer_id(),
            r.spec_downloaded() == self.spec_downloaded(),
            r.spec_left() == self.spec_left(),
            r.spec_uploaded() == uploaded,
            r.spec_event() == self.spec_event(),
            r.spec_ip_address() == self.spec_ip_address(),
            r.spec_key() == self.spec_key(),
            r.spec_num_want() == self.spec_num_want(),
            r.spec_port() == self.spec_port(),
    {
        let mut b = self;
        b.uploaded = uploaded;
        b
    }

    pub fn event(self, event: String) -> (r: TrackerRequestBuilder)
        ensures
            r.spec_info_hash() == self.spec_info_hash(),
            r.spec_peer_id() == self.spec_peer_id(),
            r.spec_downloaded() == self.spec_downloaded(),
            r.spec_left() == self.spec_left(),
            r.spec_uploaded() == self.spec_uploaded(),
            r.spec_event() == event@,
            r.spec_ip_address() == self.spec_ip_address(),
            r.spec_key() == self.spec_key(),
            r.spec_num_want() == self.spec_num_want(),
            r.spec_port() == self.spec_port(),
    {
        let mut b = self;
        b.event = event;
        b
    }

    pub fn ip_address(self, ip_address: u32) -> (r: TrackerRequestBuilder)
        ensures
            r.spec_info_hash() == self.spec_info_hash(),
            r.spec_peer_id() == self.spec_peer_id(),
            r.spec_downloaded() == self.spec_downloaded(),
            r.spec_left() == self.spec_left(),
            r.spec_uploaded() == self.spec_uploaded(),
            r.spec_event() == self.spec_event(),
            r.spec_ip_address() == ip_address,
            r.spec_key() == self.spec_key(),
            r.spec_num_want() == self.spec_num_want(),
            r.spec_port() == self.spec_port(),
    {
        let mut b = self;
        b.ip_address = ip_address;
        b
    }

    pub fn key(self, key: u32) -> (r: TrackerRequestBuilder)
        ensures
            r.spec_info_hash() == self.spec_info_hash(),
            r.spec_peer_id() == self.spec_peer_id(),
            r.spec_downloaded() == self.spec_downloaded(),
            r.spec_left() == self.spec_left(),
            r.spec_uploaded() == self.spec_uploaded(),
            r.spec_event() == self.spec_event(),
            r.spec_ip_address() == self.spec_ip_address(),
            r.spec_key() == key,
            r.spec_num_want() == self.spec_num_want(),
            r.spec_port() == self.spec_port(),
    {
        let mut b = self;
        b.key = key;
        b
    }

    pub fn num_want(self, num_want: i32) -> (r: TrackerRequestBuilder)
        ensures
            r.spec_info_hash() == self.spec_info_hash(),
            r.spec_peer_id() == self.spec_peer_id(),
            r.spec_downloaded() == self.spec_downloaded(),
            r.spec_left() == self.spec_left(),
            r.spec_uploaded() == self.spec_uploaded(),
            r.spec_event() == self.spec_event(),
            r.spec_ip_address() == self.spec_ip_address(),
            r.spec_key() == self.spec_key(),
            r.spec_num_want() == num_want,
            r.spec_port() == self.spec_port(),
    {
        let mut b = self;
        b.num_want = num_want;
        b
    }

    pub fn with_port(self, port: u16) -> (r: TrackerRequestBuilder)
        ensures
            r.spec_info_hash() == self.spec_info_hash(),
            r.spec_peer_id() == self.spec_peer_id(),
            r.spec_downloaded() == self.spec_downloaded(),
            r.spec_left() == self.spec_left(),
            r.spec_uploaded() == self.spec_uploaded(),
            r.spec_event() == self.spec_event(),
            r.spec_ip_address() == self.spec_ip_address(),
            r.spec_key() == self.spec_key(),
            r.spec_num_want() == self.spec_num_want(),
            r.spec_port() == port,
    {
        let mut b = self;
        b.port = port;
        b
    }

    /// The request with the collected fields.
    pub fn build(self) -> (r: TrackerRequest)
        ensures
            r.spec_info_hash() == self.spec_info_hash(),
            r.spec_peer_id() == self.spec_peer_id(),
            r.spec_downloaded() == self.spec_downloaded(),
            r.spec_left() == self.spec_left(),
            r.spec_uploaded() == self.spec_uploaded(),
            r.spec_event() == self.spec_event(),
            r.spec_ip_address() == self.spec_ip_address(),
            r.spec_key() == self.spec_key(),
            r.spec_num_want() == self.spec_num_want(),
            r.spec_port() == self.spec_port(),
    {
        TrackerRequest {
            info_hash: self.info_hash,
            peer_id: self.peer_id,
            downloaded: self.downloaded,
            left: self.left,
            uploaded: self.uploaded,
            event: self.event,
            ip_address: self.ip_address,
            key: self.key,
            num_want: self.num_want,
            port: self.port,
        }
    }
}


/// The query string of an HTTP announce.
pub open spec fn query_of(
    info_hash: Seq<u8>,
    peer_id: Seq<u8>,
    downloaded: u64,
    left: u64,
    uploaded: u64,
    event: Seq<u8>,
    ip_address: u32,
    key: u32,
    num_want: i32,
    port: u16,
) -> Seq<u8> {
    key_info_hash() + urlencoded(info_hash) + key_peer_id() + urlencoded(peer_id)
        + key_downloaded() + decimal(downloaded as nat) + key_left() + decimal(left as nat)
        + key_uploaded() + decimal(uploaded as nat) + key_event() + urlencoded(event)
        + key_ip_address() + decimal(ip_address as nat) + key_key() + decimal(key as nat)
        + key_num_want() + signed_decimal(num_want as int) + key_port() + decimal(port as nat)
        + query_tail()
}

impl TrackerRequest {
    /// The query string of the announce: each field as `name=value`, joined by
    /// `&`, with the info-hash, the peer-id and the event form-urlencoded,
    /// followed by `no_peer_id=0` and `compact=1`.
    pub fn build_query(&self) -> (r: Vec<u8>)
        ensures
            r@ == query_of(
                self.spec_info_hash(),
                self.spec_peer_id(),
                self.spec_downloaded(),
                self.spec_left(),
                self.spec_uploaded(),
                vstd::utf8::encode_utf8(self.spec_event()),
                self.spec_ip_address(),
                self.spec_key(),
                self.spec_num_want(),
                self.spec_port(),
            ),
    {
        let mut q: Vec<u8> = Vec::new();
        put_info_hash(&mut q);
        let enc = form_urlencode(self.info_hash.as_slice());
        put_slice(&mut q, enc.as_slice());
        put_peer_id(&mut q);
        let enc = form_urlencode(self.peer_id.as_slice());
        put_slice(&mut q, enc.as_slice());
        put_downloaded(&mut q);
        put_decimal(&mut q, self.downloaded);
        put_left(&mut q);
        put_decimal(&mut q, self.left);
        put_uploaded(&mut q);
        put_decimal(&mut q, self.uploaded);
        put_event(&mut q);
        let enc = form_urlencode(self.event.as_str().as_bytes());
        put_slice(&mut q, enc.as_slice());
        put_ip_address(&mut q);
        put_decimal(&mut q, self.ip_address as u64);
        put_key(&mut q);
        put_decimal(&mut q, self.key as u64);
        put_num_want(&mut q);
        put_signed_decimal(&mut q, self.num_want);
        put_port(&mut q);
        put_decimal(&mut q, self.port as u64);
        put_tail(&mut q);
        q
    }
}

/// An IPv4 peer address.
#[derive(Debug, Clone, Copy)]
pub struct PeerAddr {
    pub ip: [u8; 4],
    pub port: u16,
}

/// The peers of a tracker response.
#[derive(Debug, Clone)]
pub struct Peers {
    pub addrs: Vec<PeerAddr>,
}

/// Peer `k` of a compact peer list: four address bytes, then a big-endian port.
pub open spec fn compact_peer_ok(b: Seq<u8>, k: int, a: PeerAddr) -> bool {
    &&& a.ip@ == b.subrange(6 * k, 6 * k + 4)
    &&& a.port == be16_at(b, 6 * k + 4)
}

/// Reads a compact peer list: one peer per whole 6-byte chunk; a shorter
/// tail is ignored.
pub fn parse_compact_peers(b: &[u8]) -> (r: Vec<PeerAddr>)
    ensures
        r@.len() == b@.len() / 6,
        forall|k: int| 0 <= k < r@.len() ==> compact_peer_ok(b@, k, #[trigger] r@[k]),
{
    let blen = b.len();
    let n = blen / 6;
    let mut r: Vec<PeerAddr> = Vec::with_capacity(n);
    let mut k: usize = 0;
    while k < n
        invariant
            blen == b@.len(),
            n == b@.len() / 6,
            k <= n,
            r@.len() == k,
            forall|j: int| 0 <= j < k ==> compact_peer_ok(b@, j, #[trigger] r@[j]),
        decreases n - k,
    {
        assert(6 * k + 6 <= b@.len()) by (nonlinear_arith)
            requires
                k < n,
                n == b@.len() / 6,
        ;
        let at = 6 * k;
        let mut ip: [u8; 4] = [0u8; 4];
        ip.set(0, b[at]);
        ip.set(1, b[at + 1]);
        ip.set(2, b[at + 2]);
        ip.set(3, b[at + 3]);
        let port = get_u16(b, at + 4);
        let a = PeerAddr { ip, port };
        assert(a.ip@ =~= b@.subrange(6 * k, 6 * k + 4));
        r.push(a);
        k = k + 1;
    }
    r
}

/// A tracker's answer to an announce.
#[derive(Debug, Clone)]
pub struct TrackerResponse {
    /// Human readable reason why the request failed.
    pub failure_reason: Option<Vec<u8>>,
    pub warning_message: Option<Vec<u8>>,
    /// Number of seeders.
    pub complete: u32,
    /// Seconds to wait between announces.
    pub interval: u32,
    /// Seconds below which the client must not announce again.
    pub min_interval: Option<u64>,
    pub tracker_id: Option<Vec<u8>>,
    /// Number of leechers.
    pub incomplete: u32,
    pub peers: Peers,
}

/// Seconds that must pass between two announces to a tracker: the minimum
/// interval when the tracker gave one, else the interval.
pub fn announce_wait(response: &TrackerResponse) -> (r: u64)
    ensures
        response.min_interval matches Some(m) ==> r == m,
        response.min_interval is None ==> r == response.interval,
{
    match response.min_interval {
        Some(m) => m,
        None => response.interval as u64,
    }
}

/// Whether a tracker last answered at `last` (seconds, if ever) may be
/// announced to again at `now`, having asked for `wait` seconds between
/// announces.
pub fn may_announce(last: Option<u64>, now: u64, wait: u64) -> (r: bool)
    ensures
        last is None ==> r,
        last matches Some(t) ==> r == (now >= t && now - t >= wait),
{
    match last {
        None => true,
        Some(t) => now >= t && now - t >= wait,
    }
}

/// Protocol id that opens a UDP connect request.
pub const UDP_PROTOCOL_ID: u64 = 0x41727101980;

/// Seconds to wait for the answer to UDP connect attempt `n` (from 0):
/// `15 * 2^n`, for at most nine attempts.
pub fn udp_timeout(n: u32) -> (r: Option<u64>)
    ensures
        n <= 8 <==> r is Some,
        r matches Some(t) ==> t == 15 * vstd::arithmetic::power2::pow2(n as nat),
{
    if n > 8 {
        return None;
    }
    let mut t: u64 = 15;
    let mut i: u32 = 0;
    proof {
        vstd::arithmetic::power2::lemma2_to64();
    }
    while i < n
        invariant
            i <= n <= 8,
            t == 15 * vstd::arithmetic::power2::pow2(i as nat),
        decreases n - i,
    {
        proof {
            vstd::arithmetic::power2::lemma_pow2_unfold((i + 1) as nat);
            vstd::arithmetic::power2::lemma_pow2_strictly_increases(i as nat, 8);
            vstd::arithmetic::power2::lemma2_to64();
        }
        t = t * 2;
        i = i + 1;
    }
    Some(t)
}

/// Bytes of a UDP connect request.
pub open spec fn udp_connect_bytes(transaction_id: u32) -> Seq<u8> {
    be64(UDP_PROTOCOL_ID) + be32(0) + be32(transaction_id)
}

/// Encodes a UDP connect request: protocol id, action 0, transaction id.
pub fn encode_udp_connect(transaction_id: u32) -> (r: Vec<u8>)
    ensures
        r@ == udp_connect_bytes(transaction_id),
        r@.len() == 16,
{
    let mut r: Vec<u8> = Vec::new();
    put_u64(&mut r, UDP_PROTOCOL_ID);
    put_u32(&mut r, 0);
    put_u32(&mut r, transaction_id);
    assert(r@ =~= udp_connect_bytes(transaction_id));
    r
}

/// Event code of a UDP announce: `completed` 1, `started` 2, `stopped` 3, else 0.
pub open spec fn event_code(event: Seq<u8>) -> u32 {
    if event == seq![99u8, 111, 109, 112, 108, 101, 116, 101, 100] {
        1
    } else if event == seq![115u8, 116, 97, 114, 116, 101, 100] {
        2
    } else if event == seq![115u8, 116, 111, 112, 112, 101, 100] {
        3
    } else {
        0
    }
}

fn event_number(event: &[u8]) -> (r: u32)
    ensures
        r == event_code(event@),
{
    let completed: Vec<u8> = vec![99u8, 111, 109, 112, 108, 101, 116, 101, 100];
    let started: Vec<u8> = vec![115u8, 116, 97, 114, 116, 101, 100];
    let stopped: Vec<u8> = vec![115u8, 116, 111, 112, 112, 101, 100];
    assert(completed@ =~= seq![99u8, 111, 109, 112, 108, 101, 116, 101, 100]);
    assert(started@ =~= seq![115u8, 116, 97, 114, 116, 101, 100]);
    assert(stopped@ =~= seq![115u8, 116, 111, 112, 112, 101, 100]);
    if crate::piece::bytes_eq(event, completed.as_slice()) {
        1
    } else if crate::piece::bytes_eq(event, started.as_slice()) {
        2
    } else if crate::piece::bytes_eq(event, stopped.as_slice()) {
        3
    } else {
        0
    }
}

impl TrackerRequest {
    /// Bytes of the UDP announce of this request.
    pub open spec fn udp_announce_bytes(&self, connection_id: u64, transaction_id: u32) -> Seq<u8> {
        be64(connection_id) + be32(1) + be32(transaction_id) + self.spec_info_hash()
            + self.spec_peer_id() + be64(self.spec_downloaded()) + be64(self.spec_left()) + be64(
            self.spec_uploaded(),
        ) + be32(event_code(vstd::utf8::encode_utf8(self.spec_event()))) + be32(
            self.spec_ip_address(),
        ) + be32(self.spec_key()) + be32(self.spec_num_want() as u32) + be16(self.spec_port())
    }

    /// Encodes the UDP announce of this request: connection id, action 1,
    /// transaction id, then the request's fields in network order.
    pub fn encode_udp_announce(&self, connection_id: u64, transaction_id: u32) -> (r: Vec<u8>)
        ensures
            r@ == self.udp_announce_bytes(connection_id, transaction_id),
    {
        let mut r: Vec<u8> = Vec::new();
        let ghost start = r@;
        put_u64(&mut r, connection_id);
        put_u32(&mut r, 1);
        put_u32(&mut r, transaction_id);
        put_slice(&mut r, self.info_hash.as_slice());
        put_slice(&mut r, self.peer_id.as_slice());
        put_u64(&mut r, self.downloaded);
        put_u64(&mut r, self.left);
        put_u64(&mut r, self.uploaded);
        put_u32(&mut r, event_number(self.event.as_str().as_bytes()));
        put_u32(&mut r, self.ip_address);
        put_u32(&mut r, self.key);
        put_u32(&mut r, self.num_want as u32);
        put_u16(&mut r, self.port);
        assert(r@ =~= self.udp_announce_bytes(connection_id, transaction_id));
        r
    }
}

/// What a UDP tracker sent back.
#[derive(Debug, Clone)]
pub enum UdpResponse {
    /// Answer to a connect: the connection id to use.
    Connect { transaction_id: u32, connection_id: u64 },
    /// Answer to an announce.
    Announce { transaction_id: u32, response: TrackerResponse },
}

/// Why a tracker exchange failed.
#[derive(Debug, Clone)]
pub enum ConnectionError {
    /// The tracker answered with an error and this message.
    Tracker(Vec<u8>),
    /// The datagram is too short or carries an unknown action.
    Malformed,
}

/// Decodes a UDP tracker datagram: a connect answer (action 0, 16 bytes),
/// an announce answer (action 1: interval, leechers, seeders, then compact
/// peers), or an error (action 3, with its message).
pub fn decode_udp_response(buf: &[u8]) -> (r: Result<UdpResponse, ConnectionError>)
    ensures
        buf@.len() < 8 ==> r matches Err(ConnectionError::Malformed),
        buf@.len() >= 8 && be32_at(buf@, 0) == 0 ==> {
            &&& buf@.len() >= 16 <==> r is Ok
            &&& r matches Ok(UdpResponse::Connect { transaction_id, connection_id }) ==> {
                &&& transaction_id == be32_at(buf@, 4)
                &&& connection_id == be64_at(buf@, 8)
            }
            &&& !(r matches Ok(UdpResponse::Announce { .. }))
        },
        buf@.len() >= 8 && be32_at(buf@, 0) == 1 ==> {
            &&& buf@.len() >= 20 <==> r is Ok
            &&& r matches Ok(UdpResponse::Announce { transaction_id, response }) ==> {
                let peers = buf@.subrange(20, buf@.len() as int);
                &&& transaction_id == be32_at(buf@, 4)
                &&& response.interval == be32_at(buf@, 8)
                &&& response.incomplete == be32_at(buf@, 12)
                &&& response.complete == be32_at(buf@, 16)
                &&& response.min_interval is None
                &&& response.failure_reason is None
                &&& response.peers.addrs@.len() == peers.len() / 6
                &&& forall|k: int|
                    0 <= k < response.peers.addrs@.len() ==> compact_peer_ok(
                        peers,
                        k,
                        #[trigger] response.peers.addrs@[k],
                    )
            }
            &&& !(r matches Ok(UdpResponse::Connect { .. }))
        },
        buf@.len() >= 8 && be32_at(buf@, 0) == 3 ==> {
            &&& r matches Err(ConnectionError::Tracker(m))
            &&& r->Err_0->Tracker_0@ == buf@.subrange(8, buf@.len() as int)
        },
        buf@.len() >= 8 && be32_at(buf@, 0) > 3 || buf@.len() >= 8 && be32_at(buf@, 0) == 2
            ==> r matches Err(ConnectionError::Malformed),
{
    let len = buf.len();
    if len < 8 {
        return Err(ConnectionError::Malformed);
    }
    let action = get_u32(buf, 0);
    let transaction_id = get_u32(buf, 4);
    if action == 0 {
        if len < 16 {
            return Err(ConnectionError::Malformed);
        }
        let connection_id = get_u64(buf, 8);
        Ok(UdpResponse::Connect { transaction_id, connection_id })
    } else if action == 1 {
        if len < 20 {
            return Err(ConnectionError::Malformed);
        }
        let interval = get_u32(buf, 8);
        let leechers = get_u32(buf, 12);
        let seeders = get_u32(buf, 16);
        let rest = crate::block::copy_range(buf, 20, len);
        let addrs = parse_compact_peers(rest.as_slice());
        let response = TrackerResponse {
            failure_reason: None,
            warning_message: None,
            complete: seeders,
            interval,
            min_interval: None,
            tracker_id: None,
            incomplete: leechers,
            peers: Peers { addrs },
        };
        Ok(UdpResponse::Announce { transaction_id, response })
    } else if action == 3 {
        let msg = crate::block::copy_range(buf, 8, len);
        Err(ConnectionError::Tracker(msg))
    } else {
        Err(ConnectionError::Malformed)
    }
}

/// An encoded query string.
#[derive(Debug, Clone)]
pub struct Query(pub Vec<u8>);

impl Query {
    pub fn new(bytes: Vec<u8>) -> (r: Self)
        ensures
            r.0@ == bytes@,
    {
        Query(bytes)
    }
}

/// A tracker's raw answer.
#[derive(Debug, Clone)]
pub struct Bytes(pub Vec<u8>);

impl TrackerRequest {
    /// The query of this request's HTTP announce.
    pub fn into_query(&self) -> (r: Query)
        ensures
            r.0@ == query_of(
                self.spec_info_hash(),
                self.spec_peer_id(),
                self.spec_downloaded(),
                self.spec_left(),
                self.spec_uploaded(),
                vstd::utf8::encode_utf8(self.spec_event()),
                self.spec_ip_address(),
                self.spec_key(),
                self.spec_num_want(),
                self.spec_port(),
            ),
    {
        Query::new(self.build_query())
    }
}

/// The announce that opens a download: nothing downloaded or uploaded yet,
/// `left` bytes to go, event `started`.
pub fn announce_request(
    info_hash: Vec<u8>,
    peer_id: Vec<u8>,
    port: u16,
    left: u64,
    num_want: i32,
) -> (r: TrackerRequest)
    ensures
        r.spec_info_hash() == info_hash@,
        r.spec_peer_id() == peer_id@,
        r.spec_port() == port,
        r.spec_left() == left,
        r.spec_num_want() == num_want,
        r.spec_downloaded() == 0,
        r.spec_uploaded() == 0,
        r.spec_event() == "started"@,
{
    TrackerRequestBuilder::new()
        .info_hash(info_hash)
        .peer_id(peer_id)
        .with_port(port)
        .downloaded(0)
        .uploaded(0)
        .left(left)
        .num_want(num_want)
        .event(String::from_str("started"))
        .build()
}

/// The transport of a tracker.
#[derive(Debug, Clone, Copy, PartialEq, Eq, Structural)]
pub enum TrackerKind {
    Http,
    Https,
    Udp,
}

/// The transport named by a URL scheme; other schemes are not trackers.
pub fn tracker_kind(scheme: &str) -> (r: Option<TrackerKind>)
    ensures
        scheme.spec_bytes() == seq![104u8, 116, 116, 112] ==> r == Some(TrackerKind::Http),
        scheme.spec_bytes() == seq![104u8, 116, 116, 112, 115] ==> r == Some(TrackerKind::Https),
        scheme.spec_bytes() == seq![117u8, 100, 112] ==> r == Some(TrackerKind::Udp),
        r is None <==> scheme.spec_bytes() != seq![104u8, 116, 116, 112] && scheme.spec_bytes()
            != seq![104u8, 116, 116, 112, 115] && scheme.spec_bytes() != seq![117u8, 100, 112],
{
    let b = scheme.as_bytes();
    let http: Vec<u8> = vec![104u8, 116, 116, 112];
    let https: Vec<u8> = vec![104u8, 116, 116, 112, 115];
    let udp: Vec<u8> = vec![117u8, 100, 112];
    assert(http@ =~= seq![104u8, 116, 116, 112]);
    assert(https@ =~= seq![104u8, 116, 116, 112, 115]);
    assert(udp@ =~= seq![117u8, 100, 112]);
    if crate::piece::bytes_eq(b, http.as_slice()) {
        Some(TrackerKind::Http)
    } else if crate::piece::bytes_eq(b, https.as_slice()) {
        Some(TrackerKind::Https)
    } else if crate::piece::bytes_eq(b, udp.as_slice()) {
        Some(TrackerKind::Udp)
    } else {
        None
    }
}

/// What to do with an HTTP tracker answer.
#[derive(Debug, Clone, Copy, PartialEq, Eq, Structural)]
pub enum HttpAction {
    /// Read the body as the bencoded response.
    Body,
    /// The tracker refused the request.
    BadRequest,
    /// Follow the `Location` header.
    Redirect,
}

/// The action for an HTTP status: redirects (301, 302, 303, 307, 308) are
/// followed, 400 is a refusal, any other status has its body read.
pub fn http_action(status: u16) -> (r: HttpAction)
    ensures
        status == 400 ==> r == HttpAction::BadRequest,
        (r == HttpAction::Redirect) <==> (status == 301 || status == 302 || status == 303 || status
            == 307 || status == 308),
        (r == HttpAction::Body) <==> !(status == 400 || status == 301 || status == 302 || status
            == 303 || status == 307 || status == 308),
{
    if status == 400 {
        HttpAction::BadRequest
    } else if status == 301 || status == 302 || status == 303 || status == 307 || status == 308 {
        HttpAction::Redirect
    } else {
        HttpAction::Body
    }
}

} // verus!
