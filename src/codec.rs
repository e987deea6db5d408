//! Encoding and decoding of the handshake and of framed messages.
use crate::block::{ceil_div, copy_range, Block, BlockInfo, BLOCK_SIZE};
use crate::error::PeerError;
use crate::message::{
    be16, be16_at, be32, be32_at, be64, be64_at, body_of, decodable, decode_spec, encodable, frame_of,
    handshake_bytes, parse_body, protocol_id, Handshake, Message, MessageModel, WireError,
    HANDSHAKE_LEN, PROTOCOL_LEN,
};
use vstd::prelude::*;

verus! {

/// Appends the big-endian bytes of `x`.
pub fn put_u32(dst: &mut Vec<u8>, x: u32)
    ensures
        final(dst)@ == old(dst)@ + be32(x),
{
    dst.push((x / 16777216) as u8);
    dst.push((x / 65536 % 256) as u8);
    dst.push((x / 256 % 256) as u8);
    dst.push((x % 256) as u8);
    assert(final(dst)@ =~= old(dst)@ + be32(x));
}

/// Appends the big-endian bytes of `x`.
pub fn put_u64(dst: &mut Vec<u8>, x: u64)
    ensures
        final(dst)@ == old(dst)@ + be64(x),
{
    let ghost start = dst@;
    put_u32(dst, (x / 0x1_0000_0000) as u32);
    put_u32(dst, (x % 0x1_0000_0000) as u32);
    assert(dst@ =~= start + be64(x));
}

/// Reads the big-endian integer at `buf[i..i+8]`.
pub fn get_u64(buf: &[u8], i: usize) -> (r: u64)
    requires
        i + 8 <= buf@.len(),
    ensures
        r == be64_at(buf@, i as int),
{
    let n = buf.len();
    assert(i + 8 <= n);
    let hi = get_u32(buf, i) as u64;
    let lo = get_u32(buf, i + 4) as u64;
    assert(hi * 0x1_0000_0000 + lo <= u64::MAX) by (nonlinear_arith)
        requires
            hi <= u32::MAX,
            lo <= u32::MAX,
    ;
    hi * 0x1_0000_0000 + lo
}

/// Appends the big-endian bytes of `x`.
pub fn put_u16(dst: &mut Vec<u8>, x: u16)
    ensures
        final(dst)@ == old(dst)@ + be16(x),
{
    dst.push((x / 256) as u8);
    dst.push((x % 256) as u8);
    assert(final(dst)@ =~= old(dst)@ + be16(x));
}

/// Appends all of `src`.
pub fn put_slice(dst: &mut Vec<u8>, src: &[u8])
    ensures
        final(dst)@ == old(dst)@ + src@,
{
    let ghost start = dst@;
    let mut i: usize = 0;
    while i < src.len()
        invariant
            i <= src@.len(),
            dst@ == start + src@.subrange(0, i as int),
        decreases src@.len() - i,
    {
        dst.push(src[i]);
        i = i + 1;
        assert(dst@ =~= start + src@.subrange(0, i as int));
    }
    assert(src@.subrange(0, src@.len() as int) =~= src@);
}

/// Reads the big-endian integer at `buf[i..i+4]`.
pub fn get_u32(buf: &[u8], i: usize) -> (r: u32)
    requires
        i + 4 <= buf@.len(),
    ensures
        r == be32_at(buf@, i as int),
{
    (buf[i] as u32) * 16777216 + (buf[i + 1] as u32) * 65536 + (buf[i + 2] as u32) * 256 + (buf[i
        + 3] as u32)
}

/// Reads the big-endian integer at `buf[i..i+2]`.
pub fn get_u16(buf: &[u8], i: usize) -> (r: u16)
    requires
        i + 2 <= buf@.len(),
    ensures
        r == be16_at(buf@, i as int),
{
    (buf[i] as u16) * 256 + (buf[i + 1] as u16)
}

/// Reading back big-endian bytes gives the integer written.
pub proof fn lemma_be32_round_trip(x: u32, s: Seq<u8>, i: int)
    requires
        0 <= i,
        i + 4 <= s.len(),
        s.subrange(i, i + 4) == be32(x),
    ensures
        be32_at(s, i) == x,
{
    assert(s[i] == be32(x)[0] && s[i + 1] == be32(x)[1] && s[i + 2] == be32(x)[2] && s[i + 3]
        == be32(x)[3]) by {
        assert(s.subrange(i, i + 4)[0] == s[i]);
        assert(s.subrange(i, i + 4)[1] == s[i + 1]);
        assert(s.subrange(i, i + 4)[2] == s[i + 2]);
        assert(s.subrange(i, i + 4)[3] == s[i + 3]);
    }
    let xi = x as int;
    assert(xi == (xi / 16777216) * 16777216 + (xi / 65536 % 256) * 65536 + (xi / 256 % 256) * 256
        + xi % 256) by (nonlinear_arith)
        requires
            0 <= xi < 0x1_0000_0000,
    {}
}

/// Reading back big-endian bytes gives the integer written.
pub proof fn lemma_be16_round_trip(x: u16, s: Seq<u8>, i: int)
    requires
        0 <= i,
        i + 2 <= s.len(),
        s.subrange(i, i + 2) == be16(x),
    ensures
        be16_at(s, i) == x,
{
    assert(s[i] == s.subrange(i, i + 2)[0]);
    assert(s[i + 1] == s.subrange(i, i + 2)[1]);
}

/// Encoder and decoder of the 68-byte handshake frame.
pub struct HandShakeCodec;

/// The identifier bytes as a vector.
fn protocol_bytes() -> (r: Vec<u8>)
    ensures
        r@ == protocol_id(),
{
    let r: Vec<u8> = vec![66u8, 105, 116, 84, 111, 114, 114, 101, 110, 116, 32, 112, 114, 111, 116, 111, 99, 111, 108];
    assert(r@ =~= protocol_id());
    r
}

/// Copies 20 bytes of `buf` from `start` into an array.
pub fn take_20(buf: &[u8], start: usize) -> (r: [u8; 20])
    requires
        start + 20 <= buf@.len(),
    ensures
        r@ == buf@.subrange(start as int, start + 20),
{
    let mut r: [u8; 20] = [0u8; 20];
    let len = buf.len();
    let mut i: usize = 0;
    while i < 20
        invariant
            i <= 20,
            len == buf@.len(),
            start + 20 <= buf@.len(),
            r@.len() == 20,
            forall|k: int| 0 <= k < i ==> r@[k] == buf@[start + k],
        decreases 20 - i,
    {
        r.set(i, buf[start + i]);
        i = i + 1;
    }
    assert(r@ =~= buf@.subrange(start as int, start + 20));
    r
}

/// Copies 8 bytes of `buf` from `start` into an array.
fn take_8(buf: &[u8], start: usize) -> (r: [u8; 8])
    requires
        start + 8 <= buf@.len(),
    ensures
        r@ == buf@.subrange(start as int, start + 8),
{
    let mut r: [u8; 8] = [0u8; 8];
    let len = buf.len();
    let mut i: usize = 0;
    while i < 8
        invariant
            i <= 8,
            len == buf@.len(),
            start + 8 <= buf@.len(),
            r@.len() == 8,
            forall|k: int| 0 <= k < i ==> r@[k] == buf@[start + k],
        decreases 8 - i,
    {
        r.set(i, buf[start + i]);
        i = i + 1;
    }
    assert(r@ =~= buf@.subrange(start as int, start + 8));
    r
}

/// What decoding a handshake from the front of `buf` gives.
pub open spec fn handshake_decodes(buf: Seq<u8>, r: Result<Option<Handshake>, PeerError>) -> bool {
    if buf.len() < HANDSHAKE_LEN {
        r matches Ok(None)
    } else if buf[0] != PROTOCOL_LEN {
        r == Err::<Option<Handshake>, PeerError>(PeerError::BadProtocolLength(buf[0]))
    } else if buf.subrange(1, 20) != protocol_id() {
        r == Err::<Option<Handshake>, PeerError>(PeerError::BadProtocolName)
    } else {
        &&& r matches Ok(Some(h))
        &&& handshake_bytes(r->Ok_0->Some_0) == buf.subrange(0, HANDSHAKE_LEN as int)
    }
}

/// Decodes a handshake from the front of `buf`, which is left as it is.
pub fn decode_handshake(buf: &[u8]) -> (r: Result<Option<Handshake>, PeerError>)
    ensures
        handshake_decodes(buf@, r),
{
    if buf.len() < HANDSHAKE_LEN {
        return Ok(None);
    }
    if buf[0] != PROTOCOL_LEN {
        return Err(PeerError::BadProtocolLength(buf[0]));
    }
    let proto = protocol_bytes();
    let mut i: usize = 0;
    while i < 19
        invariant
            i <= 19,
            buf@.len() >= HANDSHAKE_LEN,
            buf@[0] == PROTOCOL_LEN,
            proto@ == protocol_id(),
            forall|k: int| 0 <= k < i ==> buf@[1 + k] == protocol_id()[k],
        decreases 19 - i,
    {
        if buf[1 + i] != proto[i] {
            assert(buf@.subrange(1, 20)[i as int] != protocol_id()[i as int]);
            return Err(PeerError::BadProtocolName);
        }
        i = i + 1;
    }
    assert(buf@.subrange(1, 20) =~= protocol_id());
    let reserved = take_8(buf, 20);
    let info_hash = take_20(buf, 28);
    let peer_id = take_20(buf, 48);
    let h = Handshake { peer_id, info_hash, reserved };
    assert(handshake_bytes(h) =~= buf@.subrange(0, HANDSHAKE_LEN as int));
    Ok(Some(h))
}

impl HandShakeCodec {
    /// Appends the 68 bytes of `item`.
    pub fn encode(&mut self, item: Handshake, dst: &mut Vec<u8>)
        ensures
            final(dst)@ == old(dst)@ + handshake_bytes(item),
    {
        let ghost start = dst@;
        dst.push(PROTOCOL_LEN);
        let proto = protocol_bytes();
        put_slice(dst, proto.as_slice());
        put_slice(dst, item.reserved.as_slice());
        put_slice(dst, item.info_hash.as_slice());
        put_slice(dst, item.peer_id.as_slice());
        assert(dst@ =~= start + handshake_bytes(item));
    }

    /// Takes a handshake off the front of `src`; leaves `src` as it is when it
    /// holds less than a whole handshake or on an error.
    pub fn decode(&mut self, src: &mut Vec<u8>) -> (r: Result<Option<Handshake>, PeerError>)
        ensures
            handshake_decodes(old(src)@, r),
            r matches Ok(Some(_)) ==> final(src)@ == old(src)@.subrange(
                HANDSHAKE_LEN as int,
                old(src)@.len() as int,
            ),
            !(r matches Ok(Some(_))) ==> final(src)@ == old(src)@,
    {
        let r = decode_handshake(src.as_slice());
        if let Ok(Some(_)) = r {
            let rest = src.split_off(HANDSHAKE_LEN);
            *src = rest;
        }
        r
    }
}

/// Encoder and decoder of length-prefixed messages.
pub struct PeerCodec;

/// Whether `r` is what decoding the front of `buf` gives.
pub open spec fn frame_decodes(
    buf: Seq<u8>,
    r: Result<Option<(Message, usize)>, WireError>,
) -> bool {
    match (decode_spec(buf), r) {
        (Ok(None), Ok(None)) => true,
        (Ok(Some((m, n))), Ok(Some((x, k)))) => x@ == m && k == n,
        (Err(e), Err(f)) => e == f,
        _ => false,
    }
}

/// Appends the frame of `item`: its 4-byte big-endian length, then its payload.
pub fn encode_message(item: Message, dst: &mut Vec<u8>)
    requires
        encodable(item@),
    ensures
        final(dst)@ == old(dst)@ + frame_of(item@),
{
    let ghost start = dst@;
    let ghost m = item@;
    match item {
        Message::KeepAlive => {
            put_u32(dst, 0);
        },
        Message::Choke => {
            put_u32(dst, 1);
            dst.push(0);
        },
        Message::Unchoke => {
            put_u32(dst, 1);
            dst.push(1);
        },
        Message::Interested => {
            put_u32(dst, 1);
            dst.push(2);
        },
        Message::NotInterested => {
            put_u32(dst, 1);
            dst.push(3);
        },
        Message::Have(index) => {
            put_u32(dst, 5);
            dst.push(4);
            put_u32(dst, index);
        },
        Message::Bitfield(bits) => {
            put_u32(dst, (1 + bits.len()) as u32);
            dst.push(5);
            put_slice(dst, bits.as_slice());
        },
        Message::Request(info) => {
            put_u32(dst, 13);
            dst.push(6);
            put_u32(dst, info.piece_index);
            put_u32(dst, info.begin);
            put_u32(dst, info.length);
        },
        Message::Piece(block) => {
            put_u32(dst, (9 + block.data.len()) as u32);
            dst.push(7);
            put_u32(dst, block.block_info.piece_index);
            put_u32(dst, block.block_info.begin);
            put_slice(dst, block.data.as_slice());
        },
        Message::Cancel { index, begin, length } => {
            put_u32(dst, 13);
            dst.push(8);
            put_u32(dst, index);
            put_u32(dst, begin);
            put_u32(dst, length);
        },
        Message::Port(port) => {
            put_u32(dst, 3);
            dst.push(9);
            put_u16(dst, port);
        },
    }
    assert(dst@ =~= start + frame_of(m));
}

/// Decodes the message at the front of `buf`: `Ok(None)` while the frame is
/// incomplete, else the message and the number of bytes it took.
pub fn decode_frame(buf: &[u8]) -> (r: Result<Option<(Message, usize)>, WireError>)
    ensures
        frame_decodes(buf@, r),
{
    let len = buf.len();
    if len < 4 {
        return Ok(None);
    }
    let n = get_u32(buf, 0);
    if n == 0 {
        return Ok(Some((Message::KeepAlive, 4)));
    }
    if len - 4 < n as usize {
        return Ok(None);
    }
    let end: usize = 4 + n as usize;
    let ghost body = buf@.subrange(4, end as int);
    assert(body.len() == n);
    assert(forall|k: int| 0 <= k < n ==> body[k] == buf@[4 + k]);
    assert(n >= 5 ==> be32_at(body, 1) == be32_at(buf@, 5));
    assert(n >= 9 ==> be32_at(body, 5) == be32_at(buf@, 9));
    assert(n >= 13 ==> be32_at(body, 9) == be32_at(buf@, 13));
    assert(n >= 3 ==> be16_at(body, 1) == be16_at(buf@, 5));
    let id = buf[4];
    if id <= 3 {
        if n != 1 {
            return Err(WireError::BadLength);
        }
        let m = if id == 0 {
            Message::Choke
        } else if id == 1 {
            Message::Unchoke
        } else if id == 2 {
            Message::Interested
        } else {
            Message::NotInterested
        };
        Ok(Some((m, end)))
    } else if id == 4 {
        if n != 5 {
            return Err(WireError::BadLength);
        }
        Ok(Some((Message::Have(get_u32(buf, 5)), end)))
    } else if id == 5 {
        let bits = copy_range(buf, 5, end);
        assert(bits@ =~= body.subrange(1, n as int));
        Ok(Some((Message::Bitfield(bits), end)))
    } else if id == 6 || id == 8 {
        if n != 13 {
            return Err(WireError::BadLength);
        }
        let index = get_u32(buf, 5);
        let begin = get_u32(buf, 9);
        let length = get_u32(buf, 13);
        if id == 6 {
            Ok(Some((Message::Request(BlockInfo { piece_index: index, begin, length }), end)))
        } else {
            Ok(Some((Message::Cancel { index, begin, length }, end)))
        }
    } else if id == 7 {
        if n < 9 {
            return Err(WireError::BadLength);
        }
        if n - 9 > BLOCK_SIZE {
            return Err(WireError::BlockTooLarge);
        }
        let index = get_u32(buf, 5);
        let begin = get_u32(buf, 9);
        let data = copy_range(buf, 13, end);
        assert(data@ =~= body.subrange(9, n as int));
        let info = BlockInfo { piece_index: index, begin, length: n - 9 };
        Ok(Some((Message::Piece(Block::new(info, data)), end)))
    } else if id == 9 {
        if n != 3 {
            return Err(WireError::BadLength);
        }
        Ok(Some((Message::Port(get_u16(buf, 5)), end)))
    } else {
        Err(WireError::UnknownId(id))
    }
}

impl PeerCodec {
    /// Appends the frame of `item` to `dst`.
    pub fn encode(&mut self, item: Message, dst: &mut Vec<u8>)
        requires
            encodable(item@),
        ensures
            final(dst)@ == old(dst)@ + frame_of(item@),
    {
        encode_message(item, dst)
    }

    /// Takes the message at the front of `src` off it. `Ok(None)` (more bytes
    /// needed) and an error leave `src` as it is.
    pub fn decode(&mut self, src: &mut Vec<u8>) -> (r: Result<Option<Message>, PeerError>)
        ensures
            match decode_spec(old(src)@) {
                Ok(None) => r matches Ok(None) && final(src)@ == old(src)@,
                Ok(Some((m, n))) => {
                    &&& r matches Ok(Some(x))
                    &&& r->Ok_0->Some_0@ == m
                    &&& final(src)@ == old(src)@.subrange(n as int, old(src)@.len() as int)
                },
                Err(e) => r == Err::<Option<Message>, PeerError>(PeerError::Wire(e))
                    && final(src)@ == old(src)@,
            },
    {
        match decode_frame(src.as_slice()) {
            Ok(None) => Ok(None),
            Ok(Some((m, n))) => {
                let rest = src.split_off(n);
                *src = rest;
                Ok(Some(m))
            },
            Err(e) => Err(PeerError::Wire(e)),
        }
    }
}

/// A decoded payload is the message that was encoded.
proof fn lemma_parse_body(m: MessageModel)
    requires
        decodable(m),
        !(m matches MessageModel::KeepAlive),
    ensures
        body_of(m).len() >= 1,
        parse_body(body_of(m)) == Ok::<MessageModel, WireError>(m),
{
    let b = body_of(m);
    match m {
        MessageModel::Have(i) => {
            assert(b.subrange(1, 5) =~= be32(i));
            lemma_be32_round_trip(i, b, 1);
        },
        MessageModel::Bitfield(bits) => {
            assert(b.subrange(1, b.len() as int) =~= bits);
        },
        MessageModel::Request { index, begin, length } => {
            assert(b.subrange(1, 5) =~= be32(index));
            assert(b.subrange(5, 9) =~= be32(begin));
            assert(b.subrange(9, 13) =~= be32(length));
            lemma_be32_round_trip(index, b, 1);
            lemma_be32_round_trip(begin, b, 5);
            lemma_be32_round_trip(length, b, 9);
        },
        MessageModel::Cancel { index, begin, length } => {
            assert(b.subrange(1, 5) =~= be32(index));
            assert(b.subrange(5, 9) =~= be32(begin));
            assert(b.subrange(9, 13) =~= be32(length));
            lemma_be32_round_trip(index, b, 1);
            lemma_be32_round_trip(begin, b, 5);
            lemma_be32_round_trip(length, b, 9);
        },
        MessageModel::Piece { index, begin, data } => {
            assert(b.subrange(1, 5) =~= be32(index));
            assert(b.subrange(5, 9) =~= be32(begin));
            assert(b.subrange(9, b.len() as int) =~= data);
            lemma_be32_round_trip(index, b, 1);
            lemma_be32_round_trip(begin, b, 5);
        },
        MessageModel::Port(p) => {
            assert(b.subrange(1, 3) =~= be16(p));
            lemma_be16_round_trip(p, b, 1);
        },
        _ => {},
    }
}

/// Decoding the frame of a message, whatever bytes follow it, gives back the
/// same message and consumes exactly the frame.
pub proof fn lemma_round_trip(m: MessageModel, rest: Seq<u8>)
    requires
        decodable(m),
    ensures
        decode_spec(frame_of(m) + rest) == Ok::<Option<(MessageModel, nat)>, WireError>(
            Some((m, frame_of(m).len()))),
{
    let body = body_of(m);
    let buf = frame_of(m) + rest;
    assert(body.len() <= u32::MAX);
    assert(buf.subrange(0, 4) =~= be32(body.len() as u32));
    lemma_be32_round_trip(body.len() as u32, buf, 0);
    if !(m matches MessageModel::KeepAlive) {
        lemma_parse_body(m);
        assert(buf.subrange(4, 4 + body.len() as int) =~= body);
    }
}

/// The handshake frame is 68 bytes long, and bytes 1 to 19 spell the
/// protocol identifier `BitTorrent protocol`.
pub proof fn lemma_handshake_layout(h: Handshake)
    ensures
        handshake_bytes(h).len() == HANDSHAKE_LEN,
        handshake_bytes(h)[0] == 19,
        handshake_bytes(h).subrange(1, 20) == protocol_id(),
        handshake_bytes(h).subrange(20, 28) == h.reserved@,
        handshake_bytes(h).subrange(28, 48) == h.info_hash@,
        handshake_bytes(h).subrange(48, 68) == h.peer_id@,
{
    let b = handshake_bytes(h);
    assert(b.subrange(1, 20) =~= protocol_id());
    assert(b.subrange(20, 28) =~= h.reserved@);
    assert(b.subrange(28, 48) =~= h.info_hash@);
    assert(b.subrange(48, 68) =~= h.peer_id@);
}

/// Decoding an encoded handshake gives back its fields and consumes 68 bytes.
pub proof fn lemma_handshake_round_trip(h: Handshake, rest: Seq<u8>, r: Result<Option<Handshake>, PeerError>)
    requires
        handshake_decodes(handshake_bytes(h) + rest, r),
    ensures
        r matches Ok(Some(_)),
        r->Ok_0->Some_0.peer_id@ == h.peer_id@,
        r->Ok_0->Some_0.info_hash@ == h.info_hash@,
        r->Ok_0->Some_0.reserved@ == h.reserved@,
{
    let buf = handshake_bytes(h) + rest;
    lemma_handshake_layout(h);
    assert(buf.subrange(0, 68) =~= handshake_bytes(h));
    assert(buf.subrange(1, 20) =~= protocol_id());
    let g = r->Ok_0->Some_0;
    lemma_handshake_layout(g);
    assert(g.peer_id@ =~= handshake_bytes(g).subrange(48, 68));
    assert(g.info_hash@ =~= handshake_bytes(g).subrange(28, 48));
    assert(g.reserved@ =~= handshake_bytes(g).subrange(20, 28));
}

/// The length prefix of a `Bitfield` frame whose payload has one bit per
/// piece, padded to whole bytes, is `1 + ceil(piece_count / 8)`.
pub proof fn lemma_bitfield_prefix(payload: Seq<u8>, piece_count: nat)
    requires
        payload.len() == ceil_div(piece_count as int, 8),
        1 + payload.len() <= u32::MAX,
    ensures
        be32_at(frame_of(MessageModel::Bitfield(payload)), 0) == 1 + ceil_div(piece_count as int, 8),
{
    let f = frame_of(MessageModel::Bitfield(payload));
    assert(f.subrange(0, 4) =~= be32((1 + payload.len()) as u32));
    lemma_be32_round_trip((1 + payload.len()) as u32, f, 0);
}

} // verus!
