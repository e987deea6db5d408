//! Wire messages of the peer protocol and their byte-level model.
use crate::block::{Block, BlockInfo, PieceIndex, BLOCK_SIZE};
use vstd::prelude::*;

verus! {

/// A 20-byte identifier: an info-hash or a peer-id.
pub type Hash = [u8; 20];

/// 20-byte identifier of a client instance.
pub type PeerId = [u8; 20];

/// Length of the handshake frame.
pub const HANDSHAKE_LEN: usize = 68;

/// Length of the protocol identifier string.
pub const PROTOCOL_LEN: u8 = 19;

/// The 19 ASCII bytes of `"BitTorrent protocol"`.
pub open spec fn protocol_id() -> Seq<u8> {
    seq![66u8, 105, 116, 84, 111, 114, 114, 101, 110, 116, 32, 112, 114, 111, 116, 111, 99, 111, 108]
}

/// The handshake that opens every peer connection.
#[derive(Debug, Clone, Copy)]
pub struct Handshake {
    pub peer_id: PeerId,
    pub info_hash: Hash,
    pub reserved: [u8; 8],
}

impl Handshake {
    /// A handshake with an all-zero reserved field.
    pub fn new(peer_id: PeerId, info_hash: Hash) -> (r: Self)
        ensures
            r.peer_id@ == peer_id@,
            r.info_hash@ == info_hash@,
            r.reserved@ == seq![0u8; 8],
    {
        let reserved: [u8; 8] = [0, 0, 0, 0, 0, 0, 0, 0];
        assert(reserved@ =~= seq![0u8; 8]);
        Self { peer_id, info_hash, reserved }
    }

    /// Length in bytes of an encoded handshake.
    pub fn len() -> (r: usize)
        ensures
            r == HANDSHAKE_LEN,
    {
        19 + 49
    }
}

/// Bytes of an encoded handshake: length prefix 19, the identifier, the
/// reserved field, the info-hash and the peer-id.
pub open spec fn handshake_bytes(h: Handshake) -> Seq<u8> {
    seq![PROTOCOL_LEN] + protocol_id() + h.reserved@ + h.info_hash@ + h.peer_id@
}

/// All messages that follow the handshake.
#[derive(Debug, Clone)]
pub enum Message {
    KeepAlive,
    Choke,
    Unchoke,
    Interested,
    NotInterested,
    Have(PieceIndex),
    /// The raw bitfield payload: one bit per piece, most significant bit first.
    Bitfield(Vec<u8>),
    Request(BlockInfo),
    Piece(Block),
    Cancel { index: PieceIndex, begin: u32, length: u32 },
    Port(u16),
}

/// What a message carries on the wire.
pub enum MessageModel {
    KeepAlive,
    Choke,
    Unchoke,
    Interested,
    NotInterested,
    Have(u32),
    Bitfield(Seq<u8>),
    Request { index: u32, begin: u32, length: u32 },
    Piece { index: u32, begin: u32, data: Seq<u8> },
    Cancel { index: u32, begin: u32, length: u32 },
    Port(u16),
}

impl View for Message {
    type V = MessageModel;

    open spec fn view(&self) -> MessageModel {
        match self {
            Message::KeepAlive => MessageModel::KeepAlive,
            Message::Choke => MessageModel::Choke,
            Message::Unchoke => MessageModel::Unchoke,
            Message::Interested => MessageModel::Interested,
            Message::NotInterested => MessageModel::NotInterested,
            Message::Have(i) => MessageModel::Have(*i),
            Message::Bitfield(b) => MessageModel::Bitfield(b@),
            Message::Request(bi) => MessageModel::Request {
                index: bi.piece_index,
                begin: bi.begin,
                length: bi.length,
            },
            Message::Piece(b) => MessageModel::Piece {
                index: b.block_info.piece_index,
                begin: b.block_info.begin,
                data: b.data@,
            },
            Message::Cancel { index, begin, length } => MessageModel::Cancel {
                index: *index,
                begin: *begin,
                length: *length,
            },
            Message::Port(p) => MessageModel::Port(*p),
        }
    }
}

/// Message ids of the wire protocol.
#[derive(Debug, Clone, Copy, PartialEq, Eq, Structural)]
pub enum MessageID {
    Choke,
    Unchoke,
    Interested,
    NotInterested,
    Have,
    Bitfield,
    Request,
    Piece,
    Cancel,
    Port,
}

impl MessageID {
    /// The id byte of each kind of message.
    pub open spec fn spec_byte(self) -> u8 {
        match self {
            MessageID::Choke => 0,
            MessageID::Unchoke => 1,
            MessageID::Interested => 2,
            MessageID::NotInterested => 3,
            MessageID::Have => 4,
            MessageID::Bitfield => 5,
            MessageID::Request => 6,
            MessageID::Piece => 7,
            MessageID::Cancel => 8,
            MessageID::Port => 9,
        }
    }

    pub fn as_byte(self) -> (r: u8)
        ensures
            r == self.spec_byte(),
    {
        match self {
            MessageID::Choke => 0,
            MessageID::Unchoke => 1,
            MessageID::Interested => 2,
            MessageID::NotInterested => 3,
            MessageID::Have => 4,
            MessageID::Bitfield => 5,
            MessageID::Request => 6,
            MessageID::Piece => 7,
            MessageID::Cancel => 8,
            MessageID::Port => 9,
        }
    }

    /// The id that `value` stands for; ids above 9 are unknown.
    pub fn try_from(value: u8) -> (r: Option<MessageID>)
        ensures
            value <= 9 <==> r.is_some(),
            r.is_some() ==> r.unwrap().spec_byte() == value,
    {
        match value {
            0 => Some(MessageID::Choke),
            1 => Some(MessageID::Unchoke),
            2 => Some(MessageID::Interested),
            3 => Some(MessageID::NotInterested),
            4 => Some(MessageID::Have),
            5 => Some(MessageID::Bitfield),
            6 => Some(MessageID::Request),
            7 => Some(MessageID::Piece),
            8 => Some(MessageID::Cancel),
            9 => Some(MessageID::Port),
            _ => None,
        }
    }
}

/// Big-endian bytes of a 32-bit integer.
pub open spec fn be32(x: u32) -> Seq<u8> {
    seq![(x / 16777216) as u8, (x / 65536 % 256) as u8, (x / 256 % 256) as u8, (x % 256) as u8]
}

/// Big-endian bytes of a 64-bit integer.
pub open spec fn be64(x: u64) -> Seq<u8> {
    be32((x / 0x1_0000_0000) as u32) + be32((x % 0x1_0000_0000) as u32)
}

/// Big-endian bytes of a 16-bit integer.
pub open spec fn be16(x: u16) -> Seq<u8> {
    seq![(x / 256) as u8, (x % 256) as u8]
}

/// The integer held big-endian in `s[i..i+4]`.
pub open spec fn be32_at(s: Seq<u8>, i: int) -> int {
    s[i] * 16777216 + s[i + 1] * 65536 + s[i + 2] * 256 + s[i + 3]
}

/// The integer held big-endian in `s[i..i+8]`.
pub open spec fn be64_at(s: Seq<u8>, i: int) -> int {
    be32_at(s, i) * 0x1_0000_0000 + be32_at(s, i + 4)
}

/// The integer held big-endian in `s[i..i+2]`.
pub open spec fn be16_at(s: Seq<u8>, i: int) -> int {
    s[i] * 256 + s[i + 1]
}

/// The payload of a message: its id byte and what follows it (empty for a keep-alive).
pub open spec fn body_of(m: MessageModel) -> Seq<u8> {
    match m {
        MessageModel::KeepAlive => seq![],
        MessageModel::Choke => seq![0u8],
        MessageModel::Unchoke => seq![1u8],
        MessageModel::Interested => seq![2u8],
        MessageModel::NotInterested => seq![3u8],
        MessageModel::Have(i) => seq![4u8] + be32(i),
        MessageModel::Bitfield(b) => seq![5u8] + b,
        MessageModel::Request { index, begin, length } => seq![6u8] + be32(index) + be32(begin)
            + be32(length),
        MessageModel::Piece { index, begin, data } => seq![7u8] + be32(index) + be32(begin) + data,
        MessageModel::Cancel { index, begin, length } => seq![8u8] + be32(index) + be32(begin)
            + be32(length),
        MessageModel::Port(p) => seq![9u8] + be16(p),
    }
}

/// A message whose payload length fits the 32-bit length prefix.
pub open spec fn encodable(m: MessageModel) -> bool {
    body_of(m).len() <= u32::MAX
}

/// The frame of a message: 4-byte big-endian payload length, then the payload.
pub open spec fn frame_of(m: MessageModel) -> Seq<u8> {
    be32(body_of(m).len() as u32) + body_of(m)
}

/// Why a byte stream is not a valid message sequence.
#[derive(Debug, Clone, Copy, PartialEq, Eq, Structural)]
pub enum WireError {
    /// The id byte is not one of the protocol's ids.
    UnknownId(u8),
    /// The payload length does not fit the message id.
    BadLength,
    /// A `Piece` payload carries more than 16 KiB of data.
    BlockTooLarge,
}

/// What a payload decodes to.
pub open spec fn parse_body(body: Seq<u8>) -> Result<MessageModel, WireError>
    recommends
        body.len() >= 1,
{
    let id = body[0];
    let n = body.len();
    if id <= 3 {
        if n != 1 {
            Err(WireError::BadLength)
        } else if id == 0 {
            Ok(MessageModel::Choke)
        } else if id == 1 {
            Ok(MessageModel::Unchoke)
        } else if id == 2 {
            Ok(MessageModel::Interested)
        } else {
            Ok(MessageModel::NotInterested)
        }
    } else if id == 4 {
        if n != 5 {
            Err(WireError::BadLength)
        } else {
            Ok(MessageModel::Have(be32_at(body, 1) as u32))
        }
    } else if id == 5 {
        Ok(MessageModel::Bitfield(body.subrange(1, n as int)))
    } else if id == 6 || id == 8 {
        if n != 13 {
            Err(WireError::BadLength)
        } else if id == 6 {
            Ok(
                MessageModel::Request {
                    index: be32_at(body, 1) as u32,
                    begin: be32_at(body, 5) as u32,
                    length: be32_at(body, 9) as u32,
                },
            )
        } else {
            Ok(
                MessageModel::Cancel {
                    index: be32_at(body, 1) as u32,
                    begin: be32_at(body, 5) as u32,
                    length: be32_at(body, 9) as u32,
                },
            )
        }
    } else if id == 7 {
        if n < 9 {
            Err(WireError::BadLength)
        } else if n - 9 > BLOCK_SIZE {
            Err(WireError::BlockTooLarge)
        } else {
            Ok(
                MessageModel::Piece {
                    index: be32_at(body, 1) as u32,
                    begin: be32_at(body, 5) as u32,
                    data: body.subrange(9, n as int),
                },
            )
        }
    } else if id == 9 {
        if n != 3 {
            Err(WireError::BadLength)
        } else {
            Ok(MessageModel::Port(be16_at(body, 1) as u16))
        }
    } else {
        Err(WireError::UnknownId(id))
    }
}

/// What the front of a buffer decodes to: `Ok(None)` while the frame is
/// incomplete, else the message and the number of bytes it took.
pub open spec fn decode_spec(buf: Seq<u8>) -> Result<Option<(MessageModel, nat)>, WireError> {
    if buf.len() < 4 {
        Ok(None)
    } else {
        let n = be32_at(buf, 0);
        if n == 0 {
            Ok(Some((MessageModel::KeepAlive, 4nat)))
        } else if buf.len() < 4 + n {
            Ok(None)
        } else {
            match parse_body(buf.subrange(4, 4 + n)) {
                Ok(m) => Ok(Some((m, (4 + n) as nat))),
                Err(e) => Err(e),
            }
        }
    }
}

/// A message that decoding accepts back: a `Piece` holds at most 16 KiB.
pub open spec fn decodable(m: MessageModel) -> bool {
    match m {
        MessageModel::Piece { data, .. } => data.len() <= BLOCK_SIZE,
        _ => encodable(m),
    }
}

} // verus!
