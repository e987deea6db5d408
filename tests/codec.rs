use rand::{thread_rng, Rng};
use torrus::bitfield::{bitfield_len, from_bytes, to_bytes};
use torrus::block::{Block, BlockInfo, BLOCK_SIZE};
use torrus::codec::{decode_frame, decode_handshake, HandShakeCodec, PeerCodec};
use torrus::error::PeerError;
use torrus::message::{Handshake, Message, WireError, HANDSHAKE_LEN};

const BLOCK_INFO: BlockInfo = BlockInfo {
    piece_index: 12,
    length: 12,
    begin: 12,
};

fn fixed_len_message(id: u8) -> Message {
    match id {
        0 => Message::KeepAlive,
        1 => Message::Choke,
        2 => Message::Unchoke,
        3 => Message::Interested,
        4 => Message::NotInterested,
        5 => Message::Have(12),
        6 => Message::Request(BLOCK_INFO),
        7 => Message::Cancel {
            index: 12,
            begin: 12,
            length: 12,
        },
        8 => Message::Port(8080),
        _ => Message::KeepAlive,
    }
}

fn correct_handshake() -> Handshake {
    let peer_id = thread_rng().gen::<[u8; 20]>();
    let hash = thread_rng().gen::<[u8; 20]>();
    Handshake::new(peer_id, hash)
}

fn encode(msg: Message) -> Vec<u8> {
    let mut dst = Vec::new();
    PeerCodec.encode(msg, &mut dst);
    dst
}

#[test]
fn test_handshake() {
    let handshake = correct_handshake();
    let mut dst = Vec::new();
    HandShakeCodec.encode(handshake, &mut dst);

    assert_eq!(
        dst.len(),
        Handshake::len(),
        "The length of the handshake after encoding must be {} bytes long",
        Handshake::len()
    );

    HandShakeCodec.decode(&mut dst).unwrap().unwrap();
}

#[test]
fn test_incorrect_handshake() {
    let handshake = correct_handshake();
    let mut dst = Vec::new();
    HandShakeCodec.encode(handshake, &mut dst);
    dst.push(0x15);
    HandShakeCodec.decode(&mut dst).unwrap();
    assert_eq!(dst, vec![0x15]);
}

/// After decoding the buffer must have zero bytes remaining.
#[test]
fn test_message_codec() {
    for id in 0..=8 {
        let msg = fixed_len_message(id);
        let mut dst = Vec::new();

        PeerCodec.encode(msg, &mut dst);
        let msg = PeerCodec.decode(&mut dst).unwrap().unwrap();

        assert_eq!(
            dst.len(),
            0,
            "Number of bytes in buffer not zero for message : {:?}",
            msg
        );
    }
}

#[test]
fn test_bitfield_codec() {
    let bitfield: Vec<u8> = Vec::new();

    let msg = Message::Bitfield(bitfield);
    let mut dst = Vec::new();

    PeerCodec.encode(msg, &mut dst);
    let msg = PeerCodec.decode(&mut dst).unwrap().unwrap();

    assert!(matches!(msg, Message::Bitfield(_)));
    assert_eq!(dst.len(), 0, "After decoding the remaining bytes must be 0");
}

#[test]
fn test_piece_codec() {
    let data_len = thread_rng().gen_range(0..BLOCK_SIZE);
    let mut data = Vec::new();

    for _ in 0..=data_len {
        data.push(thread_rng().gen::<u8>());
    }

    let block = Block::new(BLOCK_INFO, data);
    let mut dst = Vec::new();
    let msg = Message::Piece(block);
    PeerCodec.encode(msg, &mut dst);

    let msg = PeerCodec.decode(&mut dst).unwrap().unwrap();

    assert!(matches!(msg, Message::Piece { .. }));
    assert_eq!(dst.len(), 0);
}

#[test]
#[should_panic]
fn test_incorrect_block_size() {
    let block_info = BlockInfo::new(12, 12);

    let data_len = BLOCK_SIZE + 1;
    let mut data = Vec::new();

    for _ in 0..=data_len {
        data.push(thread_rng().gen::<u8>());
    }

    let block = Block::new(block_info, data);
    let mut dst = Vec::new();
    let msg = Message::Piece(block);
    PeerCodec.encode(msg, &mut dst);

    let msg = PeerCodec.decode(&mut dst).unwrap().unwrap();
    assert!(matches!(msg, Message::Piece { .. }));

    assert_eq!(dst.len(), 0);
}

#[test]
fn codec_request_wire_bytes() {
    let msg = Message::Request(BlockInfo {
        piece_index: 12,
        begin: 0x4000,
        length: 0x4000,
    });
    let bytes = encode(msg);
    assert_eq!(
        bytes,
        vec![
            0x00, 0x00, 0x00, 0x0D, 0x06, 0x00, 0x00, 0x00, 0x0C, 0x00, 0x00, 0x40, 0x00, 0x00,
            0x00, 0x40, 0x00
        ]
    );
    match decode_frame(&bytes).unwrap().unwrap() {
        (Message::Request(b), n) => {
            assert_eq!(n, 17);
            assert_eq!(b, BlockInfo { piece_index: 12, begin: 0x4000, length: 0x4000 });
        }
        other => panic!("unexpected {:?}", other),
    }
}

#[test]
fn codec_handshake_wire_bytes() {
    let mut info_hash = [0u8; 20];
    let mut peer_id = [0u8; 20];
    for i in 0..20 {
        info_hash[i] = 0x01 + i as u8;
        peer_id[i] = 0xA0 + i as u8;
    }
    let mut dst = Vec::new();
    HandShakeCodec.encode(Handshake::new(peer_id, info_hash), &mut dst);
    let mut expected = vec![0x13];
    expected.extend_from_slice(b"BitTorrent protocol");
    expected.extend_from_slice(&[0u8; 8]);
    expected.extend_from_slice(&info_hash);
    expected.extend_from_slice(&peer_id);
    assert_eq!(dst.len(), HANDSHAKE_LEN);
    assert_eq!(dst, expected);
    assert_eq!(&dst[1..20], b"BitTorrent protocol");

    let h = decode_handshake(&dst).unwrap().unwrap();
    assert_eq!(h.info_hash, info_hash);
    assert_eq!(h.peer_id, peer_id);
}

#[test]
fn codec_handshake_rejections() {
    let mut dst = Vec::new();
    HandShakeCodec.encode(Handshake::new([1; 20], [2; 20]), &mut dst);
    assert!(matches!(decode_handshake(&dst[..67]), Ok(None)));

    let mut bad_len = dst.clone();
    bad_len[0] = 18;
    assert_eq!(decode_handshake(&bad_len).unwrap_err(), PeerError::BadProtocolLength(18));

    let mut bad_name = dst.clone();
    bad_name[5] = b'x';
    assert_eq!(decode_handshake(&bad_name).unwrap_err(), PeerError::BadProtocolName);
    let before = bad_name.clone();
    assert!(HandShakeCodec.decode(&mut bad_name).is_err());
    assert_eq!(bad_name, before);
}

#[test]
fn codec_round_trip_every_kind() {
    let msgs = vec![
        Message::KeepAlive,
        Message::Choke,
        Message::Unchoke,
        Message::Interested,
        Message::NotInterested,
        Message::Have(0xDEADBEEF),
        Message::Bitfield(vec![0xF0, 0x01]),
        Message::Request(BlockInfo { piece_index: 1, begin: 2, length: 3 }),
        Message::Piece(Block::new(BlockInfo { piece_index: 7, begin: 0x4000, length: 4 }, vec![9, 8, 7, 6])),
        Message::Cancel { index: 5, begin: 6, length: 7 },
        Message::Port(6881),
    ];
    for msg in msgs {
        let expected = format!("{:?}", msg);
        let mut buf = encode(msg);
        let framed = buf.len();
        buf.extend_from_slice(&[0xAA, 0xBB]);
        let (back, n) = decode_frame(&buf).unwrap().unwrap();
        assert_eq!(n, framed);
        assert_eq!(format!("{:?}", back), expected);
    }
}

#[test]
fn codec_cancel_uses_id_eight() {
    let bytes = encode(Message::Cancel { index: 1, begin: 2, length: 3 });
    assert_eq!(bytes[4], 8);
    let bytes = encode(Message::Port(0x1AE1));
    assert_eq!(bytes, vec![0, 0, 0, 3, 9, 0x1A, 0xE1]);
}

#[test]
fn codec_partial_frames_wait() {
    let bytes = encode(Message::Have(3));
    for cut in 0..bytes.len() {
        let mut part = bytes[..cut].to_vec();
        assert!(matches!(PeerCodec.decode(&mut part), Ok(None)));
        assert_eq!(part, bytes[..cut].to_vec());
    }
    let keep_alive = vec![0, 0, 0, 0];
    assert!(matches!(decode_frame(&keep_alive), Ok(Some((Message::KeepAlive, 4)))));
}

#[test]
fn codec_protocol_errors() {
    let unknown = vec![0, 0, 0, 1, 10];
    assert!(matches!(decode_frame(&unknown), Err(WireError::UnknownId(10))));
    let short_have = vec![0, 0, 0, 2, 4, 0];
    assert!(matches!(decode_frame(&short_have), Err(WireError::BadLength)));
    let mut big = vec![0, 0, 0x40, 0x0A, 7];
    big.extend(vec![0u8; 0x4001 + 8]);
    assert!(matches!(decode_frame(&big), Err(WireError::BlockTooLarge)));
    let mut buf = unknown.clone();
    assert_eq!(PeerCodec.decode(&mut buf).unwrap_err(), PeerError::Wire(WireError::UnknownId(10)));
    assert_eq!(buf, unknown);
}

#[test]
fn codec_bitfield_prefix_is_one_plus_bytes() {
    let bits: Vec<bool> = (0..100).map(|i| i % 3 == 0).collect();
    let payload = to_bytes(&bits);
    assert_eq!(payload.len(), 13);
    assert_eq!(bitfield_len(100), 13);
    let frame = encode(Message::Bitfield(payload.clone()));
    assert_eq!(&frame[..4], &[0, 0, 0, 14]);
    assert_eq!(from_bytes(&payload, 100), bits);
    // MSB first, padding zero
    assert_eq!(payload[0], 0b1001_0010);
    assert_eq!(payload[12] & 0x0F, 0);
}
