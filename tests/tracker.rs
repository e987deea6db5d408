use serde_bencode::value::Value;
use torrus::announce::AnnounceRequestBuilder;
use torrus::response::{announce_response, parse_ipv4, Bencode, ResponseError};
use torrus::id::{IdError, ID};
use torrus::tracker::{
    announce_wait, decode_udp_response, encode_udp_connect, may_announce, parse_compact_peers,
    udp_timeout, ConnectionError, Peers, TrackerRequestBuilder, TrackerResponse, UdpResponse,
};

fn to_bencode(v: Value) -> Bencode {
    match v {
        Value::Int(i) => Bencode::Int(i),
        Value::Bytes(b) => Bencode::Bytes(b),
        Value::List(l) => Bencode::List(l.into_iter().map(to_bencode).collect()),
        Value::Dict(d) => Bencode::Dict(d.into_iter().map(|(k, v)| (k, to_bencode(v))).collect()),
    }
}

fn decode(body: &[u8]) -> Bencode {
    to_bencode(serde_bencode::from_bytes::<Value>(body).unwrap())
}

#[test]
fn tracker_http_compact_response() {
    let mut body = b"d8:intervali1800e5:peers6:".to_vec();
    body.extend_from_slice(&[0x7F, 0x00, 0x00, 0x01, 0x1A, 0xE1]);
    body.extend_from_slice(b"e");
    let response = announce_response(&decode(&body)).unwrap();
    assert_eq!(response.interval, 1800);
    assert_eq!(response.peers.addrs.len(), 1);
    assert_eq!(response.peers.addrs[0].ip, [127, 0, 0, 1]);
    assert_eq!(response.peers.addrs[0].port, 6881);
    assert_eq!(response.complete, 0);
    assert_eq!(response.min_interval, None);
    assert_eq!(announce_wait(&response), 1800);
}

#[test]
fn tracker_http_dictionary_peers() {
    let body = b"d8:completei5e10:incompletei2e8:intervali900e12:min intervali60e5:peersld2:ip13:192.168.189.14:porti20111eed2:ip4:host4:porti1eed2:ip8:10.0.0.94:porti80eeee";
    let response = announce_response(&decode(body)).unwrap();
    assert_eq!(response.interval, 900);
    assert_eq!(response.min_interval, Some(60));
    assert_eq!((response.complete, response.incomplete), (5, 2));
    assert_eq!(response.peers.addrs.len(), 2);
    assert_eq!(response.peers.addrs[0].ip, [192, 168, 189, 1]);
    assert_eq!(response.peers.addrs[0].port, 20111);
    assert_eq!(response.peers.addrs[1].ip, [10, 0, 0, 9]);
    assert_eq!(response.peers.addrs[1].port, 80);
    assert_eq!(announce_wait(&response), 60);
}

#[test]
fn tracker_http_failures() {
    match announce_response(&decode(b"d14:failure reason4:nopee")) {
        Err(ResponseError::Failure(m)) => assert_eq!(m, b"nope".to_vec()),
        other => panic!("unexpected {:?}", other),
    }
    assert!(matches!(announce_response(&decode(b"d5:peers0:e")), Err(ResponseError::BadInterval)));
    assert!(matches!(announce_response(&decode(b"d8:intervali-1ee")), Err(ResponseError::BadInterval)));
    assert!(matches!(announce_response(&decode(b"li1ee")), Err(ResponseError::NotADictionary)));
}

#[test]
fn tracker_ipv4_text() {
    assert_eq!(parse_ipv4(b"127.0.0.1"), Some([127, 0, 0, 1]));
    assert_eq!(parse_ipv4(b"255.255.255.255"), Some([255; 4]));
    assert_eq!(parse_ipv4(b"256.0.0.1"), None);
    assert_eq!(parse_ipv4(b"01.2.3.4"), None);
    assert_eq!(parse_ipv4(b"1.2.3"), None);
    assert_eq!(parse_ipv4(b"1.2.3.4."), None);
    assert_eq!(parse_ipv4(b"1.2.3.4x"), None);
    assert_eq!(parse_ipv4(b""), None);
}

#[test]
fn tracker_compact_peers_ignore_tail() {
    let peers = parse_compact_peers(&[1, 2, 3, 4, 0, 80, 5, 6, 7, 8, 0x1F, 0x90, 9, 9]);
    assert_eq!(peers.len(), 2);
    assert_eq!((peers[1].ip, peers[1].port), ([5, 6, 7, 8], 8080));
}

#[test]
fn tracker_query_string() {
    let request = TrackerRequestBuilder::new()
        .info_hash(vec![0x12, 0xAB, b'a', b' ', b'~'])
        .peer_id(b"-TR0001-abc".to_vec())
        .with_port(6881)
        .downloaded(0)
        .uploaded(42)
        .left(123456)
        .num_want(-1)
        .key(7)
        .ip_address(0)
        .event("started".to_string())
        .build();
    let q = String::from_utf8(request.build_query()).unwrap();
    assert_eq!(
        q,
        "info_hash=%12%ABa+%7E&peer_id=-TR0001-abc&downloaded=0&left=123456&uploaded=42\
         &event=started&ip_address=0&key=7&num_want=-1&port=6881&no_peer_id=0&compact=1"
    );
}

#[test]
fn tracker_udp_connect_frame() {
    let bytes = encode_udp_connect(0x01020304);
    assert_eq!(
        bytes,
        vec![0x00, 0x00, 0x04, 0x17, 0x27, 0x10, 0x19, 0x80, 0, 0, 0, 0, 1, 2, 3, 4]
    );
}

#[test]
fn tracker_udp_announce_frame() {
    let request = TrackerRequestBuilder::new()
        .info_hash(vec![1; 20])
        .peer_id(vec![2; 20])
        .left(5)
        .event("started".to_string())
        .num_want(-1)
        .with_port(6881)
        .build();
    let bytes = request.encode_udp_announce(9, 3);
    assert_eq!(bytes.len(), 98);
    assert_eq!(&bytes[0..8], &[0, 0, 0, 0, 0, 0, 0, 9]);
    assert_eq!(&bytes[8..12], &[0, 0, 0, 1]);
    assert_eq!(&bytes[12..16], &[0, 0, 0, 3]);
    assert_eq!(&bytes[64..72], &[0, 0, 0, 0, 0, 0, 0, 5]);
    assert_eq!(&bytes[80..84], &[0, 0, 0, 2]);
    assert_eq!(&bytes[92..96], &[0xFF, 0xFF, 0xFF, 0xFF]);
    assert_eq!(&bytes[96..98], &[0x1A, 0xE1]);
}

#[test]
fn tracker_udp_responses() {
    let connect = [0, 0, 0, 0, 0, 0, 0, 7, 0, 0, 0, 0, 0, 0, 1, 0];
    match decode_udp_response(&connect).unwrap() {
        UdpResponse::Connect { transaction_id, connection_id } => {
            assert_eq!(transaction_id, 7);
            assert_eq!(connection_id, 256);
        }
        other => panic!("unexpected {:?}", other),
    }
    let announce = [
        0, 0, 0, 1, 0, 0, 0, 7, 0, 0, 0x07, 0x08, 0, 0, 0, 2, 0, 0, 0, 3, 127, 0, 0, 1, 0x1A, 0xE1,
    ];
    match decode_udp_response(&announce).unwrap() {
        UdpResponse::Announce { transaction_id, response } => {
            assert_eq!(transaction_id, 7);
            assert_eq!(response.interval, 1800);
            assert_eq!(response.incomplete, 2);
            assert_eq!(response.complete, 3);
            assert_eq!(response.peers.addrs.len(), 1);
            assert_eq!(response.peers.addrs[0].port, 6881);
        }
        other => panic!("unexpected {:?}", other),
    }
    let error = [0, 0, 0, 3, 0, 0, 0, 7, b'n', b'o'];
    match decode_udp_response(&error) {
        Err(ConnectionError::Tracker(m)) => assert_eq!(m, b"no".to_vec()),
        other => panic!("unexpected {:?}", other),
    }
    assert!(matches!(decode_udp_response(&[0, 0, 0]), Err(ConnectionError::Malformed)));
    assert!(matches!(decode_udp_response(&[0, 0, 0, 9, 0, 0, 0, 0]), Err(ConnectionError::Malformed)));
}

#[test]
fn tracker_udp_timeouts() {
    assert_eq!(udp_timeout(0), Some(15));
    assert_eq!(udp_timeout(3), Some(120));
    assert_eq!(udp_timeout(8), Some(3840));
    assert_eq!(udp_timeout(9), None);
}

#[test]
fn tracker_announce_gap() {
    assert!(may_announce(None, 0, 1800));
    assert!(!may_announce(Some(100), 1000, 1800));
    assert!(may_announce(Some(100), 1900, 1800));
    let r = TrackerResponse {
        failure_reason: None,
        warning_message: None,
        complete: 0,
        interval: 1800,
        min_interval: Some(60),
        tracker_id: None,
        incomplete: 0,
        peers: Peers { addrs: vec![] },
    };
    assert_eq!(announce_wait(&r), 60);
}

#[test]
fn tracker_announce_builder() {
    let b = AnnounceRequestBuilder::new()
        .info_hash(vec![1; 20])
        .peer_id(vec![2; 20])
        .downloaded(1)
        .left(2)
        .uploaded(3)
        .event("stopped".to_string())
        .ip_address(4)
        .key(5)
        .num_want(6)
        .with_port(7)
        .build();
    let s = format!("{:?}", b);
    assert!(s.contains("num_want: 6"));
    assert!(s.contains("port: 7"));
}

#[test]
fn id_from_hex() {
    let id = ID::from_str("000102030405060708090a0b0c0d0e0f10111213").unwrap();
    assert_eq!(id.as_bytes()[19], 0x13);
    assert_eq!(id.as_bytes()[10], 0x0A);
    let upper = ID::from_str("FFFFFFFFFFFFFFFFFFFFFFFFFFFFFFFFFFFFFFFF").unwrap();
    assert_eq!(upper.0, [0xFF; 20]);
    assert_eq!(ID::from_str("00").unwrap_err(), IdError::Length);
    assert_eq!(
        ID::from_str("zz0102030405060708090a0b0c0d0e0f10111213").unwrap_err(),
        IdError::NotHex
    );
    assert_eq!(ID::default().0, [0; 20]);
}
