use torrus::block::{Block, BlockInfo};
use torrus::error::PeerError;
use torrus::message::{Handshake, Message};
use torrus::peer::{inactive, AgentAction, ChokeStatus, ConnectionStatus, Intrest, PeerState, State};
use torrus::piece::PieceHandler;
use torrus::storage::FileInfo;
use torrus::torrent::{check_handshake, peers_wanted, PeerRegistry};

fn store(pieces: usize) -> PieceHandler {
    let total = pieces as u64 * 0x8000;
    let files = vec![FileInfo { path: "f".into(), offset: 0, length: total }];
    PieceHandler::from_metainfo(0x8000, total, &vec![0u8; 20 * pieces], vec![false; pieces], files)
}

#[test]
fn peer_initial_state() {
    let s = State::new(100);
    assert_eq!(s.peer_state.choke, ChokeStatus::Choked);
    assert_eq!(s.peer_state.intrest, Intrest::NotInterested);
    assert_eq!(s.client_state.choke, ChokeStatus::Choked);
    assert_eq!(s.client_state.intrest, Intrest::NotInterested);
    assert_eq!(s.peer_state.bitfield, vec![false; 100]);
    assert!(!s.client_download());
    let p = PeerState::new(3);
    assert_eq!(p.connection_status, ConnectionStatus::Connected);
}

#[test]
fn peer_have_index_bounds() {
    let mut s = State::new(100);
    assert!(matches!(s.handle_message(Message::Have(100)), Err(PeerError::HaveOutOfRange(100))));
    assert_eq!(s.peer_state.bitfield, vec![false; 100]);
    assert!(matches!(s.handle_message(Message::Have(99)), Ok(AgentAction::Continue)));
    assert!(s.peer_state.bitfield[99]);
    assert_eq!(s.set_index(100), Err(PeerError::HaveOutOfRange(100)));
    assert_eq!(s.set_index(5), Ok(()));
    assert!(s.peer_state.bitfield[5]);
}

#[test]
fn peer_bitfield_length_mismatch() {
    let mut s = State::new(100);
    assert!(matches!(
        s.handle_message(Message::Bitfield(vec![0xFF; 12])),
        Err(PeerError::BitfieldLength)
    ));
    let mut bytes = vec![0u8; 13];
    bytes[0] = 0x80;
    bytes[12] = 0x10;
    assert!(s.handle_message(Message::Bitfield(bytes)).is_ok());
    assert!(s.peer_state.bitfield[0]);
    assert!(s.peer_state.bitfield[99]);
    assert!(!s.peer_state.bitfield[1]);
    assert!(matches!(
        s.handle_message(Message::Bitfield(vec![0u8; 13])),
        Err(PeerError::BitfieldNotFirst)
    ));
}

#[test]
fn peer_bitfield_after_keep_alive_is_first() {
    let mut s = State::new(8);
    s.handle_message(Message::KeepAlive).unwrap();
    assert!(s.handle_message(Message::Bitfield(vec![0xFF])).is_ok());
    let mut t = State::new(8);
    t.handle_message(Message::Unchoke).unwrap();
    assert!(matches!(t.handle_message(Message::Bitfield(vec![0xFF])), Err(PeerError::BitfieldNotFirst)));
}

#[test]
fn peer_choke_and_interest() {
    let mut s = State::new(4);
    s.handle_message(Message::Unchoke).unwrap();
    assert_eq!(s.peer_state.choke, ChokeStatus::Unchoked);
    s.handle_message(Message::Interested).unwrap();
    assert_eq!(s.peer_state.intrest, Intrest::Interested);
    s.handle_message(Message::Choke).unwrap();
    assert_eq!(s.peer_state.choke, ChokeStatus::Choked);
    s.handle_message(Message::NotInterested).unwrap();
    assert_eq!(s.peer_state.intrest, Intrest::NotInterested);
    assert!(matches!(s.handle_message(Message::Port(1)), Ok(AgentAction::Continue)));
    let b = Block::new(BlockInfo { piece_index: 1, begin: 0, length: 2 }, vec![1, 2]);
    match s.handle_message(Message::Piece(b)).unwrap() {
        AgentAction::Deliver(b) => assert_eq!(b.data, vec![1, 2]),
        other => panic!("unexpected {:?}", other),
    }
}

#[test]
fn peer_never_requests_while_choked() {
    let mut handler = store(2);
    let mut s = State::new(2);
    s.handle_message(Message::Bitfield(vec![0xC0])).unwrap();
    assert!(matches!(s.next_message(&mut handler, 0), Some(Message::Interested)));
    // still choked: no request, however long we wait
    assert!(s.next_message(&mut handler, 0).is_none());
    assert!(matches!(s.next_message(&mut handler, 120), Some(Message::KeepAlive)));
    s.handle_message(Message::Unchoke).unwrap();
    match s.next_message(&mut handler, 0) {
        Some(Message::Request(b)) => assert_eq!(b, BlockInfo { piece_index: 0, begin: 0, length: 0x4000 }),
        other => panic!("unexpected {:?}", other),
    }
    assert_eq!(s.outstanding, 1);
    s.handle_message(Message::Choke).unwrap();
    for _ in 0..5 {
        assert!(!matches!(s.next_message(&mut handler, 500), Some(Message::Request(_))));
    }
}

#[test]
fn peer_request_window() {
    let mut handler = store(20);
    let mut s = State::new(20);
    s.handle_message(Message::Bitfield(vec![0xFF, 0xFF, 0xF0])).unwrap();
    s.handle_message(Message::Unchoke).unwrap();
    assert!(matches!(s.next_message(&mut handler, 0), Some(Message::Interested)));
    let mut requests = 0;
    while let Some(Message::Request(_)) = s.next_message(&mut handler, 0) {
        requests += 1;
    }
    assert_eq!(requests, 10);
}

#[test]
fn peer_inactivity() {
    assert!(!inactive(179));
    assert!(inactive(180));
}

#[test]
fn registry_refuses_duplicate_peer_id() {
    let mut reg = PeerRegistry::new();
    assert!(reg.register([1; 20]));
    assert!(reg.register([2; 20]));
    assert_eq!(reg.len(), 2);
    assert!(!reg.register([1; 20]));
    assert_eq!(reg.len(), 2);
    assert!(reg.contains(&[2; 20]));
    assert!(reg.remove(&[1; 20]));
    assert!(!reg.contains(&[1; 20]));
    assert_eq!(reg.len(), 1);
    assert!(!reg.remove(&[1; 20]));
}

#[test]
fn handshake_info_hash_check() {
    let h = Handshake::new([7; 20], [1; 20]);
    assert_eq!(check_handshake(&[1; 20], &h), Ok([7; 20]));
    assert_eq!(check_handshake(&[2; 20], &h), Err(PeerError::InfoHashMismatch));
}

#[test]
fn coordinator_peers_wanted() {
    assert_eq!(peers_wanted(0), Some(30));
    assert_eq!(peers_wanted(29), Some(1));
    assert_eq!(peers_wanted(30), None);
}
