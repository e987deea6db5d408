use sha1::{Digest, Sha1};
use torrus::sequential::{Block, Blockinfo, Piece, PieceInfo, WriteError};

fn get_test_block(index: usize, length: u64, offset: u64) -> Block {
    let block_info = Blockinfo {
        offset,
        length,
        index,
    };
    Block::new(&vec![10; length as usize], block_info)
}

#[test]
fn test_piece_write() {
    let piece_info = PieceInfo {
        piece_index: 0,
        hash: vec![],
        length: 20,
    };
    let block = get_test_block(0, 10, 0);

    let mut piece = Piece::new(piece_info);
    piece.write(block).unwrap();

    let block = get_test_block(0, 10, 10);

    piece.write(block).unwrap();

    assert_eq!(vec![10; 20], piece.get_raw_data());
}

#[test]
#[should_panic]
fn test_wrong_offset_piece_write() {
    let piece_info = PieceInfo {
        piece_index: 0,
        hash: vec![],
        length: 10,
    };

    let block = get_test_block(0, 10, 3);

    let mut piece = Piece::new(piece_info);
    piece.write(block).unwrap();
}

#[test]
#[should_panic]
fn test_piece_overwrite() {
    let piece_info = PieceInfo {
        piece_index: 0,
        hash: vec![],
        length: 10,
    };

    let block = get_test_block(0, 10, 0);

    let mut piece = Piece::new(piece_info);
    piece.write(block).unwrap();

    let block = get_test_block(0, 10, 10);

    piece.write(block).unwrap();

    assert_eq!(vec![10; 20], piece.get_raw_data());
}

/// The piece is 10 bytes long: the eleventh one-byte block would reach past
/// its end and is refused.
#[test]
fn test_next_block_request_less_than_block_size() {
    let piece_info = PieceInfo {
        piece_index: 0,
        hash: vec![],
        length: 10,
    };
    let mut piece = Piece::new(piece_info);
    for index in 0..=10 {
        let block = get_test_block(0, 1, index);

        if index < 10 {
            piece.write(block).unwrap();

            let next_block = piece.next_block();

            assert_eq!(next_block.offset, index + 1);
        } else {
            assert_eq!(piece.write(block), Err(WriteError::Overflow));
        }
    }
}

#[test]
fn sequential_next_block_is_full_block_or_rest() {
    let piece = Piece::new(PieceInfo {
        piece_index: 3,
        hash: vec![],
        length: 40000,
    });
    let next = piece.next_block();
    assert_eq!((next.offset, next.length, next.index), (0, 0x4000, 3));
    assert!(!piece.is_full());
    assert_eq!(piece.size(), 0);
}

#[test]
fn sequential_flush_checks_hash() {
    let data = b"Hello".to_vec();
    let hash = Sha1::digest(&data).to_vec();
    let mut piece = Piece::new(PieceInfo {
        piece_index: 0,
        hash,
        length: 5,
    });
    assert!(!piece.can_be_flushed());
    piece
        .write(Block::new(&data, Blockinfo { offset: 0, length: 5, index: 0 }))
        .unwrap();
    assert!(piece.is_full());
    assert!(piece.check_integrity());
    assert!(piece.can_be_flushed());

    let mut bad = Piece::new(PieceInfo {
        piece_index: 0,
        hash: vec![0; 20],
        length: 5,
    });
    bad.write(Block::new(&data, Blockinfo { offset: 0, length: 5, index: 0 }))
        .unwrap();
    assert!(!bad.can_be_flushed());
}

#[test]
fn sequential_length_mismatch_refused() {
    let mut piece = Piece::new(PieceInfo {
        piece_index: 0,
        hash: vec![],
        length: 10,
    });
    let block = Block::new(&[1, 2, 3], Blockinfo { offset: 0, length: 4, index: 0 });
    assert_eq!(piece.write(block), Err(WriteError::LengthMismatch));
    assert_eq!(piece.size(), 0);
}
