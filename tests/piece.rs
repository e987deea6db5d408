use sha1::{Digest, Sha1};
use torrus::block::{block_count, block_len, Block, BlockInfo};
use torrus::piece::{get_overlapping_range, InsertOutcome, Piece, PieceError, PieceHandler, PieceInfo};
use torrus::storage::FileInfo;

fn sha1(data: &[u8]) -> [u8; 20] {
    Sha1::digest(data).into()
}

fn files_of_one_byte(n: u64) -> Vec<FileInfo> {
    (0..n)
        .map(|i| FileInfo {
            path: format!("/tmp/file{}.txt", i),
            length: 1,
            offset: i,
        })
        .collect()
}

/// A 5-byte piece whose one block is `Hello`.
#[test]
fn test_validate() {
    let data = "Hello".as_bytes();

    let block_info = BlockInfo {
        begin: 0,
        piece_index: 0,
        length: 0,
    };

    let block = Block::new(block_info, data.to_vec());

    let mut piece_info = PieceInfo::default();
    piece_info.hash = sha1(data);
    piece_info.len = data.len() as u64;

    let mut piece = Piece::new(piece_info);

    piece.insert_block(block).unwrap();

    assert!(piece.validate());
}

#[test]
fn test_piece_overlap() {
    let data = rand::random::<[u8; 20]>();
    let hash = sha1(&data);

    let files = files_of_one_byte(21);
    let mut piece_info = PieceInfo::default();

    piece_info.hash = hash;
    piece_info.len = data.len() as u64;

    let mut piece = Piece::new(piece_info);

    let block_info = BlockInfo {
        piece_index: 0,
        begin: 0,
        length: 0,
    };

    let block = Block::new(block_info, data.to_vec());

    piece.insert_block(block).unwrap();

    let mut info = PieceInfo::default();
    info.len = 20;
    let range = get_overlapping_range(&files, &info);

    assert_eq!(range, 0..20);
}

#[test]
fn test_piece() {
    let files = files_of_one_byte(21);

    let loop_range = 0..=3;
    let file_range = (0..21).step_by(7);

    for (i, j) in loop_range.zip(file_range) {
        let mut piece_info = PieceInfo::default();

        piece_info.offset = 7 * i;
        piece_info.len = 7;
        piece_info.index = i as u32;

        let piece = Piece::new(piece_info);
        let mut info = PieceInfo::default();
        info.offset = 7 * i;
        info.len = 7;
        assert_eq!(piece.length(), 7);

        let range = get_overlapping_range(&files, &info);

        println!("Start: {}, End: {}", range.start, range.end);
        assert_eq!(range, j..j + 7);
    }
}

#[test]
fn piece_overlap_without_holder_is_empty() {
    let files = vec![FileInfo { path: "a".into(), offset: 0, length: 10 }];
    let mut info = PieceInfo::default();
    info.offset = 10;
    info.len = 5;
    assert_eq!(get_overlapping_range(&files, &info), 0..0);
}

fn one_piece_store(data: &[u8], hash: [u8; 20]) -> PieceHandler {
    let files = vec![FileInfo { path: "a".into(), offset: 0, length: data.len() as u64 }];
    PieceHandler::from_metainfo(data.len() as u64, data.len() as u64, &hash, vec![false], files)
}

fn block(index: u32, begin: u32, data: &[u8]) -> Block {
    Block::new(BlockInfo { piece_index: index, begin, length: data.len() as u32 }, data.to_vec())
}

fn piece_bytes() -> Vec<u8> {
    (0..40000u32).map(|i| (i * 7 % 251) as u8).collect()
}

#[test]
fn piece_assembly_three_blocks() {
    let data = piece_bytes();
    let mut store = one_piece_store(&data, sha1(&data));
    assert_eq!(store.miss_count(), 1);
    let r = store.insert_block(block(0, 0, &data[0..0x4000])).unwrap();
    assert!(matches!(r, InsertOutcome::Stored));
    let r = store.insert_block(block(0, 0x4000, &data[0x4000..0x8000])).unwrap();
    assert!(matches!(r, InsertOutcome::Stored));
    let r = store.insert_block(block(0, 0x8000, &data[0x8000..0x9C40])).unwrap();
    match r {
        InsertOutcome::Verified(writes) => {
            assert_eq!(writes.len(), 1);
            assert_eq!(writes[0].file_index, 0);
            assert_eq!(writes[0].file_offset, 0);
            assert_eq!(writes[0].data, data);
        }
        other => panic!("unexpected {:?}", other),
    }
    assert_eq!(store.get_bitfield(), &vec![false]);
    assert!(store.confirm_written(0));
    assert_eq!(store.get_bitfield(), &vec![true]);
    assert_eq!(store.have_count(), 1);
    assert_eq!(store.miss_count(), 0);
    assert!(!store.confirm_written(0));
    assert_eq!(
        store.insert_block(block(0, 0, &data[0..0x4000])).unwrap_err(),
        PieceError::NotPending
    );
}

#[test]
fn piece_assembly_any_order() {
    let data = piece_bytes();
    let mut store = one_piece_store(&data, sha1(&data));
    assert!(matches!(store.insert_block(block(0, 0x8000, &data[0x8000..])).unwrap(), InsertOutcome::Stored));
    assert!(matches!(store.insert_block(block(0, 0, &data[..0x4000])).unwrap(), InsertOutcome::Stored));
    assert!(matches!(
        store.insert_block(block(0, 0x4000, &data[0x4000..0x8000])).unwrap(),
        InsertOutcome::Verified(_)
    ));
}

#[test]
fn piece_hash_mismatch_reopens() {
    let data = piece_bytes();
    let mut store = one_piece_store(&data, [0u8; 20]);
    store.insert_block(block(0, 0, &data[..0x4000])).unwrap();
    store.insert_block(block(0, 0x4000, &data[0x4000..0x8000])).unwrap();
    let r = store.insert_block(block(0, 0x8000, &data[0x8000..])).unwrap();
    assert!(matches!(r, InsertOutcome::HashMismatch));
    assert!(!store.confirm_written(0));
    assert_eq!(store.get_bitfield(), &vec![false]);
    // blocks were dropped: the same block is accepted again
    assert!(matches!(store.insert_block(block(0, 0, &data[..0x4000])).unwrap(), InsertOutcome::Stored));
}

#[test]
fn piece_block_rules() {
    let data = piece_bytes();
    let mut store = one_piece_store(&data, sha1(&data));
    // an earlier block shorter than 16 KiB is refused
    assert_eq!(
        store.insert_block(block(0, 0, &data[..100])).unwrap_err(),
        PieceError::InvalidBlock
    );
    // misaligned offset
    assert_eq!(
        store.insert_block(block(0, 10, &data[10..0x400A])).unwrap_err(),
        PieceError::InvalidBlock
    );
    // the last block is shorter
    assert!(store.insert_block(block(0, 0x8000, &data[0x8000..])).is_ok());
    assert_eq!(
        store.insert_block(block(0, 0x8000, &data[0x8000..])).unwrap_err(),
        PieceError::DuplicateBlock
    );
    assert_eq!(
        store.insert_block(block(1, 0, &data[..0x4000])).unwrap_err(),
        PieceError::UnknownPiece
    );
}

#[test]
fn piece_block_geometry() {
    assert_eq!(block_count(40000), 3);
    assert_eq!(block_count(0x8000), 2);
    assert_eq!(block_count(1), 1);
    assert_eq!(block_len(40000, 0x8000), 0x1C40);
    assert_eq!(block_len(40000, 0), 0x4000);
    assert_eq!(block_len(0x8000, 0x4000), 0x4000);
}

#[test]
fn piece_picker_walks_blocks() {
    let data = piece_bytes();
    let mut store = one_piece_store(&data, sha1(&data));
    assert_eq!(store.pick_piece(&[false]), None);
    assert_eq!(store.pick_piece(&[true]), Some(BlockInfo { piece_index: 0, begin: 0, length: 0x4000 }));
    assert_eq!(store.pick_piece(&[true]), Some(BlockInfo { piece_index: 0, begin: 0x4000, length: 0x4000 }));
    assert_eq!(store.pick_piece(&[true]), Some(BlockInfo { piece_index: 0, begin: 0x8000, length: 0x1C40 }));
    assert_eq!(store.pick_piece(&[true]), None);
}

#[test]
fn piece_store_layout() {
    let hashes = vec![0u8; 40];
    let files = vec![
        FileInfo { path: "a".into(), offset: 0, length: 100 },
        FileInfo { path: "b".into(), offset: 100, length: 100 },
        FileInfo { path: "c".into(), offset: 200, length: 100 },
    ];
    let store = PieceHandler::from_metainfo(150, 300, &hashes, vec![false, true], files);
    assert_eq!(store.piece_count(), 2);
    assert_eq!(store.have_count(), 1);
    assert_eq!(store.miss_count(), 1);
    assert!(store.match_bitfield_len(1));
    assert!(!store.match_bitfield_len(2));
}
