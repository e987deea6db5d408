use sha1::{Digest, Sha1};
use std::ops::Range;
use torrus::piece::{InsertOutcome, PieceHandler};
use torrus::block::{Block, BlockInfo};
use torrus::storage::{file_writes, FileInfo, RangeExt};

fn three_files() -> Vec<FileInfo> {
    vec![
        FileInfo { path: "A".into(), offset: 0, length: 100 },
        FileInfo { path: "B".into(), offset: 100, length: 100 },
        FileInfo { path: "C".into(), offset: 200, length: 100 },
    ]
}

#[test]
fn test_range_intersection() {
    let ranges = vec![Range { start: 0, end: 12 }, Range { start: 9, end: 15 }];

    let intersection = RangeExt::new(ranges).intersection();

    assert_eq!(Range { start: 9, end: 12 }, intersection);
}

#[test]
fn storage_multi_file_mapping() {
    let files = three_files();
    let torrent: Vec<u8> = (0..300u32).map(|i| i as u8).collect();

    let w = file_writes(&files, 0, &torrent[0..150]);
    assert_eq!(w.len(), 2);
    assert_eq!((w[0].file_index, w[0].file_offset), (0, 0));
    assert_eq!(w[0].data, torrent[0..100].to_vec());
    assert_eq!((w[1].file_index, w[1].file_offset), (1, 0));
    assert_eq!(w[1].data, torrent[100..150].to_vec());

    let w = file_writes(&files, 150, &torrent[150..300]);
    assert_eq!(w.len(), 2);
    assert_eq!((w[0].file_index, w[0].file_offset), (1, 50));
    assert_eq!(w[0].data, torrent[150..200].to_vec());
    assert_eq!((w[1].file_index, w[1].file_offset), (2, 0));
    assert_eq!(w[1].data, torrent[200..300].to_vec());
}

#[test]
fn storage_every_byte_lands_in_place() {
    let files = three_files();
    let torrent: Vec<u8> = (0..300u32).map(|i| (i * 13 % 256) as u8).collect();
    let mut hashes = Vec::new();
    hashes.extend_from_slice(&Sha1::digest(&torrent[0..150]));
    hashes.extend_from_slice(&Sha1::digest(&torrent[150..300]));
    let mut store = PieceHandler::from_metainfo(150, 300, &hashes, vec![false, false], files.clone());
    let mut disk: Vec<Vec<u8>> = files.iter().map(|f| vec![0u8; f.length as usize]).collect();
    for index in [1u32, 0] {
        let start = index as usize * 150;
        let b = Block::new(
            BlockInfo { piece_index: index, begin: 0, length: 150 },
            torrent[start..start + 150].to_vec(),
        );
        match store.insert_block(b).unwrap() {
            InsertOutcome::Verified(writes) => {
                for w in writes {
                    let at = w.file_offset as usize;
                    disk[w.file_index][at..at + w.data.len()].copy_from_slice(&w.data);
                }
                assert!(store.confirm_written(index as usize));
            }
            other => panic!("unexpected {:?}", other),
        }
    }
    let joined: Vec<u8> = disk.concat();
    assert_eq!(joined, torrent);
    assert_eq!(store.get_bitfield(), &vec![true, true]);
}

#[test]
fn storage_file_ranges() {
    let f = FileInfo { path: "x".into(), offset: 100, length: 50 };
    assert_eq!(f.byte_range(), 100..150);
    assert_eq!(f.get_offset(), 100);
    assert_eq!(f.get_length(), 50);
    // a piece outside every file writes nothing
    assert!(file_writes(&three_files(), 300, &[1, 2, 3]).is_empty());
}
