use sha1::{Digest, Sha1};
use torrus::id::ID;
use torrus::metainfo::{info_hash, layout_files, total_pieces, total_size, tracker_urls};
use torrus::request::TrackerRequest;
use torrus::tracker::{announce_request, http_action, tracker_kind, HttpAction, TrackerKind};

#[test]
fn metainfo_file_offsets() {
    let files = layout_files(vec!["a".to_string(), "b".to_string(), "c".to_string()], &[100, 0, 50]);
    assert_eq!(files.len(), 3);
    assert_eq!((files[0].offset, files[0].length), (0, 100));
    assert_eq!((files[1].offset, files[1].length), (100, 0));
    assert_eq!((files[2].offset, files[2].length), (100, 50));
    assert_eq!(files[2].path, "c");
}

#[test]
fn metainfo_sizes() {
    assert_eq!(total_size(&[100, 100, 100]), Some(300));
    assert_eq!(total_size(&[u64::MAX, 1]), None);
    assert_eq!(total_pieces(300, 150), 2);
    assert_eq!(total_pieces(301, 150), 3);
    assert_eq!(total_pieces(0, 150), 0);
}

#[test]
fn metainfo_info_hash() {
    let bytes = b"d6:lengthi5e4:name1:a12:piece lengthi16384e6:pieces0:e";
    let expected: [u8; 20] = Sha1::digest(bytes).into();
    assert_eq!(info_hash(bytes), expected);
}

#[test]
fn metainfo_tracker_urls() {
    let single = tracker_urls(Some("http://a/announce".into()), Some(vec![vec!["udp://b".into()]]));
    assert_eq!(single, vec!["http://a/announce".to_string()]);
    let tiers = tracker_urls(
        None,
        Some(vec![
            vec!["udp://one".into(), "udp://two".into()],
            vec![],
            vec!["http://three".into()],
        ]),
    );
    assert_eq!(tiers, vec!["udp://one".to_string(), "http://three".to_string()]);
    assert!(tracker_urls(None, None).is_empty());
}

#[test]
fn tracker_kinds_and_statuses() {
    assert_eq!(tracker_kind("http"), Some(TrackerKind::Http));
    assert_eq!(tracker_kind("https"), Some(TrackerKind::Https));
    assert_eq!(tracker_kind("udp"), Some(TrackerKind::Udp));
    assert_eq!(tracker_kind("ftp"), None);
    assert_eq!(http_action(200), HttpAction::Body);
    assert_eq!(http_action(400), HttpAction::BadRequest);
    assert_eq!(http_action(307), HttpAction::Redirect);
    assert_eq!(http_action(301), HttpAction::Redirect);
    assert_eq!(http_action(500), HttpAction::Body);
}

#[test]
fn tracker_started_announce() {
    let r = announce_request(vec![1; 20], vec![2; 20], 6881, 1000, 30);
    let q = String::from_utf8(r.into_query().0).unwrap();
    assert!(q.starts_with("info_hash=%01%01"));
    assert!(q.contains("&downloaded=0&left=1000&uploaded=0&event=started&"));
    assert!(q.contains("&num_want=30&port=6881&no_peer_id=0&compact=1"));
}

#[test]
fn request_setters() {
    let id = ID::from_str("0101010101010101010101010101010101010101").unwrap();
    let r = TrackerRequest::builder()
        .info_hash(id)
        .set_peer_id(ID::default())
        .set_port(6881)
        .set_downloaded(5)
        .set_event(77)
        .set_ip(9)
        .set_key(3)
        .set_num_want(50);
    assert_eq!(r.info_hash.0, [1; 20]);
    assert_eq!(r.peer_id.0, [0; 20]);
    assert_eq!((r.port, r.downloaded, r.left, r.ip_address, r.key, r.num_want), (6881, 5, 77, 9, 3, 50));
}
