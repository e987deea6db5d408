//! A BitTorrent v1 leecher core: wire codec, block and piece assembly, file
//! mapping, per-peer state machine and tracker request/response logic, each
//! stated with contracts and proved.
pub mod block;
pub mod bitfield;
pub mod message;
pub mod error;
pub mod codec;
pub mod storage;
pub mod piece;
pub mod peer;
pub mod tracker;
pub mod announce;
pub mod id;
pub mod torrent;
pub mod sequential;
pub mod metainfo;
pub mod request;
pub mod response;
