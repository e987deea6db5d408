//! An announce request keyed by `ID`s, filled in by chained setters.
use crate::id::ID;
use vstd::prelude::*;

verus! {

/// An announce request.
#[derive(Debug)]
pub struct TrackerRequest {
    pub info_hash: ID,
    pub peer_id: ID,
    pub port: u16,
    pub uploaded: u64,
    pub downloaded: u64,
    pub left: u64,
    pub event: String,
    pub ip_address: u32,
    pub key: u32,
    pub num_want: i32,
}

impl TrackerRequest {
    /// A request with zero identifiers and every field zero or empty.
    pub fn builder() -> (r: Self)
        ensures
            r.info_hash.0@ == seq![0u8; 20],
            r.peer_id.0@ == seq![0u8; 20],
            r.port == 0,
            r.uploaded == 0,
            r.downloaded == 0,
            r.left == 0,
            r.event@.len() == 0,
            r.ip_address == 0,
            r.key == 0,
            r.num_want == 0,
    {
        TrackerRequest {
            info_hash: ID::default(),
            peer_id: ID::default(),
            port: 0,
            uploaded: 0,
            downloaded: 0,
            left: 0,
            event: String::new(),
            ip_address: 0,
            key: 0,
            num_want: 0,
        }
    }

    pub fn info_hash(self, id: ID) -> (r: Self)
        ensures
            r.info_hash.0@ == id.0@,
            r.peer_id.0@ == self.peer_id.0@,
            r.port == self.port,
            r.uploaded == self.uploaded,
            r.downloaded == self.downloaded,
            r.left == self.left,
            r.event@ == self.event@,
            r.ip_address == self.ip_address,
            r.key == self.key,
            r.num_want == self.num_want,
    {
        let mut r = self;
        r.info_hash = id;
        r
    }

    pub fn set_peer_id(self, id: ID) -> (r: Self)
        ensures
            r.info_hash.0@ == self.info_hash.0@,
            r.peer_id.0@ == id.0@,
            r.port == self.port,
            r.uploaded == self.uploaded,
            r.downloaded == self.downloaded,
            r.left == self.left,
            r.event@ == self.event@,
            r.ip_address == self.ip_address,
            r.key == self.key,
            r.num_want == self.num_want,
    {
        let mut r = self;
        r.peer_id = id;
        r
    }

    pub fn set_port(self, port: u16) -> (r: Self)
        ensures
            r.port == port,
            r.info_hash.0@ == self.info_hash.0@,
            r.peer_id.0@ == self.peer_id.0@,
            r.uploaded == self.uploaded,
            r.downloaded == self.downloaded,
            r.left == self.left,
            r.event@ == self.event@,
            r.ip_address == self.ip_address,
            r.key == self.key,
            r.num_want == self.num_want,
    {
        let mut r = self;
        r.port = port;
        r
    }

    pub fn set_downloaded(self, downloaded: u64) -> (r: Self)
        ensures
            r.downloaded == downloaded,
            r.info_hash.0@ == self.info_hash.0@,
            r.peer_id.0@ == self.peer_id.0@,
            r.port == self.port,
            r.uploaded == self.uploaded,
            r.left == self.left,
            r.event@ == self.event@,
            r.ip_address == self.ip_address,
            r.key == self.key,
            r.num_want == self.num_want,
    {
        let mut r = self;
        r.downloaded = downloaded;
        r
    }

    /// Sets the number of bytes left to download.
    pub fn set_event(self, left: u64) -> (r: Self)
        ensures
            r.left == left,
            r.info_hash.0@ == self.info_hash.0@,
            r.peer_id.0@ == self.peer_id.0@,
            r.port == self.port,
            r.uploaded == self.uploaded,
            r.downloaded == self.downloaded,
            r.event@ == self.event@,
            r.ip_address == self.ip_address,
            r.key == self.key,
            r.num_want == self.num_want,
    {
        let mut r = self;
        r.left = left;
        r
    }

    pub fn set_ip(self, ip: u32) -> (r: Self)
        ensures
            r.ip_address == ip,
            r.info_hash.0@ == self.info_hash.0@,
            r.peer_id.0@ == self.peer_id.0@,
            r.port == self.port,
            r.uploaded == self.uploaded,
            r.downloaded == self.downloaded,
            r.left == self.left,
            r.event@ == self.event@,
            r.key == self.key,
            r.num_want == self.num_want,
    {
        let mut r = self;
        r.ip_address = ip;
        r
    }

    pub fn set_key(self, key: u32) -> (r: Self)
        ensures
            r.key == key,
            r.info_hash.0@ == self.info_hash.0@,
            r.peer_id.0@ == self.peer_id.0@,
            r.port == self.port,
            r.uploaded == self.uploaded,
            r.downloaded == self.downloaded,
            r.left == self.left,
            r.event@ == self.event@,
            r.ip_address == self.ip_address,
            r.num_want == self.num_want,
    {
        let mut r = self;
        r.key = key;
        r
    }

    pub fn set_num_want(self, num_want: i32) -> (r: Self)
        ensures
            r.num_want == num_want,
            r.info_hash.0@ == self.info_hash.0@,
            r.peer_id.0@ == self.peer_id.0@,
            r.port == self.port,
            r.uploaded == self.uploaded,
            r.downloaded == self.downloaded,
            r.left == self.left,
            r.event@ == self.event@,
            r.ip_address == self.ip_address,
            r.key == self.key,
    {
        let mut r = self;
        r.num_want = num_want;
        r
    }
}

} // verus!
