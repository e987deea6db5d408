//! Announce requests as the HTTP announce path builds them.
use vstd::prelude::*;

verus! {

/// An announce request to a tracker.
#[derive(Clone, Debug)]
pub struct AnnounceRequest {
    info_hash: Vec<u8>,
    peer_id: Vec<u8>,
    downloaded: u64,
    left: u64,
    uploaded: u64,
    event: String,
    ip_address: u32,
    key: u32,
    num_want: i32,
    port: u16,
}

impl AnnounceRequest {
    pub closed spec fn spec_info_hash(&self) -> Seq<u8> {
        self.info_hash@
    }

    pub closed spec fn spec_peer_id(&self) -> Seq<u8> {
        self.peer_id@
    }

    pub closed spec fn spec_downloaded(&self) -> u64 {
        self.downloaded
    }

    pub closed spec fn spec_left(&self) -> u64 {
        self.left
    }

    pub closed spec fn spec_uploaded(&self) -> u64 {
        self.uploaded
    }

    pub closed spec fn spec_event(&self) -> Seq<char> {
        self.event@
    }

    pub closed spec fn spec_ip_address(&self) -> u32 {
        self.ip_address
    }

    pub closed spec fn spec_key(&self) -> u32 {
        self.key
    }

    pub closed spec fn spec_num_want(&self) -> i32 {
        self.num_want
    }

    pub closed spec fn spec_port(&self) -> u16 {
        self.port
    }

}

/// Collects the fields of a `AnnounceRequest` one by one.
pub struct AnnounceRequestBuilder {
    info_hash: Vec<u8>,
    peer_id: Vec<u8>,
    downloaded: u64,
    left: u64,
    uploaded: u64,
    event: String,
    ip_address: u32,
    key: u32,
    num_want: i32,
    port: u16,
}

impl AnnounceRequestBuilder {
    pub closed spec fn spec_info_hash(&self) -> Seq<u8> {
        self.info_hash@
    }

    pub closed spec fn spec_peer_id(&self) -> Seq<u8> {
        self.peer_id@
    }

    pub closed spec fn spec_downloaded(&self) -> u64 {
        self.downloaded
    }

    pub closed spec fn spec_left(&self) -> u64 {
        self.left
    }

    pub closed spec fn spec_uploaded(&self) -> u64 {
        self.uploaded
    }

    pub closed spec fn spec_event(&self) -> Seq<char> {
        self.event@
    }

    pub closed spec fn spec_ip_address(&self) -> u32 {
        self.ip_address
    }

    pub closed spec fn spec_key(&self) -> u32 {
        self.key
    }

    pub closed spec fn spec_num_want(&self) -> i32 {
        self.num_want
    }

    pub closed spec fn spec_port(&self) -> u16 {
        self.port
    }

    /// A builder with every field empty or zero.
    pub fn new() -> (r: AnnounceRequestBuilder)
        ensures
            r.spec_info_hash().len() == 0,
            r.spec_peer_id().len() == 0,
            r.spec_downloaded() == 0,
            r.spec_left() == 0,
            r.spec_uploaded() == 0,
            r.spec_event().len() == 0,
            r.spec_ip_address() == 0,
            r.spec_key() == 0,
            r.spec_num_want() == 0,
            r.spec_port() == 0,
    {
        let r = AnnounceRequestBuilder {
            info_hash: Vec::new(),
            peer_id: Vec::new(),
            downloaded: 0,
            left: 0,
            uploaded: 0,
            event: String::new(),
            ip_address: 0,
            key: 0,
            num_want: 0,
            port: 0,
        };
        r
    }

    pub fn info_hash(self, info_hash: Vec<u8>) -> (r: AnnounceRequestBuilder)
        ensures
            r.spec_info_hash() == info_hash@,
            r.spec_peer_id() == self.spec_peer_id(),
            r.spec_downloaded() == self.spec_downloaded(),
            r.spec_left() == self.spec_left(),
            r.spec_uploaded() == self.spec_uploaded(),
            r.spec_event() == self.spec_event(),
            r.spec_ip_address() == self.spec_ip_address(),
            r.spec_key() == self.spec_key(),
            r.spec_num_want() == self.spec_num_want(),
            r.spec_port() == self.spec_port(),
    {
        let mut b = self;
        b.info_hash = info_hash;
        b
    }

    pub fn peer_id(self, peer_id: Vec<u8>) -> (r: AnnounceRequestBuilder)
        ensures
            r.spec_info_hash() == self.spec_info_hash(),
            r.spec_peer_id() == peer_id@,
            r.spec_downloaded() == self.spec_downloaded(),
            r.spec_left() == self.spec_left(),
            r.spec_uploaded() == self.spec_uploaded(),
            r.spec_event() == self.spec_event(),
            r.spec_ip_address() == self.spec_ip_address(),
            r.spec_key() == self.spec_key(),
            r.spec_num_want() == self.spec_num_want(),
            r.spec_port() == self.spec_port(),
    {
        let mut b = self;
        b.peer_id = peer_id;
        b
    }

    pub fn downloaded(self, downloaded: u64) -> (r: AnnounceRequestBuilder)
        ensures
            r.spec_info_hash() == self.spec_info_hash(),
            r.spec_peer_id() == self.spec_peer_id(),
            r.spec_downloaded() == downloaded,
            r.spec_left() == self.spec_left(),
            r.spec_uploaded() == self.spec_uploaded(),
            r.spec_event() == self.spec_event(),
            r.spec_ip_address() == self.spec_ip_address(),
            r.spec_key() == self.spec_key(),
            r.spec_num_want() == self.spec_num_want(),
            r.spec_port() == self.spec_port(),
    {
        let mut b = self;
        b.downloaded = downloaded;
        b
    }

    pub fn left(self, left: u64) -> (r: AnnounceRequestBuilder)
        ensures
            r.spec_info_hash() == self.spec_info_hash(),
            r.spec_peer_id() == self.spec_peer_id(),
            r.spec_downloaded() == self.spec_downloaded(),
            r.spec_left() == left,
            r.spec_uploaded() == self.spec_uploaded(),
            r.spec_event() == self.spec_event(),
            r.spec_ip_address() == self.spec_ip_address(),
            r.spec_key() == self.spec_key(),
            r.spec_num_want() == self.spec_num_want(),
            r.spec_port() == self.spec_port(),
    {
        let mut b = self;
        b.left = left;
        b
    }

    pub fn uploaded(self, uploaded: u64) -> (r: AnnounceRequestBuilder)
        ensures
            r.spec_info_hash() == self.spec_info_hash(),
            r.spec_peer_id() == self.spec_peer_id(),
            r.spec_downloaded() == self.spec_downloaded(),
            r.spec_left() == self.spec_left(),
            r.spec_uploaded() == uploaded,
            r.spec_event() == self.spec_event(),
            r.spec_ip_address() == self.spec_ip_address(),
            r.spec_key() == self.spec_key(),
            r.spec_num_want() == self.spec_num_want(),
            r.spec_port() == self.spec_port(),
    {
        let mut b = self;
        b.uploaded = uploaded;
        b
    }

    pub fn event(self, event: String) -> (r: AnnounceRequestBuilder)
        ensures
            r.spec_info_hash() == self.spec_info_hash(),
            r.spec_peer_id() == self.spec_peer_id(),
            r.spec_downloaded() == self.spec_downloaded(),
            r.spec_left() == self.spec_left(),
            r.spec_uploaded() == self.spec_uploaded(),
            r.spec_event() == event@,
            r.spec_ip_address() == self.spec_ip_address(),
            r.spec_key() == self.spec_key(),
            r.spec_num_want() == self.spec_num_want(),
            r.spec_port() == self.spec_port(),
    {
        let mut b = self;
        b.event = event;
        b
    }

    pub fn ip_address(self, ip_address: u32) -> (r: AnnounceRequestBuilder)
        ensures
            r.spec_info_hash() == self.spec_info_hash(),
            r.spec_peer_id() == self.spec_peer_id(),
            r.spec_downloaded() == self.spec_downloaded(),
            r.spec_left() == self.spec_left(),
            r.spec_uploaded() == self.spec_uploaded(),
            r.spec_event() == self.spec_event(),
            r.spec_ip_address() == ip_address,
            r.spec_key() == self.spec_key(),
            r.spec_num_want() == self.spec_num_want(),
            r.spec_port() == self.spec_port(),
    {
        let mut b = self;
        b.ip_address = ip_address;
        b
    }

    pub fn key(self, key: u32) -> (r: AnnounceRequestBuilder)
        ensures
            r.spec_info_hash() == self.spec_info_hash(),
            r.spec_peer_id() == self.spec_peer_id(),
            r.spec_downloaded() == self.spec_downloaded(),
            r.spec_left() == self.spec_left(),
            r.spec_uploaded() == self.spec_uploaded(),
            r.spec_event() == self.spec_event(),
            r.spec_ip_address() == self.spec_ip_address(),
            r.spec_key() == key,
            r.spec_num_want() == self.spec_num_want(),
            r.spec_port() == self.spec_port(),
    {
        let mut b = self;
        b.key = key;
        b
    }

    pub fn num_want(self, num_want: i32) -> (r: AnnounceRequestBuilder)
        ensures
            r.spec_info_hash() == self.spec_info_hash(),
            r.spec_peer_id() == self.spec_peer_id(),
            r.spec_downloaded() == self.spec_downloaded(),
            r.spec_left() == self.spec_left(),
            r.spec_uploaded() == self.spec_uploaded(),
            r.spec_event() == self.spec_event(),
            r.spec_ip_address() == self.spec_ip_address(),
            r.spec_key() == self.spec_key(),
            r.spec_num_want() == num_want,
            r.spec_port() == self.spec_port(),
    {
        let mut b = self;
        b.num_want = num_want;
        b
    }

    pub fn with_port(self, port: u16) -> (r: AnnounceRequestBuilder)
        ensures
            r.spec_info_hash() == self.spec_info_hash(),
            r.spec_peer_id() == self.spec_peer_id(),
            r.spec_downloaded() == self.spec_downloaded(),
            r.spec_left() == self.spec_left(),
            r.spec_uploaded() == self.spec_uploaded(),
            r.spec_event() == self.spec_event(),
            r.spec_ip_address() == self.spec_ip_address(),
            r.spec_key() == self.spec_key(),
            r.spec_num_want() == self.spec_num_want(),
            r.spec_port() == port,
    {
        let mut b = self;
        b.port = port;
        b
    }

    /// The request with the collected fields.
    pub fn build(self) -> (r: AnnounceRequest)
        ensures
            r.spec_info_hash() == self.spec_info_hash(),
            r.spec_peer_id() == self.spec_peer_id(),
            r.spec_downloaded() == self.spec_downloaded(),
            r.spec_left() == self.spec_left(),
            r.spec_uploaded() == self.spec_uploaded(),
            r.spec_event() == self.spec_event(),
            r.spec_ip_address() == self.spec_ip_address(),
            r.spec_key() == self.spec_key(),
            r.spec_num_want() == self.spec_num_want(),
            r.spec_port() == self.spec_port(),
    {
        AnnounceRequest {
            info_hash: self.info_hash,
            peer_id: self.peer_id,
            downloaded: self.downloaded,
            left: self.left,
            uploaded: self.uploaded,
            event: self.event,
            ip_address: self.ip_address,
            key: self.key,
            num_want: self.num_want,
            port: self.port,
        }
    }
}

} // verus!
