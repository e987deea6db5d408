//! Torrent-wide coordination: checking a remote handshake, the registry of
//! connected peers, and how many more peers to ask trackers for.
use crate::error::PeerError;
use crate::message::{Handshake, PeerId};
use crate::piece::bytes_eq;
use vstd::prelude::*;

verus! {

/// Soft cap on connected peers.
pub const PEER_SOFT_CAP: usize = 30;

/// Seconds allowed to connect to a peer.
pub const CONNECT_TIMEOUT_SECS: u64 = 10;

/// Seconds allowed for the remote handshake.
pub const HANDSHAKE_TIMEOUT_SECS: u64 = 10;

/// Seconds allowed for a tracker announce.
pub const TRACKER_TIMEOUT_SECS: u64 = 15;

/// Accepts a remote handshake for the torrent `info_hash`, giving the remote
/// peer-id; a handshake for another torrent is refused.
pub fn check_handshake(info_hash: &crate::message::Hash, h: &Handshake) -> (r: Result<PeerId, PeerError>)
    ensures
        h.info_hash@ == info_hash@ <==> r is Ok,
        r matches Ok(id) ==> id@ == h.peer_id@,
        r is Err ==> r == Err::<PeerId, PeerError>(PeerError::InfoHashMismatch),
{
    if bytes_eq(h.info_hash.as_slice(), info_hash.as_slice()) {
        Ok(h.peer_id)
    } else {
        Err(PeerError::InfoHashMismatch)
    }
}

/// How many peers to ask the trackers for when `connected` peers are
/// connected: enough to reach the soft cap, or none at the cap.
pub fn peers_wanted(connected: usize) -> (r: Option<i32>)
    ensures
        connected < PEER_SOFT_CAP <==> r is Some,
        r matches Some(n) ==> n == PEER_SOFT_CAP - connected,
{
    if connected < PEER_SOFT_CAP {
        Some((PEER_SOFT_CAP - connected) as i32)
    } else {
        None
    }
}

/// The peer-ids of the registered peers, at most one entry per peer-id.
pub struct PeerRegistry {
    ids: Vec<PeerId>,
}

impl PeerRegistry {
    pub closed spec fn view(&self) -> Seq<Seq<u8>> {
        self.ids@.map_values(|id: PeerId| id@)
    }

    /// No peer-id appears twice.
    pub open spec fn unique(&self) -> bool {
        forall|i: int, j: int|
            0 <= i < j < self.view().len() ==> #[trigger] self.view()[i] != #[trigger] self.view()[j]
    }

    pub fn new() -> (r: Self)
        ensures
            r.view().len() == 0,
            r.unique(),
    {
        let r = PeerRegistry { ids: Vec::new() };
        assert(r.view() =~= Seq::<Seq<u8>>::empty());
        r
    }

    pub fn len(&self) -> (r: usize)
        ensures
            r == self.view().len(),
    {
        self.ids.len()
    }

    /// Whether `id` is registered.
    pub fn contains(&self, id: &PeerId) -> (r: bool)
        ensures
            r == self.view().contains(id@),
    {
        let mut i: usize = 0;
        while i < self.ids.len()
            invariant
                i <= self.ids@.len(),
                forall|k: int| 0 <= k < i ==> self.view()[k] != id@,
            decreases self.ids@.len() - i,
        {
            if bytes_eq(self.ids[i].as_slice(), id.as_slice()) {
                assert(self.view()[i as int] == id@);
                return true;
            }
            i = i + 1;
        }
        false
    }

    /// Registers the peer `id`. A peer-id that is registered already is
    /// refused: the registry does not grow, and the newer connection is to be
    /// closed.
    pub fn register(&mut self, id: PeerId) -> (r: bool)
        requires
            old(self).unique(),
        ensures
            final(self).unique(),
            r == !old(self).view().contains(id@),
            r ==> final(self).view() == old(self).view().push(id@),
            !r ==> final(self).view() == old(self).view(),
            !r ==> final(self).view().len() == old(self).view().len(),
    {
        if self.contains(&id) {
            return false;
        }
        let ghost before = self.view();
        self.ids.push(id);
        assert(self.view() =~= before.push(id@));
        true
    }

    /// Forgets the peer `id`, if registered.
    pub fn remove(&mut self, id: &PeerId) -> (r: bool)
        requires
            old(self).unique(),
        ensures
            final(self).unique(),
            r == old(self).view().contains(id@),
            !final(self).view().contains(id@),
            forall|x: Seq<u8>| x != id@ ==> (final(self).view().contains(x) == old(self).view().contains(x)),
    {
        let mut i: usize = 0;
        while i < self.ids.len()
            invariant
                *self == *old(self),
                self.unique(),
                i <= self.ids@.len(),
                forall|k: int| 0 <= k < i ==> self.view()[k] != id@,
            decreases self.ids@.len() - i,
        {
            if bytes_eq(self.ids[i].as_slice(), id.as_slice()) {
                let ghost before = self.view();
                assert(before[i as int] == id@);
                self.ids.remove(i);
                proof {
                    assert(self.view() =~= before.remove(i as int));
                    assert forall|a: int, b: int|
                        0 <= a < b < self.view().len() implies #[trigger] self.view()[a]
                        != #[trigger] self.view()[b] by {
                        let oa = if a < i { a } else { a + 1 };
                        let ob = if b < i { b } else { b + 1 };
                        assert(self.view()[a] == before[oa]);
                        assert(self.view()[b] == before[ob]);
                    }
                    assert forall|x: Seq<u8>| x != id@ implies (self.view().contains(x)
                        == before.contains(x)) by {
                        if before.contains(x) {
                            let k = choose|k: int| 0 <= k < before.len() && before[k] == x;
                            assert(k != i);
                            if k < i {
                                assert(self.view()[k] == x);
                            } else {
                                assert(self.view()[k - 1] == x);
                            }
                        }
                    }
                    if self.view().contains(id@) {
                        let k = choose|k: int| 0 <= k < self.view().len() && self.view()[k] == id@;
                        if k < i {
                        } else {
                            assert(before[k + 1] == id@);
                            assert(before[i as int] == id@);
                        }
                    }
                }
                return true;
            }
            i = i + 1;
        }
        false
    }
}

} // verus!
