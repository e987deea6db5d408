//! Errors of a peer connection.
use crate::message::WireError;
use vstd::prelude::*;

verus! {

/// Why a peer connection is closed.
#[derive(Debug, Clone, Copy, PartialEq, Eq, Structural)]
pub enum PeerError {
    /// The message stream is malformed.
    Wire(WireError),
    /// The handshake's length prefix is not 19.
    BadProtocolLength(u8),
    /// The handshake's identifier is not `BitTorrent protocol`.
    BadProtocolName,
    /// The remote handshake names another torrent.
    InfoHashMismatch,
    /// A `Have` names a piece at or beyond the piece count.
    HaveOutOfRange(u32),
    /// A `Bitfield` payload has the wrong number of bytes.
    BitfieldLength,
    /// A `Bitfield` arrived after another substantive message.
    BitfieldNotFirst,
}

} // verus!
