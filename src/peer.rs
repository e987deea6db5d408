//! Per-peer state: choking and interest on both sides, the peer's bitfield,
//! the reaction to each incoming message, and what to send next.
use crate::bitfield::{bit_of, bitfield_len, from_bytes};
use crate::block::{ceil_div, spec_block_len, Block, BlockInfo};
use crate::error::PeerError;
use crate::message::{Message, MessageModel};
use crate::piece::PieceHandler;
use vstd::prelude::*;

verus! {

/// Seconds without a send after which a keep-alive is sent.
pub const KEEP_ALIVE_SECS: u64 = 120;

/// Seconds without anything received after which the connection is closed.
pub const INACTIVITY_CLOSE_SECS: u64 = 180;

/// Most requests outstanding at once towards one peer.
pub const MAX_OUTSTANDING: usize = 10;

/// Who opened the connection: the client (`Outbound`) or the peer (`Inbound`).
#[derive(Debug, Clone, Copy, PartialEq, Eq, Structural)]
pub enum Direction {
    Inbound,
    Outbound,
}

#[derive(Debug, Clone, Copy, PartialEq, Eq, Structural)]
pub enum ChokeStatus {
    Choked,
    Unchoked,
}

#[derive(Debug, Clone, Copy, PartialEq, Eq, Structural)]
pub enum Intrest {
    Interested,
    NotInterested,
}

#[derive(Debug, Clone, Copy, PartialEq, Eq, Structural)]
pub enum ConnectionStatus {
    Connected,
    Disconnected,
}

/// What the remote peer does towards the client.
#[derive(Debug)]
pub struct PeerState {
    /// The peer is interested in downloading from the client, or not.
    pub intrest: Intrest,
    /// The peer chokes the client (refuses its requests), or not.
    pub choke: ChokeStatus,
    pub connection_status: ConnectionStatus,
    /// The pieces the peer has.
    pub bitfield: Vec<bool>,
}

impl PeerState {
    /// Initial state: choking, not interested, no pieces.
    pub fn new(bitfield_len: usize) -> (r: Self)
        ensures
            r.intrest == Intrest::NotInterested,
            r.choke == ChokeStatus::Choked,
            r.connection_status == ConnectionStatus::Connected,
            r.bitfield@ == Seq::new(bitfield_len as nat, |i: int| false),
    {
        let mut bitfield: Vec<bool> = Vec::with_capacity(bitfield_len);
        let mut i: usize = 0;
        while i < bitfield_len
            invariant
                i <= bitfield_len,
                bitfield@ == Seq::new(i as nat, |k: int| false),
            decreases bitfield_len - i,
        {
            bitfield.push(false);
            i = i + 1;
            assert(bitfield@ =~= Seq::new(i as nat, |k: int| false));
        }
        Self {
            intrest: Intrest::NotInterested,
            choke: ChokeStatus::Choked,
            connection_status: ConnectionStatus::Connected,
            bitfield,
        }
    }

    /// Marks piece `index` as had by the peer.
    pub fn set_index(&mut self, index: usize)
        requires
            index < old(self).bitfield@.len(),
        ensures
            final(self).bitfield@ == old(self).bitfield@.update(index as int, true),
            final(self).intrest == old(self).intrest,
            final(self).choke == old(self).choke,
            final(self).connection_status == old(self).connection_status,
    {
        self.bitfield.set(index, true);
    }
}

/// What the client does towards the peer.
#[derive(Debug)]
pub struct ClientState {
    /// The client chokes the peer, or not.
    pub choke: ChokeStatus,
    /// The client is interested in the peer's pieces, or not.
    pub intrest: Intrest,
}

impl ClientState {
    /// Initial state: choking, not interested.
    pub fn new() -> (r: Self)
        ensures
            r.choke == ChokeStatus::Choked,
            r.intrest == Intrest::NotInterested,
    {
        Self { choke: ChokeStatus::Choked, intrest: Intrest::NotInterested }
    }
}

/// What the client must do with an incoming message.
#[derive(Debug)]
pub enum AgentAction {
    /// Nothing beyond the state change.
    Continue,
    /// Hand this block to the piece store.
    Deliver(Block),
}

/// Everything the client knows about one peer connection.
#[derive(Debug)]
pub struct State {
    /// The current state the peer has with the client.
    pub peer_state: PeerState,
    /// The current state the client has with the peer.
    pub client_state: ClientState,
    /// A message other than a keep-alive was received.
    pub seen_message: bool,
    /// `Interested` was sent.
    pub interested_sent: bool,
    /// Requests sent and not yet answered by a block.
    pub outstanding: usize,
}

impl State {
    /// State right after the handshake, for a torrent of `bitfield_len` pieces.
    pub fn new(bitfield_len: usize) -> (r: Self)
        ensures
            r.peer_state.intrest == Intrest::NotInterested,
            r.peer_state.choke == ChokeStatus::Choked,
            r.peer_state.connection_status == ConnectionStatus::Connected,
            r.peer_state.bitfield@ == Seq::new(bitfield_len as nat, |i: int| false),
            r.client_state.choke == ChokeStatus::Choked,
            r.client_state.intrest == Intrest::NotInterested,
            !r.seen_message,
            !r.interested_sent,
            r.outstanding == 0,
    {
        Self {
            peer_state: PeerState::new(bitfield_len),
            client_state: ClientState::new(),
            seen_message: false,
            interested_sent: false,
            outstanding: 0,
        }
    }

    /// Replaces the peer's bitfield.
    pub fn set_bitfield(&mut self, bitfield: Vec<bool>)
        ensures
            final(self).peer_state.bitfield@ == bitfield@,
            final(self).peer_state.choke == old(self).peer_state.choke,
            final(self).peer_state.intrest == old(self).peer_state.intrest,
            final(self).peer_state.connection_status == old(self).peer_state.connection_status,
            final(self).client_state == old(self).client_state,
            final(self).seen_message == old(self).seen_message,
            final(self).interested_sent == old(self).interested_sent,
            final(self).outstanding == old(self).outstanding,
    {
        self.peer_state.bitfield = bitfield;
    }

    /// Marks piece `index` as had by the peer; an index at or beyond the piece
    /// count is refused and changes nothing.
    pub fn set_index(&mut self, index: usize) -> (r: Result<(), PeerError>)
        ensures
            r is Ok <==> index < old(self).peer_state.bitfield@.len(),
            r is Err ==> r == Err::<(), PeerError>(PeerError::HaveOutOfRange(index as u32)),
            r is Ok ==> final(self).peer_state.bitfield@ == old(self).peer_state.bitfield@.update(
                index as int,
                true,
            ),
            r is Err ==> final(self).peer_state.bitfield@ == old(self).peer_state.bitfield@,
            final(self).peer_state.choke == old(self).peer_state.choke,
            final(self).peer_state.intrest == old(self).peer_state.intrest,
            final(self).peer_state.connection_status == old(self).peer_state.connection_status,
            final(self).client_state == old(self).client_state,
            final(self).seen_message == old(self).seen_message,
            final(self).interested_sent == old(self).interested_sent,
            final(self).outstanding == old(self).outstanding,
    {
        if index >= self.peer_state.bitfield.len() {
            return Err(PeerError::HaveOutOfRange(index as u32));
        }
        self.peer_state.set_index(index);
        Ok(())
    }

    /// The peer lets the client download and the client wants to.
    pub open spec fn can_download(&self) -> bool {
        self.peer_state.choke == ChokeStatus::Unchoked && self.client_state.intrest
            == Intrest::Interested
    }

    /// The peer lets the client download and the client wants to.
    pub fn client_download(&self) -> (r: bool)
        ensures
            r == self.can_download(),
    {
        self.peer_state.choke == ChokeStatus::Unchoked && self.client_state.intrest
            == Intrest::Interested
    }

    /// Advances the state on an incoming message. A `Have` beyond the piece
    /// count, and a `Bitfield` that is not the first substantive message or
    /// whose length is not one bit per piece padded to whole bytes, are
    /// protocol errors: the connection is to be closed, and the state is left
    /// as it was. A `Piece` is handed on to the piece store.
    pub fn handle_message(&mut self, msg: Message) -> (r: Result<AgentAction, PeerError>)
        ensures
            ({
                let n = old(self).peer_state.bitfield@.len();
                let bits = old(self).peer_state.bitfield@;
                match msg@ {
                    MessageModel::KeepAlive => {
                        &&& r matches Ok(AgentAction::Continue)
                        &&& final(self).peer_state.connection_status == ConnectionStatus::Connected
                        &&& final(self).peer_state.bitfield@ == bits
                        &&& final(self).peer_state.choke == old(self).peer_state.choke
                        &&& final(self).peer_state.intrest == old(self).peer_state.intrest
                        &&& final(self).seen_message == old(self).seen_message
                    },
                    MessageModel::Choke => {
                        &&& r matches Ok(AgentAction::Continue)
                        &&& final(self).peer_state.choke == ChokeStatus::Choked
                        &&& final(self).peer_state.intrest == old(self).peer_state.intrest
                        &&& final(self).peer_state.bitfield@ == bits
                    },
                    MessageModel::Unchoke => {
                        &&& r matches Ok(AgentAction::Continue)
                        &&& final(self).peer_state.choke == ChokeStatus::Unchoked
                        &&& final(self).peer_state.intrest == old(self).peer_state.intrest
                        &&& final(self).peer_state.bitfield@ == bits
                    },
                    MessageModel::Interested => {
                        &&& r matches Ok(AgentAction::Continue)
                        &&& final(self).peer_state.intrest == Intrest::Interested
                        &&& final(self).peer_state.choke == old(self).peer_state.choke
                        &&& final(self).peer_state.bitfield@ == bits
                    },
                    MessageModel::NotInterested => {
                        &&& r matches Ok(AgentAction::Continue)
                        &&& final(self).peer_state.intrest == Intrest::NotInterested
                        &&& final(self).peer_state.choke == old(self).peer_state.choke
                        &&& final(self).peer_state.bitfield@ == bits
                    },
                    MessageModel::Have(i) => {
                        &&& i < n ==> (r matches Ok(AgentAction::Continue))
                        &&& i < n ==> final(self).peer_state.bitfield@ == bits.update(i as int, true)
                        &&& i >= n ==> r == Err::<AgentAction, PeerError>(PeerError::HaveOutOfRange(i))
                        &&& i >= n ==> final(self).peer_state.bitfield@ == bits
                        &&& final(self).peer_state.choke == old(self).peer_state.choke
                        &&& final(self).peer_state.intrest == old(self).peer_state.intrest
                    },
                    MessageModel::Bitfield(b) => {
                        &&& old(self).seen_message ==> r == Err::<AgentAction, PeerError>(
                            PeerError::BitfieldNotFirst)
                        &&& !old(self).seen_message && b.len() != ceil_div(n as int, 8) ==> r
                            == Err::<AgentAction, PeerError>(PeerError::BitfieldLength)
                        &&& r is Ok <==> !old(self).seen_message && b.len() == ceil_div(n as int, 8)
                        &&& r is Ok ==> (r matches Ok(AgentAction::Continue))
                        &&& r is Ok ==> final(self).peer_state.bitfield@.len() == n
                        &&& r is Ok ==> forall|k: int|
                            0 <= k < n ==> final(self).peer_state.bitfield@[k] == bit_of(b, k)
                        &&& r is Err ==> final(self).peer_state.bitfield@ == bits
                        &&& final(self).peer_state.choke == old(self).peer_state.choke
                        &&& final(self).peer_state.intrest == old(self).peer_state.intrest
                    },
                    MessageModel::Piece { index, begin, data } => {
                        &&& r matches Ok(AgentAction::Deliver(blk))
                        &&& r->Ok_0->Deliver_0.block_info.piece_index == index
                        &&& r->Ok_0->Deliver_0.block_info.begin == begin
                        &&& r->Ok_0->Deliver_0.data@ == data
                        &&& final(self).outstanding == if old(self).outstanding > 0 {
                            old(self).outstanding - 1
                        } else {
                            0
                        }
                        &&& final(self).peer_state.bitfield@ == bits
                        &&& final(self).peer_state.choke == old(self).peer_state.choke
                        &&& final(self).peer_state.intrest == old(self).peer_state.intrest
                    },
                    _ => {
                        &&& r matches Ok(AgentAction::Continue)
                        &&& final(self).peer_state.bitfield@ == bits
                        &&& final(self).peer_state.choke == old(self).peer_state.choke
                        &&& final(self).peer_state.intrest == old(self).peer_state.intrest
                    },
                }
            }),
            r is Ok && !(msg@ matches MessageModel::KeepAlive) ==> final(self).seen_message,
            r is Err ==> final(self).seen_message == old(self).seen_message,
            final(self).peer_state.bitfield@.len() == old(self).peer_state.bitfield@.len(),
            final(self).client_state == old(self).client_state,
            final(self).interested_sent == old(self).interested_sent,
            !(msg@ matches MessageModel::Piece { .. }) ==> final(self).outstanding == old(self).outstanding,
    {
        match msg {
            Message::KeepAlive => {
                self.peer_state.connection_status = ConnectionStatus::Connected;
                return Ok(AgentAction::Continue);
            },
            Message::Choke => {
                self.peer_state.choke = ChokeStatus::Choked;
            },
            Message::Unchoke => {
                self.peer_state.choke = ChokeStatus::Unchoked;
            },
            Message::Interested => {
                self.peer_state.intrest = Intrest::Interested;
            },
            Message::NotInterested => {
                self.peer_state.intrest = Intrest::NotInterested;
            },
            Message::Have(index) => {
                if index as usize >= self.peer_state.bitfield.len() {
                    return Err(PeerError::HaveOutOfRange(index));
                }
                self.peer_state.set_index(index as usize);
            },
            Message::Bitfield(bytes) => {
                if self.seen_message {
                    return Err(PeerError::BitfieldNotFirst);
                }
                let n = self.peer_state.bitfield.len();
                if bytes.len() != bitfield_len(n) {
                    return Err(PeerError::BitfieldLength);
                }
                assert(n <= bytes@.len() * 8) by (nonlinear_arith)
                    requires
                        bytes@.len() == (n + 7) / 8,
                ;
                let bits = from_bytes(bytes.as_slice(), n);
                self.peer_state.bitfield = bits;
            },
            Message::Piece(block) => {
                if self.outstanding > 0 {
                    self.outstanding = self.outstanding - 1;
                }
                self.seen_message = true;
                return Ok(AgentAction::Deliver(block));
            },
            _ => {},
        }
        self.seen_message = true;
        Ok(AgentAction::Continue)
    }

    /// What to send next. `Interested` first, once; then, while the peer
    /// does not choke the client and the client is interested, a request for
    /// the block the store picks for this peer, up to `MAX_OUTSTANDING` at a
    /// time; else a keep-alive once `idle_secs` seconds have passed without a
    /// send and reach `KEEP_ALIVE_SECS`; else nothing. A request is never sent
    /// while the peer chokes the client.
    pub fn next_message(&mut self, handler: &mut PieceHandler, idle_secs: u64) -> (r: Option<Message>)
        requires
            old(handler).wf(),
        ensures
            final(handler).wf(),
            r matches Some(Message::Request(_)) ==> old(self).peer_state.choke == ChokeStatus::Unchoked,
            !old(self).interested_sent ==> {
                &&& r matches Some(Message::Interested)
                &&& final(self).interested_sent
                &&& final(self).client_state.intrest == Intrest::Interested
                &&& *final(handler) == *old(handler)
            },
            old(self).interested_sent && !(old(self).can_download() && old(self).outstanding
                < MAX_OUTSTANDING) ==> *final(handler) == *old(handler),
            r matches Some(Message::Request(b)) ==> {
                &&& old(self).can_download()
                &&& old(self).outstanding < MAX_OUTSTANDING
                &&& final(self).outstanding == old(self).outstanding + 1
                &&& old(handler).eligible(old(self).peer_state.bitfield@, b.piece_index as int)
                &&& b.begin == old(handler).pieces_view()[b.piece_index as int].cursor()
                &&& b.length == spec_block_len(
                    old(handler).pieces_view()[b.piece_index as int].info().len as int,
                    b.begin as int,
                )
            },
            old(self).interested_sent && !(r matches Some(Message::Request(_))) ==> {
                &&& (r matches Some(Message::KeepAlive)) <==> idle_secs >= KEEP_ALIVE_SECS
                &&& r is None <==> idle_secs < KEEP_ALIVE_SECS
                &&& final(self).outstanding == old(self).outstanding
            },
            old(self).interested_sent && old(self).can_download() && old(self).outstanding
                < MAX_OUTSTANDING && (exists|i: int|
                0 <= i < old(self).peer_state.bitfield@.len() && old(handler).eligible(
                    old(self).peer_state.bitfield@,
                    i,
                )) ==> (r matches Some(Message::Request(_))),
            final(self).peer_state.choke == old(self).peer_state.choke,
            final(self).peer_state.bitfield@ == old(self).peer_state.bitfield@,
            final(self).seen_message == old(self).seen_message,
    {
        if !self.interested_sent {
            self.interested_sent = true;
            self.client_state.intrest = Intrest::Interested;
            return Some(Message::Interested);
        }
        if self.client_download() && self.outstanding < MAX_OUTSTANDING {
            match handler.pick_piece(self.peer_state.bitfield.as_slice()) {
                Some(b) => {
                    self.outstanding = self.outstanding + 1;
                    return Some(Message::Request(b));
                },
                None => {},
            }
        }
        if idle_secs >= KEEP_ALIVE_SECS {
            Some(Message::KeepAlive)
        } else {
            None
        }
    }
}

/// Whether a connection silent for `idle_secs` seconds is to be closed.
pub fn inactive(idle_secs: u64) -> (r: bool)
    ensures
        r == (idle_secs >= INACTIVITY_CLOSE_SECS),
{
    idle_secs >= INACTIVITY_CLOSE_SECS
}

} // verus!
