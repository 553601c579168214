//! The four framings behind one interface.

use crate::error::Error;
use crate::network::connection::tcp_common::after_request;
use crate::network::connection::tcp_common::plain_request_payload;
use crate::network::connection::tcp_common::request_message;
use crate::network::connection::tcp_common::request_payload;
use crate::network::connection::tcp_common::sealed_len;
use crate::network::connection::tcp_common::PLAIN_OVERHEAD;
use crate::network::connection::tcp_common::SEALED_OVERHEAD;
use crate::network::state::State;
use crate::tl::envelope::inner_block;
use crate::tl::envelope::is_sealed;
use crate::tl::envelope::padding_len;
use crate::tl::envelope::Direction;
use crate::tl::message::plain_envelope;
use crate::tl::message::MAX_BODY_LEN;
use crate::network::connection::http::ConnectionHttp;
use crate::network::connection::tcp_abridged;
use crate::network::connection::tcp_abridged::ConnectionTcpAbridged;
use crate::network::connection::tcp_full;
use crate::network::connection::tcp_full::ConnectionTcpFull;
use crate::network::connection::tcp_intermediate;
use crate::network::connection::tcp_intermediate::ConnectionTcpIntermediate;
use vstd::prelude::*;

verus! {

/// The framing state of a connection of any kind.
#[derive(Debug)]
pub enum Connection {
    Abridged(ConnectionTcpAbridged),
    Intermediate(ConnectionTcpIntermediate),
    Full(ConnectionTcpFull),
    Http(ConnectionHttp),
}

/// What a connection keeps between packets, as mathematical values.
pub ghost enum ConnectionView {
    Abridged { first: bool },
    Intermediate { first: bool },
    Full { send_seq: u32, recv_seq: u32 },
    Http,
}

impl View for Connection {
    type V = ConnectionView;

    open spec fn view(&self) -> ConnectionView {
        match self {
            Connection::Abridged(c) => ConnectionView::Abridged { first: c@ },
            Connection::Intermediate(c) => ConnectionView::Intermediate { first: c@ },
            Connection::Full(c) => ConnectionView::Full {
                send_seq: c@.send_seq,
                recv_seq: c@.recv_seq,
            },
            Connection::Http(_) => ConnectionView::Http,
        }
    }
}

impl ConnectionView {
    /// Whether the framing can carry a payload of `len` bytes.
    pub open spec fn can_carry(self, len: nat) -> bool {
        match self {
            ConnectionView::Abridged { .. } => tcp_abridged::can_carry(len),
            ConnectionView::Intermediate { .. } => len <= tcp_intermediate::MAX_PAYLOAD_LEN,
            ConnectionView::Full { .. } => len <= tcp_full::MAX_PAYLOAD_LEN,
            ConnectionView::Http => true,
        }
    }

    /// Why the framing refuses a payload of `len` bytes that it cannot
    /// carry.
    pub open spec fn refusal(self, len: nat) -> Error {
        match self {
            ConnectionView::Abridged { .. } => if len % 4 != 0 {
                Error::UnalignedLength
            } else {
                Error::LengthTooLarge
            },
            ConnectionView::Intermediate { .. } => Error::MessageTooLong(len as usize),
            _ => Error::LengthTooLarge,
        }
    }

    /// The packet that carries `payload`, without the marker that opens a
    /// connection.
    pub open spec fn packet(self, payload: Seq<u8>) -> Seq<u8> {
        match self {
            ConnectionView::Abridged { .. } => tcp_abridged::packet(payload),
            ConnectionView::Intermediate { .. } => tcp_intermediate::packet(payload),
            ConnectionView::Full { send_seq, .. } => tcp_full::packet(send_seq, payload),
            ConnectionView::Http => payload,
        }
    }

    /// What goes on the wire for `payload`: the packet, behind the marker
    /// if the framing has one and the packet is the first.
    pub open spec fn framed(self, payload: Seq<u8>) -> Seq<u8> {
        match self {
            ConnectionView::Abridged { first } => tcp_abridged::framed(first, payload),
            ConnectionView::Intermediate { first } => tcp_intermediate::framed(first, payload),
            ConnectionView::Full { send_seq, .. } => tcp_full::packet(send_seq, payload),
            ConnectionView::Http => payload,
        }
    }

    /// The connection after a packet was framed.
    pub open spec fn after_frame(self) -> ConnectionView {
        match self {
            ConnectionView::Abridged { .. } => ConnectionView::Abridged { first: false },
            ConnectionView::Intermediate { .. } => ConnectionView::Intermediate { first: false },
            ConnectionView::Full { send_seq, recv_seq } => ConnectionView::Full {
                send_seq: tcp_full::next_seq(send_seq),
                recv_seq,
            },
            ConnectionView::Http => ConnectionView::Http,
        }
    }

    /// The payload of the packet at the start of `stream`, for a full
    /// framing the packet that is expected next.
    pub open spec fn parsed(self, stream: Seq<u8>) -> Result<Seq<u8>, Error> {
        match self {
            ConnectionView::Abridged { .. } => tcp_abridged::parsed(stream),
            ConnectionView::Intermediate { .. } => tcp_intermediate::parsed(stream),
            ConnectionView::Full { recv_seq, .. } => tcp_full::parsed(recv_seq, stream),
            ConnectionView::Http => Ok(stream),
        }
    }

    /// The connection after a packet was parsed.
    pub open spec fn after_parse(self) -> ConnectionView {
        match self {
            ConnectionView::Full { send_seq, recv_seq } => ConnectionView::Full {
                send_seq,
                recv_seq: tcp_full::next_seq(recv_seq),
            },
            _ => self,
        }
    }

    /// The connection at the other end that reads what this one writes: it
    /// expects the sequence number that this one sends next.
    pub open spec fn peer(self) -> ConnectionView {
        match self {
            ConnectionView::Full { send_seq, recv_seq } => ConnectionView::Full {
                send_seq: recv_seq,
                recv_seq: send_seq,
            },
            _ => self,
        }
    }
}

/// With every framing, parsing a packet at the other end gives the payload
/// back that the packet was framed of, provided the framing can carry the
/// payload. The marker that opens a connection is no part of a packet.
pub proof fn lemma_framing_round_trip(conn: ConnectionView, payload: Seq<u8>)
    requires
        conn.can_carry(payload.len()),
    ensures
        conn.peer().parsed(conn.packet(payload)) == Ok::<Seq<u8>, Error>(payload),
{
    let nothing = Seq::<u8>::empty();
    assert(conn.packet(payload) + nothing =~= conn.packet(payload));
    match conn {
        ConnectionView::Abridged { .. } => {
            tcp_abridged::lemma_round_trip(payload, nothing);
        },
        ConnectionView::Intermediate { .. } => {
            tcp_intermediate::lemma_round_trip(payload, nothing);
        },
        ConnectionView::Full { send_seq, .. } => {
            tcp_full::lemma_round_trip(send_seq, payload, nothing);
        },
        ConnectionView::Http => {},
    }
}

impl Connection {
    /// Whether the framing of the connection can carry a payload of `len`
    /// bytes.
    pub fn can_carry(&self, len: usize) -> (can: bool)
        ensures
            can == self@.can_carry(len as nat),
    {
        match self {
            Connection::Abridged(_) => len % 4 == 0 && len / 4 < tcp_abridged::WORD_LIMIT,
            Connection::Intermediate(_) => len <= tcp_intermediate::MAX_PAYLOAD_LEN,
            Connection::Full(_) => len <= tcp_full::MAX_PAYLOAD_LEN,
            Connection::Http(_) => true,
        }
    }

    /// Makes what is to be sent for an unauthenticated request: the
    /// envelope of a new message, framed. A request whose envelope is too
    /// long, or that the framing cannot carry, is refused before the
    /// session or the connection is touched.
    pub fn request_plain(&mut self, state: &mut State, request_data: Vec<u8>) -> (r: Result<
        Vec<u8>,
        Error,
    >)
        requires
            old(state)@.can_issue(),
        ensures
            ({
                let len = request_data@.len();
                let session = final(state)@;
                let id = session.last_msg_id;
                if len + PLAIN_OVERHEAD > MAX_BODY_LEN {
                    r == Err::<Vec<u8>, Error>(Error::MessageTooLong(len as usize)) && session
                        == old(state)@ && final(self)@ == old(self)@
                } else if !old(self)@.can_carry(len + PLAIN_OVERHEAD as nat) {
                    r == Err::<Vec<u8>, Error>(old(self)@.refusal(len + PLAIN_OVERHEAD as nat))
                        && session == old(state)@ && final(self)@ == old(self)@
                } else {
                    &&& r is Ok
                    &&& r->Ok_0@ == old(self)@.framed(plain_envelope(id, request_data@))
                    &&& final(state)@ == after_request(old(state)@, id)
                    &&& id > old(state)@.last_msg_id
                    &&& id % 4 == 0
                    &&& final(self)@ == old(self)@.after_frame()
                }
            }),
    {
        let len = request_data.len();
        if len > MAX_BODY_LEN - PLAIN_OVERHEAD {
            return Err(Error::MessageTooLong(len));
        }
        if !self.can_carry(len + PLAIN_OVERHEAD) {
            return self.frame_refusal(len + PLAIN_OVERHEAD);
        }
        match plain_request_payload(state, request_data, MAX_BODY_LEN) {
            Ok(payload) => {
                proof {
                    crate::tl::parsing::lemma_le_bytes_len(0, 8);
                    crate::tl::parsing::lemma_le_bytes_len(request_data@.len(), 4);
                    crate::tl::message::lemma_i64_round_trip(state@.last_msg_id);
                }
                self.frame(payload.as_slice())
            },
            Err(e) => Err(e),
        }
    }

    /// Makes what is to be sent for an authenticated request: the envelope
    /// of a new message under the session's key, framed. A request whose
    /// envelope is too long, or that the framing cannot carry, is refused
    /// before the session or the connection is touched.
    pub fn request(&mut self, state: &mut State, request_data: Vec<u8>) -> (r: Result<
        Vec<u8>,
        Error,
    >)
        requires
            old(state)@.can_issue(),
        ensures
            ({
                let len = request_data@.len();
                let session = final(state)@;
                let id = session.last_msg_id;
                let message = request_message(old(state)@, id, request_data@);
                if len + SEALED_OVERHEAD > MAX_BODY_LEN {
                    r == Err::<Vec<u8>, Error>(Error::MessageTooLong(len as usize)) && session
                        == old(state)@ && final(self)@ == old(self)@
                } else if !old(self)@.can_carry(sealed_len(len)) {
                    r == Err::<Vec<u8>, Error>(old(self)@.refusal(sealed_len(len))) && session
                        == old(state)@ && final(self)@ == old(self)@
                } else {
                    &&& r is Ok
                    &&& final(state)@ == after_request(old(state)@, id)
                    &&& id > old(state)@.last_msg_id
                    &&& id % 4 == 0
                    &&& final(self)@ == old(self)@.after_frame()
                    &&& exists|padding: Seq<u8>, payload: Seq<u8>|
                        padding.len() == padding_len(inner_block(message).len())
                            && #[trigger] is_sealed(
                            old(state)@.auth_raw_key,
                            old(state)@.version,
                            Direction::ToServer,
                            message,
                            padding,
                            payload,
                        ) && r->Ok_0@ == old(self)@.framed(payload)
                }
            }),
    {
        let len = request_data.len();
        if len > MAX_BODY_LEN - SEALED_OVERHEAD {
            return Err(Error::MessageTooLong(len));
        }
        let total = 56 + len + (12 + (16 - (32 + len + 12) % 16) % 16);
        if !self.can_carry(total) {
            return self.frame_refusal(total);
        }
        match request_payload(state, request_data, MAX_BODY_LEN) {
            Ok(payload) => self.frame(payload.as_slice()),
            Err(e) => Err(e),
        }
    }

    /// The refusal of a payload of `len` bytes that the framing cannot carry.
    fn frame_refusal(&self, len: usize) -> (r: Result<Vec<u8>, Error>)
        requires
            !self@.can_carry(len as nat),
        ensures
            r == Err::<Vec<u8>, Error>(self@.refusal(len as nat)),
    {
        match self {
            Connection::Abridged(_) => if len % 4 != 0 {
                Err(Error::UnalignedLength)
            } else {
                Err(Error::LengthTooLarge)
            },
            Connection::Intermediate(_) => Err(Error::MessageTooLong(len)),
            _ => Err(Error::LengthTooLarge),
        }
    }

    /// Frames a payload for sending, as the framing of the connection does.
    pub fn frame(&mut self, payload: &[u8]) -> (r: Result<Vec<u8>, Error>)
        ensures
            old(self)@.can_carry(payload@.len()) ==> r is Ok && r->Ok_0@ == old(self)@.framed(
                payload@,
            ) && final(self)@ == old(self)@.after_frame(),
            !old(self)@.can_carry(payload@.len()) ==> r == Err::<Vec<u8>, Error>(
                old(self)@.refusal(payload@.len()),
            ) && final(self)@ == old(self)@,
    {
        match self {
            Connection::Abridged(c) => c.frame(payload),
            Connection::Intermediate(c) => c.frame(payload),
            Connection::Full(c) => c.frame(payload),
            Connection::Http(c) => c.frame(payload),
        }
    }

    /// The payload of the packet at the start of `stream`, as the framing
    /// of the connection reads it.
    pub fn parse(&mut self, stream: &[u8]) -> (r: Result<Vec<u8>, Error>)
        ensures
            match old(self)@.parsed(stream@) {
                Ok(payload) => r is Ok && r->Ok_0@ == payload && final(self)@ == old(
                    self,
                )@.after_parse(),
                Err(e) => r is Err && r->Err_0 == e && final(self)@ == old(self)@,
            },
    {
        match self {
            Connection::Abridged(_) => ConnectionTcpAbridged::parse(stream),
            Connection::Intermediate(_) => ConnectionTcpIntermediate::parse(stream),
            Connection::Full(c) => c.parse(stream),
            Connection::Http(_) => ConnectionHttp::parse(stream),
        }
    }
}

} // verus!
