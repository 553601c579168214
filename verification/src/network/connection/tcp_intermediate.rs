//! The intermediate TCP framing: a four-byte length in front of every
//! packet, and a four-byte marker in front of the first one.

use crate::error::Error;
use crate::network::connection::tcp_common::after_request;
use crate::network::connection::tcp_common::plain_request_payload;
use crate::network::connection::tcp_common::request_message;
use crate::network::connection::tcp_common::request_payload;
use crate::network::connection::tcp_common::PLAIN_OVERHEAD;
use crate::network::connection::tcp_common::SEALED_OVERHEAD;
use crate::network::state::State;
use crate::tl::envelope::inner_block;
use crate::tl::envelope::is_sealed;
use crate::tl::envelope::padding_len;
use crate::tl::envelope::Direction;
use crate::tl::message::plain_envelope;
use crate::tl::parsing::append_bytes;
use crate::tl::parsing::copy_range;
use crate::tl::parsing::le_bytes;
use crate::tl::parsing::le_value;
use crate::tl::parsing::lemma_le_bytes_len;
use crate::tl::parsing::lemma_le_value_of_bytes;
use crate::tl::parsing::lemma_pow256_values;
use crate::tl::parsing::u32_from_le;
use crate::tl::parsing::u32_le;
use vstd::prelude::*;

verus! {

/// The marker that opens a connection in intermediate mode.
pub const PREAMBLE: u32 = 0xeeee_eeee;

/// The longest payload that a packet can announce.
pub const MAX_PAYLOAD_LEN: usize = 0xffff_ffff;

/// A packet: the length of the payload in four little-endian bytes, then
/// the payload.
pub open spec fn packet(payload: Seq<u8>) -> Seq<u8> {
    le_bytes(payload.len(), 4) + payload
}

/// What goes on the wire for a payload: the packet, behind the marker if it
/// is the first of the connection.
pub open spec fn framed(first: bool, payload: Seq<u8>) -> Seq<u8> {
    if first {
        le_bytes(PREAMBLE as nat, 4) + packet(payload)
    } else {
        packet(payload)
    }
}

/// The payload of the packet at the start of `stream`.
pub open spec fn parsed(stream: Seq<u8>) -> Result<Seq<u8>, Error> {
    if stream.len() < 4 {
        Err(Error::UnexpectedEof)
    } else if stream.len() - 4 < le_value(stream.take(4)) {
        Err(Error::UnexpectedEof)
    } else {
        Ok(stream.subrange(4, 4 + le_value(stream.take(4)) as int))
    }
}

/// Parsing a packet gives its payload back, whatever follows the packet.
pub proof fn lemma_round_trip(payload: Seq<u8>, rest: Seq<u8>)
    requires
        payload.len() <= MAX_PAYLOAD_LEN,
    ensures
        parsed(packet(payload) + rest) == Ok::<Seq<u8>, Error>(payload),
{
    let stream = packet(payload) + rest;
    lemma_le_bytes_len(payload.len(), 4);
    lemma_le_value_of_bytes(payload.len(), 4);
    lemma_pow256_values();
    assert(stream.take(4) =~= le_bytes(payload.len(), 4));
    assert(stream.subrange(4, 4 + payload.len() as int) =~= payload);
}

/// The framing state of a connection in intermediate mode.
#[derive(Debug)]
pub struct ConnectionTcpIntermediate {
    is_first_request: bool,
}

impl View for ConnectionTcpIntermediate {
    type V = bool;

    /// Whether no packet has been framed yet.
    closed spec fn view(&self) -> bool {
        self.is_first_request
    }
}

impl ConnectionTcpIntermediate {
    /// The state of a connection that was just opened.
    pub fn new() -> (conn: ConnectionTcpIntermediate)
        ensures
            conn@,
    {
        ConnectionTcpIntermediate { is_first_request: true }
    }

    /// Whether no packet has been framed yet.
    pub fn is_first_request(&self) -> (first: bool)
        ensures
            first == self@,
    {
        self.is_first_request
    }

    /// Frames a payload for sending. The first packet of a connection goes
    /// behind the marker. A payload longer than the length field can say is
    /// refused, and the state stays as it was.
    pub fn frame(&mut self, payload: &[u8]) -> (r: Result<Vec<u8>, Error>)
        ensures
            payload@.len() <= MAX_PAYLOAD_LEN ==> r is Ok && r->Ok_0@ == framed(
                old(self)@,
                payload@,
            ) && !final(self)@,
            payload@.len() > MAX_PAYLOAD_LEN ==> r == Err::<Vec<u8>, Error>(
                Error::MessageTooLong(payload@.len() as usize),
            ) && final(self)@ == old(self)@,
    {
        let size = payload.len();
        if size > MAX_PAYLOAD_LEN {
            return Err(Error::MessageTooLong(size));
        }
        let mut data: Vec<u8> = Vec::new();
        if self.is_first_request {
            self.is_first_request = false;
            let marker = u32_le(PREAMBLE);
            append_bytes(&mut data, marker.as_slice());
        }
        let len = u32_le(size as u32);
        append_bytes(&mut data, len.as_slice());
        append_bytes(&mut data, payload);
        assert(data@ =~= framed(old(self)@, payload@));
        Ok(data)
    }

    /// Makes what is to be written to the socket for an unauthenticated
    /// request: the envelope of a new message, framed. A request too long
    /// for a packet is refused before the session or the connection is
    /// touched.
    pub fn request_plain(&mut self, state: &mut State, request_data: Vec<u8>) -> (r: Result<
        Vec<u8>,
        Error,
    >)
        requires
            old(state)@.can_issue(),
        ensures
            request_data@.len() + PLAIN_OVERHEAD > MAX_PAYLOAD_LEN ==> r == Err::<Vec<u8>, Error>(
                Error::MessageTooLong(request_data@.len() as usize),
            ) && final(state)@ == old(state)@ && final(self)@ == old(self)@,
            request_data@.len() + PLAIN_OVERHEAD <= MAX_PAYLOAD_LEN ==> ({
                let id = final(state)@.last_msg_id;
                &&& r is Ok
                &&& r->Ok_0@ == framed(old(self)@, plain_envelope(id, request_data@))
                &&& final(state)@ == after_request(old(state)@, id)
                &&& id > old(state)@.last_msg_id
                &&& id % 4 == 0
                &&& !final(self)@
            }),
    {
        match plain_request_payload(state, request_data, MAX_PAYLOAD_LEN) {
            Ok(payload) => {
                proof {
                    crate::tl::parsing::lemma_le_bytes_len(0, 8);
                    crate::tl::parsing::lemma_le_bytes_len(request_data@.len(), 4);
                    crate::tl::message::lemma_i64_round_trip(state@.last_msg_id);
                }
                self.frame(payload.as_slice())
            },
            Err(e) => Err(e),
        }
    }

    /// Makes what is to be written to the socket for an authenticated
    /// request: the envelope of a new message under the session's key,
    /// framed. A request too long for a packet is refused before the
    /// session or the connection is touched.
    pub fn request(&mut self, state: &mut State, request_data: Vec<u8>) -> (r: Result<
        Vec<u8>,
        Error,
    >)
        requires
            old(state)@.can_issue(),
        ensures
            request_data@.len() + SEALED_OVERHEAD > MAX_PAYLOAD_LEN ==> r == Err::<Vec<u8>, Error>(
                Error::MessageTooLong(request_data@.len() as usize),
            ) && final(state)@ == old(state)@ && final(self)@ == old(self)@,
            request_data@.len() + SEALED_OVERHEAD <= MAX_PAYLOAD_LEN ==> ({
                let id = final(state)@.last_msg_id;
                let message = request_message(old(state)@, id, request_data@);
                &&& r is Ok
                &&& final(state)@ == after_request(old(state)@, id)
                &&& id > old(state)@.last_msg_id
                &&& id % 4 == 0
                &&& !final(self)@
                &&& exists|padding: Seq<u8>, payload: Seq<u8>|
                    padding.len() == padding_len(inner_block(message).len()) && #[trigger] is_sealed(
                        old(state)@.auth_raw_key,
                        old(state)@.version,
                        Direction::ToServer,
                        message,
                        padding,
                        payload,
                    ) && r->Ok_0@ == framed(old(self)@, payload)
            }),
    {
        match request_payload(state, request_data, MAX_PAYLOAD_LEN) {
            Ok(payload) => self.frame(payload.as_slice()),
            Err(e) => Err(e),
        }
    }

    /// The length of the payload that a length prefix announces.
    pub fn payload_len(prefix: &[u8; 4]) -> (len: u32)
        ensures
            len == le_value(prefix@),
    {
        let len = u32_from_le(prefix.as_slice());
        assert(prefix@.subrange(0, 4) =~= prefix@);
        len
    }

    /// The payload of the packet at the start of `stream`, or
    /// `UnexpectedEof` when the stream ends before the packet does.
    pub fn parse(stream: &[u8]) -> (r: Result<Vec<u8>, Error>)
        ensures
            match parsed(stream@) {
                Ok(payload) => r is Ok && r->Ok_0@ == payload,
                Err(e) => r is Err && r->Err_0 == e,
            },
    {
        if stream.len() < 4 {
            return Err(Error::UnexpectedEof);
        }
        let len = u32_from_le(stream) as usize;
        assert(stream@.subrange(0, 4) =~= stream@.take(4));
        if stream.len() - 4 < len {
            return Err(Error::UnexpectedEof);
        }
        Ok(copy_range(stream, 4, 4 + len))
    }
}

} // verus!
