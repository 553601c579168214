//! The full TCP framing: every packet carries its length, a sequence number
//! and a checksum.

use crate::error::Error;
use crate::tl::parsing::append_bytes;
use crate::tl::parsing::copy_range;
use crate::tl::parsing::le_bytes;
use crate::tl::parsing::le_value;
use crate::tl::parsing::lemma_le_bytes_len;
use crate::tl::parsing::lemma_le_value_of_bytes;
use crate::tl::parsing::lemma_pow256_values;
use crate::tl::parsing::u32_le;
use crate::tl::message::u32_at;
use vstd::prelude::*;

verus! {

/// The bytes of a packet besides its payload: length, sequence number and
/// checksum.
pub const OVERHEAD: usize = 12;

/// The longest payload that a packet can carry.
pub const MAX_PAYLOAD_LEN: usize = 0xffff_fff3;

/// The CRC-32 checksum of `data`, with the reflected polynomial 0xEDB88320.
pub uninterp spec fn crc32_ieee(data: Seq<u8>) -> u32;

/// The checksum that the `crc` crate computes of `data` with its algorithm
/// `CRC_32_ISO_HDLC`.
#[verifier::external_body]
fn crc32(data: &[u8]) -> (sum: u32)
    ensures
        sum == crc32_ieee(data@),
{
    crc::Crc::<u32>::new(&crc::CRC_32_ISO_HDLC).checksum(data)
}

/// A packet without its checksum: the length of the whole packet and the
/// sequence number, each in four little-endian bytes, then the payload.
pub open spec fn unsealed(seq: u32, payload: Seq<u8>) -> Seq<u8> {
    le_bytes(payload.len() + OVERHEAD as nat, 4) + le_bytes(seq as nat, 4) + payload
}

/// A packet: length, sequence number, payload, and the checksum of these
/// three in four little-endian bytes.
pub open spec fn packet(seq: u32, payload: Seq<u8>) -> Seq<u8> {
    unsealed(seq, payload) + le_bytes(crc32_ieee(unsealed(seq, payload)) as nat, 4)
}

/// The payload of the packet at the start of `stream`, which is expected to
/// carry the sequence number `seq`. A packet that announces less than its
/// own overhead is as good as cut short.
pub open spec fn parsed(seq: u32, stream: Seq<u8>) -> Result<Seq<u8>, Error> {
    if stream.len() < OVERHEAD {
        Err(Error::UnexpectedEof)
    } else {
        let total = le_value(stream.take(4)) as int;
        if total < OVERHEAD || stream.len() < total {
            Err(Error::UnexpectedEof)
        } else if le_value(stream.subrange(total - 4, total)) != crc32_ieee(
            stream.take(total - 4),
        ) {
            Err(
                Error::CrcMismatch {
                    expected: crc32_ieee(stream.take(total - 4)),
                    found: le_value(stream.subrange(total - 4, total)) as u32,
                },
            )
        } else if le_value(stream.subrange(4, 8)) != seq {
            Err(
                Error::SeqOutOfOrder {
                    expected: seq,
                    found: le_value(stream.subrange(4, 8)) as u32,
                },
            )
        } else {
            Ok(stream.subrange(8, total - 4))
        }
    }
}

/// The sequence number after `seq`.
pub open spec fn next_seq(seq: u32) -> u32 {
    if seq == u32::MAX {
        0
    } else {
        (seq + 1) as u32
    }
}

/// Parsing a packet with the sequence number it was framed with gives its
/// payload back, whatever follows the packet.
pub proof fn lemma_round_trip(seq: u32, payload: Seq<u8>, rest: Seq<u8>)
    requires
        payload.len() <= MAX_PAYLOAD_LEN,
    ensures
        parsed(seq, packet(seq, payload) + rest) == Ok::<Seq<u8>, Error>(payload),
{
    let body = unsealed(seq, payload);
    let sum = crc32_ieee(body);
    let total = payload.len() + OVERHEAD as nat;
    let stream = packet(seq, payload) + rest;
    lemma_pow256_values();
    lemma_le_bytes_len(total, 4);
    lemma_le_bytes_len(seq as nat, 4);
    lemma_le_bytes_len(sum as nat, 4);
    lemma_le_value_of_bytes(total, 4);
    lemma_le_value_of_bytes(seq as nat, 4);
    lemma_le_value_of_bytes(sum as nat, 4);
    assert(stream.take(4) =~= le_bytes(total, 4));
    assert(stream.subrange(4, 8) =~= le_bytes(seq as nat, 4));
    assert(stream.take(total - 4) =~= body);
    assert(stream.subrange(total - 4, total as int) =~= le_bytes(sum as nat, 4));
    assert(stream.subrange(8, total - 4) =~= payload);
}

/// What the framing keeps between packets: the sequence numbers of the
/// next packet to send and of the next packet to receive.
pub ghost struct FullView {
    pub send_seq: u32,
    pub recv_seq: u32,
}

/// The framing state of a connection in full mode.
#[derive(Debug)]
pub struct ConnectionTcpFull {
    sent_counter: u32,
    recv_counter: u32,
}

impl View for ConnectionTcpFull {
    type V = FullView;

    closed spec fn view(&self) -> FullView {
        FullView { send_seq: self.sent_counter, recv_seq: self.recv_counter }
    }
}

impl ConnectionTcpFull {
    /// The state of a connection that was just opened: both counters at zero.
    pub fn new() -> (conn: ConnectionTcpFull)
        ensures
            conn@ == (FullView { send_seq: 0, recv_seq: 0 }),
    {
        ConnectionTcpFull { sent_counter: 0, recv_counter: 0 }
    }

    /// The sequence number of the next packet to send.
    pub fn send_seq(&self) -> (seq: u32)
        ensures
            seq == self@.send_seq,
    {
        self.sent_counter
    }

    /// The sequence number of the next packet to receive.
    pub fn recv_seq(&self) -> (seq: u32)
        ensures
            seq == self@.recv_seq,
    {
        self.recv_counter
    }

    /// Frames a payload for sending and advances the send counter. A
    /// payload that leaves no room for the overhead in the length field is
    /// refused, and the state stays as it was.
    pub fn frame(&mut self, payload: &[u8]) -> (r: Result<Vec<u8>, Error>)
        ensures
            payload@.len() <= MAX_PAYLOAD_LEN ==> r is Ok && r->Ok_0@ == packet(
                old(self)@.send_seq,
                payload@,
            ) && final(self)@ == (FullView {
                send_seq: next_seq(old(self)@.send_seq),
                ..old(self)@
            }),
            payload@.len() > MAX_PAYLOAD_LEN ==> r == Err::<Vec<u8>, Error>(Error::LengthTooLarge)
                && final(self)@ == old(self)@,
    {
        let size = payload.len();
        if size > MAX_PAYLOAD_LEN {
            return Err(Error::LengthTooLarge);
        }
        let mut data: Vec<u8> = Vec::new();
        let total = u32_le((size + OVERHEAD) as u32);
        append_bytes(&mut data, total.as_slice());
        let seq = u32_le(self.sent_counter);
        append_bytes(&mut data, seq.as_slice());
        append_bytes(&mut data, payload);
        assert(data@ =~= unsealed(self.sent_counter, payload@));
        let sum = u32_le(crc32(data.as_slice()));
        append_bytes(&mut data, sum.as_slice());
        self.sent_counter = if self.sent_counter == u32::MAX {
            0
        } else {
            self.sent_counter + 1
        };
        Ok(data)
    }

    /// The payload of the packet at the start of `stream`, if the packet is
    /// whole, carries the checksum of its content and is the next one
    /// expected; the receive counter then advances. Else the state stays as
    /// it was.
    pub fn parse(&mut self, stream: &[u8]) -> (r: Result<Vec<u8>, Error>)
        ensures
            match parsed(old(self)@.recv_seq, stream@) {
                Ok(payload) => r is Ok && r->Ok_0@ == payload && final(self)@ == (FullView {
                    recv_seq: next_seq(old(self)@.recv_seq),
                    ..old(self)@
                }),
                Err(e) => r is Err && r->Err_0 == e && final(self)@ == old(self)@,
            },
    {
        if stream.len() < OVERHEAD {
            return Err(Error::UnexpectedEof);
        }
        let total = u32_at(stream, 0) as usize;
        assert(stream@.subrange(0, 4) =~= stream@.take(4));
        if total < OVERHEAD || stream.len() < total {
            return Err(Error::UnexpectedEof);
        }
        let carried = u32_at(stream, total - 4);
        let content = vstd::slice::slice_subrange(stream, 0, total - 4);
        assert(content@ =~= stream@.take(total - 4));
        let computed = crc32(content);
        if carried != computed {
            return Err(Error::CrcMismatch { expected: computed, found: carried });
        }
        let seq = u32_at(stream, 4);
        if seq != self.recv_counter {
            return Err(Error::SeqOutOfOrder { expected: self.recv_counter, found: seq });
        }
        self.recv_counter = if self.recv_counter == u32::MAX {
            0
        } else {
            self.recv_counter + 1
        };
        Ok(copy_range(stream, 8, total - 4))
    }
}

} // verus!
