//! The abridged TCP framing: the length in words in one byte, or in three
//! bytes behind an escape byte, and a one-byte marker in front of the first
//! packet.

use crate::error::Error;
use crate::tl::bytes::lemma_le_value_3;
use crate::tl::parsing::append_bytes;
use crate::tl::parsing::copy_range;
use crate::tl::parsing::le_bytes;
use crate::tl::parsing::le_value;
use crate::tl::parsing::lemma_le_bytes_len;
use crate::tl::parsing::lemma_le_value_of_bytes;
use crate::tl::parsing::lemma_pow256_values;
use crate::tl::parsing::u32_le;
use vstd::prelude::*;

verus! {

/// The marker that opens a connection in abridged mode.
pub const PREAMBLE: u8 = 0xef;

/// The byte that announces a three-byte length.
pub const ESCAPE: u8 = 0x7f;

/// One more than the largest number of words that a packet can announce.
pub const WORD_LIMIT: usize = 0x100_0000;

/// Whether the framing can carry a payload of `len` bytes: a whole number
/// of words, fewer than 2^24 of them.
pub open spec fn can_carry(len: nat) -> bool {
    len % 4 == 0 && len / 4 < WORD_LIMIT
}

/// The length prefix of a payload of `words` words.
pub open spec fn header(words: nat) -> Seq<u8> {
    if words < ESCAPE {
        seq![words as u8]
    } else {
        seq![ESCAPE] + le_bytes(words, 3)
    }
}

/// A packet: the length prefix, then the payload.
pub open spec fn packet(payload: Seq<u8>) -> Seq<u8> {
    header(payload.len() / 4) + payload
}

/// What goes on the wire for a payload: the packet, behind the marker if it
/// is the first of the connection.
pub open spec fn framed(first: bool, payload: Seq<u8>) -> Seq<u8> {
    if first {
        seq![PREAMBLE] + packet(payload)
    } else {
        packet(payload)
    }
}

/// The payload of the packet at the start of `stream`. A first byte above
/// the escape byte announces no length.
pub open spec fn parsed(stream: Seq<u8>) -> Result<Seq<u8>, Error> {
    if stream.len() < 1 {
        Err(Error::UnexpectedEof)
    } else if stream[0] > ESCAPE {
        Err(Error::LengthTooLarge)
    } else if stream[0] == ESCAPE && stream.len() < 4 {
        Err(Error::UnexpectedEof)
    } else {
        let head: int = if stream[0] == ESCAPE {
            4
        } else {
            1
        };
        let words: int = if stream[0] == ESCAPE {
            le_value(stream.subrange(1, 4)) as int
        } else {
            stream[0] as int
        };
        if stream.len() - head < 4 * words {
            Err(Error::UnexpectedEof)
        } else {
            Ok(stream.subrange(head, head + 4 * words))
        }
    }
}

/// Parsing a packet gives its payload back, whatever follows the packet.
pub proof fn lemma_round_trip(payload: Seq<u8>, rest: Seq<u8>)
    requires
        can_carry(payload.len()),
    ensures
        parsed(packet(payload) + rest) == Ok::<Seq<u8>, Error>(payload),
{
    let words = payload.len() / 4;
    let stream = packet(payload) + rest;
    lemma_le_bytes_len(words, 3);
    if words < ESCAPE {
        assert(stream[0] == words as u8);
        assert(stream.subrange(1, 1 + 4 * words as int) =~= payload);
    } else {
        assert(stream[0] == ESCAPE);
        assert(stream.subrange(1, 4) =~= le_bytes(words, 3));
        lemma_le_value_of_bytes(words, 3);
        lemma_pow256_values();
        assert(stream.subrange(4, 4 + 4 * words as int) =~= payload);
    }
}

/// The framing state of a connection in abridged mode.
#[derive(Debug)]
pub struct ConnectionTcpAbridged {
    is_first_request: bool,
}

impl View for ConnectionTcpAbridged {
    type V = bool;

    /// Whether no packet has been framed yet.
    closed spec fn view(&self) -> bool {
        self.is_first_request
    }
}

impl ConnectionTcpAbridged {
    /// The state of a connection that was just opened.
    pub fn new() -> (conn: ConnectionTcpAbridged)
        ensures
            conn@,
    {
        ConnectionTcpAbridged { is_first_request: true }
    }

    /// Whether no packet has been framed yet.
    pub fn is_first_request(&self) -> (first: bool)
        ensures
            first == self@,
    {
        self.is_first_request
    }

    /// Frames a payload for sending. The first packet of a connection goes
    /// behind the marker. A payload that is not a whole number of words, or
    /// that has 2^24 words or more, is refused, and the state stays as it was.
    pub fn frame(&mut self, payload: &[u8]) -> (r: Result<Vec<u8>, Error>)
        ensures
            can_carry(payload@.len()) ==> r is Ok && r->Ok_0@ == framed(old(self)@, payload@)
                && !final(self)@,
            payload@.len() % 4 != 0 ==> r == Err::<Vec<u8>, Error>(Error::UnalignedLength)
                && final(self)@ == old(self)@,
            payload@.len() % 4 == 0 && payload@.len() / 4 >= WORD_LIMIT ==> r == Err::<
                Vec<u8>,
                Error,
            >(Error::LengthTooLarge) && final(self)@ == old(self)@,
    {
        let size = payload.len();
        if size % 4 != 0 {
            return Err(Error::UnalignedLength);
        }
        let words = size / 4;
        if words >= WORD_LIMIT {
            return Err(Error::LengthTooLarge);
        }
        let mut data: Vec<u8> = Vec::new();
        if self.is_first_request {
            self.is_first_request = false;
            data.push(PREAMBLE);
        }
        let ghost marked = data@;
        if words < 0x7f {
            data.push(words as u8);
        } else {
            proof {
                assert((127 + 256 * words) % 256 == 127);
                assert((127 + 256 * words) / 256 == words);
                lemma_le_bytes_len(words as nat, 3);
            }
            let head = u32_le(127 + 256 * (words as u32));
            append_bytes(&mut data, head.as_slice());
        }
        assert(data@ =~= marked + header(words as nat));
        append_bytes(&mut data, payload);
        assert(data@ =~= framed(old(self)@, payload@));
        Ok(data)
    }

    /// The payload of the packet at the start of `stream`.
    pub fn parse(stream: &[u8]) -> (r: Result<Vec<u8>, Error>)
        ensures
            match parsed(stream@) {
                Ok(payload) => r is Ok && r->Ok_0@ == payload,
                Err(e) => r is Err && r->Err_0 == e,
            },
    {
        if stream.len() < 1 {
            return Err(Error::UnexpectedEof);
        }
        let first = stream[0];
        if first > ESCAPE {
            return Err(Error::LengthTooLarge);
        }
        let (head, words): (usize, usize) = if first == ESCAPE {
            if stream.len() < 4 {
                return Err(Error::UnexpectedEof);
            }
            proof {
                lemma_le_value_3(stream@.subrange(1, 4));
            }
            (4, stream[1] as usize + 256 * (stream[2] as usize) + 65536 * (stream[3] as usize))
        } else {
            (1, first as usize)
        };
        if stream.len() - head < 4 * words {
            return Err(Error::UnexpectedEof);
        }
        Ok(copy_range(stream, head, head + 4 * words))
    }
}

} // verus!
