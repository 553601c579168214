//! The wire format of byte strings: a length prefix, the bytes, and zero
//! padding up to a multiple of four.

use crate::tl::parsing::le_bytes;
use crate::tl::parsing::le_value;
use crate::tl::parsing::lemma_le_bytes_len;
use crate::tl::parsing::lemma_le_value_of_bytes;
use crate::tl::parsing::lemma_pow256_values;
use crate::tl::parsing::ConstructorId;
use crate::tl::parsing::Reader;
use crate::tl::parsing::Writer;
use crate::tl::Decoded;
use crate::tl::Error;
use crate::tl::Type;
use vstd::prelude::*;

verus! {

/// The longest byte string that has a one-byte length prefix.
pub const SHORT_MAX: usize = 253;

/// The first byte of the long form of the length prefix.
pub const LONG_MARKER: u8 = 254;

/// One more than the longest byte string that the format can carry.
pub const LENGTH_LIMIT: usize = 0x100_0000;

/// How many bytes bring a run of `n` bytes up to a multiple of four.
pub open spec fn padding_len(n: int) -> int {
    (4 - n % 4) % 4
}

/// `n` zero bytes.
pub open spec fn zeros(n: int) -> Seq<u8> {
    Seq::new(n as nat, |i: int| 0u8)
}

/// The length prefix of a byte string of `len` bytes: one byte up to 253,
/// else the marker 254 and three little-endian bytes.
pub open spec fn bytes_header(len: nat) -> Seq<u8> {
    if len <= SHORT_MAX {
        seq![len as u8]
    } else {
        seq![LONG_MARKER] + le_bytes(len, 3)
    }
}

/// A byte string on the wire.
pub open spec fn encode_bytes(m: Seq<u8>) -> Seq<u8> {
    let head = bytes_header(m.len());
    head + m + zeros(padding_len((head.len() + m.len()) as int))
}

/// The byte string at the start of `bytes`. The marker 255 announces no
/// length that the format knows.
pub open spec fn decode_bytes(bytes: Seq<u8>) -> Decoded<Seq<u8>> {
    if bytes.len() < 1 {
        Err(Error::ShortRead)
    } else if bytes[0] == 255 {
        Err(Error::OversizeLength)
    } else if bytes[0] == LONG_MARKER && bytes.len() < 4 {
        Err(Error::ShortRead)
    } else {
        let head: int = if bytes[0] == LONG_MARKER {
            4
        } else {
            1
        };
        let len: int = if bytes[0] == LONG_MARKER {
            le_value(bytes.subrange(1, 4)) as int
        } else {
            bytes[0] as int
        };
        let total = head + len + padding_len(head + len);
        if bytes.len() < total {
            Err(Error::ShortRead)
        } else {
            Ok((bytes.subrange(head, head + len), total))
        }
    }
}

/// The number that three bytes spell, least significant first.
pub proof fn lemma_le_value_3(s: Seq<u8>)
    requires
        s.len() == 3,
    ensures
        le_value(s) == s[0] + 256 * s[1] + 65536 * s[2],
{
    reveal_with_fuel(le_value, 4);
    assert(s.drop_first().drop_first().drop_first().len() == 0);
}

/// The long length prefix is the four little-endian bytes of the marker plus
/// 256 times the length.
pub proof fn lemma_long_header(len: nat)
    ensures
        le_bytes(254 + 256 * len, 4) == seq![LONG_MARKER] + le_bytes(len, 3),
{
    assert((254 + 256 * len) % 256 == 254);
    assert((254 + 256 * len) / 256 == len);
}

/// A byte string shorter than 2^24 bytes that is written and read back is
/// unchanged.
pub proof fn lemma_bytes_round_trip(m: Seq<u8>, rest: Seq<u8>)
    requires
        m.len() < LENGTH_LIMIT,
    ensures
        decode_bytes(encode_bytes(m) + rest) == Ok::<(Seq<u8>, int), Error>(
            (m, encode_bytes(m).len() as int),
        ),
        encode_bytes(m).len() % 4 == 0,
{
    let head = bytes_header(m.len());
    let wire = encode_bytes(m);
    let bytes = wire + rest;
    lemma_le_bytes_len(m.len(), 3);
    if m.len() <= SHORT_MAX {
        assert(bytes[0] == m.len() as u8);
        assert(bytes.subrange(1, 1 + m.len() as int) =~= m);
    } else {
        assert(bytes[0] == LONG_MARKER);
        assert(bytes.subrange(1, 4) =~= le_bytes(m.len(), 3));
        lemma_le_value_of_bytes(m.len(), 3);
        lemma_pow256_values();
        assert(bytes.subrange(4, 4 + m.len() as int) =~= m);
    }
}

impl Type for Vec<u8> {
    type Model = Seq<u8>;

    open spec fn model(&self) -> Seq<u8> {
        self@
    }

    open spec fn is_bare() -> bool {
        true
    }

    open spec fn receivable() -> bool {
        true
    }

    open spec fn valid(m: Seq<u8>) -> bool {
        m.len() < LENGTH_LIMIT
    }

    open spec fn id_of(m: Seq<u8>) -> Option<ConstructorId> {
        None
    }

    open spec fn encode(m: Seq<u8>) -> Seq<u8> {
        encode_bytes(m)
    }

    open spec fn decode(bytes: Seq<u8>) -> Decoded<Seq<u8>> {
        decode_bytes(bytes)
    }

    open spec fn decode_boxed(id: ConstructorId, bytes: Seq<u8>) -> Decoded<Seq<u8>> {
        Err(Error::PrimitiveAsPolymorphic)
    }

    proof fn lemma_id_of(m: Seq<u8>) {
    }

    proof fn lemma_round_trip(m: Seq<u8>, rest: Seq<u8>) {
        lemma_bytes_round_trip(m, rest);
    }


    fn bare_type() -> (bare: bool) {
        true
    }

    fn type_id(&self) -> (id: Option<ConstructorId>) {
        None
    }

    fn serialize(&self, writer: &mut Writer) -> (r: Result<(), Error>) {
        let len = self.len();
        if len >= LENGTH_LIMIT {
            return Err(Error::OversizeLength);
        }
        let head: usize = if len <= SHORT_MAX {
            writer.write_u8(len as u8);
            1
        } else {
            proof {
                lemma_long_header(len as nat);
                lemma_le_bytes_len(len as nat, 3);
            }
            writer.write_u32(254 + 256 * (len as u32));
            4
        };
        writer.write_bytes(self.as_slice());
        let pad: usize = (4 - (head + len) % 4) % 4;
        let ghost unpadded = writer@;
        let mut i: usize = 0;
        while i < pad
            invariant
                i <= pad,
                writer@ == unpadded + zeros(i as int),
            decreases pad - i,
        {
            writer.write_u8(0);
            i += 1;
            assert(writer@ =~= unpadded + zeros(i as int));
        }
        assert(writer@ =~= old(writer)@ + encode_bytes(self@));
        Ok(())
    }

    fn deserialize(reader: &mut Reader) -> (r: Result<Self, Error>) {
        let ghost input = reader@.remaining();
        let available = reader.remaining_len();
        let first = match reader.read_u8() {
            Ok(b) => b,
            Err(e) => {
                return Err(e);
            },
        };
        if first == 255 {
            return Err(Error::OversizeLength);
        }
        let (head, len): (usize, usize) = if first == LONG_MARKER {
            let prefix = match reader.read_bytes(3) {
                Ok(p) => p,
                Err(e) => {
                    return Err(e);
                },
            };
            proof {
                assert(prefix@ =~= input.subrange(1, 4));
                lemma_le_value_3(prefix@);
            }
            (4, prefix[0] as usize + 256 * (prefix[1] as usize) + 65536 * (prefix[2] as usize))
        } else {
            (1, first as usize)
        };
        let pad: usize = (4 - (head + len) % 4) % 4;
        if reader.remaining_len() < len + pad {
            return Err(Error::ShortRead);
        }
        let body = match reader.read_bytes(len) {
            Ok(b) => b,
            Err(e) => {
                return Err(e);
            },
        };
        assert(body@ =~= input.subrange(head as int, head + len));
        match reader.read_bytes(pad) {
            Ok(_) => Ok(body),
            Err(e) => Err(e),
        }
    }

    fn deserialize_boxed(id: ConstructorId, reader: &mut Reader) -> (r: Result<Self, Error>) {
        Err(Error::PrimitiveAsPolymorphic)
    }
}

} // verus!
