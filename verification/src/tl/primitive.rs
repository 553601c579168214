//! The wire format of the fixed-width integers.

use crate::tl::parsing::le_bytes;
use crate::tl::parsing::le_value;
use crate::tl::parsing::lemma_le_bytes_len;
use crate::tl::parsing::lemma_le_value_bound;
use crate::tl::parsing::lemma_le_value_of_bytes;
use crate::tl::parsing::lemma_pow256_values;
use crate::tl::parsing::ConstructorId;
use crate::tl::parsing::Reader;
use crate::tl::parsing::Writer;
use crate::tl::Decoded;
use crate::tl::Error;
use crate::tl::Type;
use vstd::prelude::*;

verus! {

/// The unsigned number with the same `bits` low bits as `x`.
pub open spec fn to_unsigned(x: int, bits: nat) -> nat {
    if x >= 0 {
        x as nat
    } else {
        (x + vstd::arithmetic::power2::pow2(bits)) as nat
    }
}

/// The two's complement number that the `bits`-bit pattern `v` stands for.
pub open spec fn to_signed(v: nat, bits: nat) -> int {
    if v < vstd::arithmetic::power2::pow2((bits - 1) as nat) {
        v as int
    } else {
        v - vstd::arithmetic::power2::pow2(bits)
    }
}

/// The number of `width` bytes at the start of `bytes`.
pub open spec fn decode_unsigned(bytes: Seq<u8>, width: nat) -> Decoded<nat> {
    if bytes.len() < width {
        Err(Error::ShortRead)
    } else {
        Ok((le_value(bytes.take(width as int)), width as int))
    }
}

/// The powers of two at the widths of the wire format.
pub proof fn lemma_pow2_values()
    ensures
        vstd::arithmetic::power2::pow2(31) == 0x8000_0000,
        vstd::arithmetic::power2::pow2(32) == 0x1_0000_0000,
        vstd::arithmetic::power2::pow2(63) == 0x8000_0000_0000_0000,
        vstd::arithmetic::power2::pow2(64) == 0x1_0000_0000_0000_0000,
{
    vstd::arithmetic::power2::lemma2_to64();
    vstd::arithmetic::power2::lemma2_to64_rest();
}

/// A number of `width` bytes that is written and read back is unchanged.
pub proof fn lemma_unsigned_round_trip(x: nat, width: nat, rest: Seq<u8>)
    requires
        x < crate::tl::parsing::pow256(width),
    ensures
        decode_unsigned(le_bytes(x, width) + rest, width) == Ok::<(nat, int), Error>(
            (x, width as int),
        ),
        le_bytes(x, width).len() == width,
{
    lemma_le_bytes_len(x, width);
    lemma_le_value_of_bytes(x, width);
    assert((le_bytes(x, width) + rest).take(width as int) =~= le_bytes(x, width));
    vstd::arithmetic::div_mod::lemma_small_mod(x, crate::tl::parsing::pow256(width));
}

impl Type for u32 {
    type Model = u32;

    open spec fn model(&self) -> u32 {
        *self
    }

    open spec fn is_bare() -> bool {
        true
    }

    open spec fn receivable() -> bool {
        true
    }

    open spec fn valid(m: u32) -> bool {
        true
    }

    open spec fn id_of(m: u32) -> Option<ConstructorId> {
        None
    }

    open spec fn encode(m: u32) -> Seq<u8> {
        le_bytes(m as nat, 4)
    }

    open spec fn decode(bytes: Seq<u8>) -> Decoded<u32> {
        match decode_unsigned(bytes, 4) {
            Ok((v, n)) => Ok((v as u32, n)),
            Err(e) => Err(e),
        }
    }

    open spec fn decode_boxed(id: ConstructorId, bytes: Seq<u8>) -> Decoded<u32> {
        Err(Error::PrimitiveAsPolymorphic)
    }

    proof fn lemma_id_of(m: u32) {
    }

    proof fn lemma_round_trip(m: u32, rest: Seq<u8>) {
        lemma_pow256_values();
        lemma_unsigned_round_trip(m as nat, 4, rest);
    }


    fn bare_type() -> (bare: bool) {
        true
    }

    fn type_id(&self) -> (id: Option<ConstructorId>) {
        None
    }

    fn serialize(&self, writer: &mut Writer) -> (r: Result<(), Error>) {
        writer.write_u32(*self);
        Ok(())
    }

    fn deserialize(reader: &mut Reader) -> (r: Result<Self, Error>) {
        reader.read_u32()
    }

    fn deserialize_boxed(id: ConstructorId, reader: &mut Reader) -> (r: Result<Self, Error>) {
        Err(Error::PrimitiveAsPolymorphic)
    }
}

impl Type for u64 {
    type Model = u64;

    open spec fn model(&self) -> u64 {
        *self
    }

    open spec fn is_bare() -> bool {
        true
    }

    open spec fn receivable() -> bool {
        true
    }

    open spec fn valid(m: u64) -> bool {
        true
    }

    open spec fn id_of(m: u64) -> Option<ConstructorId> {
        None
    }

    open spec fn encode(m: u64) -> Seq<u8> {
        le_bytes(m as nat, 8)
    }

    open spec fn decode(bytes: Seq<u8>) -> Decoded<u64> {
        match decode_unsigned(bytes, 8) {
            Ok((v, n)) => Ok((v as u64, n)),
            Err(e) => Err(e),
        }
    }

    open spec fn decode_boxed(id: ConstructorId, bytes: Seq<u8>) -> Decoded<u64> {
        Err(Error::PrimitiveAsPolymorphic)
    }

    proof fn lemma_id_of(m: u64) {
    }

    proof fn lemma_round_trip(m: u64, rest: Seq<u8>) {
        lemma_pow256_values();
        lemma_unsigned_round_trip(m as nat, 8, rest);
    }


    fn bare_type() -> (bare: bool) {
        true
    }

    fn type_id(&self) -> (id: Option<ConstructorId>) {
        None
    }

    fn serialize(&self, writer: &mut Writer) -> (r: Result<(), Error>) {
        writer.write_u64(*self);
        Ok(())
    }

    fn deserialize(reader: &mut Reader) -> (r: Result<Self, Error>) {
        reader.read_u64()
    }

    fn deserialize_boxed(id: ConstructorId, reader: &mut Reader) -> (r: Result<Self, Error>) {
        Err(Error::PrimitiveAsPolymorphic)
    }
}

impl Type for u128 {
    type Model = u128;

    open spec fn model(&self) -> u128 {
        *self
    }

    open spec fn is_bare() -> bool {
        true
    }

    open spec fn receivable() -> bool {
        true
    }

    open spec fn valid(m: u128) -> bool {
        true
    }

    open spec fn id_of(m: u128) -> Option<ConstructorId> {
        None
    }

    open spec fn encode(m: u128) -> Seq<u8> {
        le_bytes(m as nat, 16)
    }

    open spec fn decode(bytes: Seq<u8>) -> Decoded<u128> {
        match decode_unsigned(bytes, 16) {
            Ok((v, n)) => Ok((v as u128, n)),
            Err(e) => Err(e),
        }
    }

    open spec fn decode_boxed(id: ConstructorId, bytes: Seq<u8>) -> Decoded<u128> {
        Err(Error::PrimitiveAsPolymorphic)
    }

    proof fn lemma_id_of(m: u128) {
    }

    proof fn lemma_round_trip(m: u128, rest: Seq<u8>) {
        lemma_pow256_values();
        lemma_unsigned_round_trip(m as nat, 16, rest);
    }


    fn bare_type() -> (bare: bool) {
        true
    }

    fn type_id(&self) -> (id: Option<ConstructorId>) {
        None
    }

    fn serialize(&self, writer: &mut Writer) -> (r: Result<(), Error>) {
        writer.write_u128(*self);
        Ok(())
    }

    fn deserialize(reader: &mut Reader) -> (r: Result<Self, Error>) {
        reader.read_u128()
    }

    fn deserialize_boxed(id: ConstructorId, reader: &mut Reader) -> (r: Result<Self, Error>) {
        Err(Error::PrimitiveAsPolymorphic)
    }
}

impl Type for i32 {
    type Model = i32;

    open spec fn model(&self) -> i32 {
        *self
    }

    open spec fn is_bare() -> bool {
        true
    }

    open spec fn receivable() -> bool {
        true
    }

    open spec fn valid(m: i32) -> bool {
        true
    }

    open spec fn id_of(m: i32) -> Option<ConstructorId> {
        None
    }

    open spec fn encode(m: i32) -> Seq<u8> {
        le_bytes(to_unsigned(m as int, 32), 4)
    }

    open spec fn decode(bytes: Seq<u8>) -> Decoded<i32> {
        match decode_unsigned(bytes, 4) {
            Ok((v, n)) => Ok((to_signed(v, 32) as i32, n)),
            Err(e) => Err(e),
        }
    }

    open spec fn decode_boxed(id: ConstructorId, bytes: Seq<u8>) -> Decoded<i32> {
        Err(Error::PrimitiveAsPolymorphic)
    }

    proof fn lemma_id_of(m: i32) {
    }

    proof fn lemma_round_trip(m: i32, rest: Seq<u8>) {
        lemma_pow256_values();
        lemma_pow2_values();
        lemma_unsigned_round_trip(to_unsigned(m as int, 32), 4, rest);
    }


    fn bare_type() -> (bare: bool) {
        true
    }

    fn type_id(&self) -> (id: Option<ConstructorId>) {
        None
    }

    fn serialize(&self, writer: &mut Writer) -> (r: Result<(), Error>) {
        let x = *self;
        let bits: u32 = #[verifier::truncate] (x as u32);
        proof {
            lemma_pow2_values();
            assert(bits as int == (if x >= 0 {
                x as int
            } else {
                x + 0x1_0000_0000
            })) by (bit_vector)
                requires
                    bits == x as u32,
            ;
        }
        writer.write_u32(bits);
        Ok(())
    }

    fn deserialize(reader: &mut Reader) -> (r: Result<Self, Error>) {
        proof {
            lemma_pow256_values();
            lemma_pow2_values();
            if reader@.remaining().len() >= 4 {
                lemma_le_value_bound(reader@.remaining().take(4));
            }
        }
        match reader.read_u32() {
            Ok(bits) => {
                let x: i32 = #[verifier::truncate] (bits as i32);
                proof {
                    assert(x as int == (if bits < 0x8000_0000 {
                        bits as int
                    } else {
                        bits - 0x1_0000_0000
                    })) by (bit_vector)
                        requires
                            x == bits as i32,
                    ;
                }
                Ok(x)
            },
            Err(e) => Err(e),
        }
    }

    fn deserialize_boxed(id: ConstructorId, reader: &mut Reader) -> (r: Result<Self, Error>) {
        Err(Error::PrimitiveAsPolymorphic)
    }
}

impl Type for i64 {
    type Model = i64;

    open spec fn model(&self) -> i64 {
        *self
    }

    open spec fn is_bare() -> bool {
        true
    }

    open spec fn receivable() -> bool {
        true
    }

    open spec fn valid(m: i64) -> bool {
        true
    }

    open spec fn id_of(m: i64) -> Option<ConstructorId> {
        None
    }

    open spec fn encode(m: i64) -> Seq<u8> {
        le_bytes(to_unsigned(m as int, 64), 8)
    }

    open spec fn decode(bytes: Seq<u8>) -> Decoded<i64> {
        match decode_unsigned(bytes, 8) {
            Ok((v, n)) => Ok((to_signed(v, 64) as i64, n)),
            Err(e) => Err(e),
        }
    }

    open spec fn decode_boxed(id: ConstructorId, bytes: Seq<u8>) -> Decoded<i64> {
        Err(Error::PrimitiveAsPolymorphic)
    }

    proof fn lemma_id_of(m: i64) {
    }

    proof fn lemma_round_trip(m: i64, rest: Seq<u8>) {
        lemma_pow256_values();
        lemma_pow2_values();
        lemma_unsigned_round_trip(to_unsigned(m as int, 64), 8, rest);
    }


    fn bare_type() -> (bare: bool) {
        true
    }

    fn type_id(&self) -> (id: Option<ConstructorId>) {
        None
    }

    fn serialize(&self, writer: &mut Writer) -> (r: Result<(), Error>) {
        let x = *self;
        let bits: u64 = #[verifier::truncate] (x as u64);
        proof {
            lemma_pow2_values();
            assert(bits as int == (if x >= 0 {
                x as int
            } else {
                x + 0x1_0000_0000_0000_0000
            })) by (bit_vector)
                requires
                    bits == x as u64,
            ;
        }
        writer.write_u64(bits);
        Ok(())
    }

    fn deserialize(reader: &mut Reader) -> (r: Result<Self, Error>) {
        proof {
            lemma_pow256_values();
            lemma_pow2_values();
            if reader@.remaining().len() >= 8 {
                lemma_le_value_bound(reader@.remaining().take(8));
            }
        }
        match reader.read_u64() {
            Ok(bits) => {
                let x: i64 = #[verifier::truncate] (bits as i64);
                proof {
                    assert(x as int == (if bits < 0x8000_0000_0000_0000 {
                        bits as int
                    } else {
                        bits - 0x1_0000_0000_0000_0000
                    })) by (bit_vector)
                        requires
                            x == bits as i64,
                    ;
                }
                Ok(x)
            },
            Err(e) => Err(e),
        }
    }

    fn deserialize_boxed(id: ConstructorId, reader: &mut Reader) -> (r: Result<Self, Error>) {
        Err(Error::PrimitiveAsPolymorphic)
    }
}

/// A number of 256 bits, as the 32 bytes that go on the wire.
#[derive(Clone, Copy, Debug)]
pub struct Int256 {
    pub bytes: [u8; 32],
}

impl Type for Int256 {
    type Model = Seq<u8>;

    open spec fn model(&self) -> Seq<u8> {
        self.bytes@
    }

    open spec fn is_bare() -> bool {
        true
    }

    open spec fn receivable() -> bool {
        true
    }

    open spec fn valid(m: Seq<u8>) -> bool {
        m.len() == 32
    }

    open spec fn id_of(m: Seq<u8>) -> Option<ConstructorId> {
        None
    }

    open spec fn encode(m: Seq<u8>) -> Seq<u8> {
        m
    }

    open spec fn decode(bytes: Seq<u8>) -> Decoded<Seq<u8>> {
        if bytes.len() < 32 {
            Err(Error::ShortRead)
        } else {
            Ok((bytes.take(32), 32))
        }
    }

    open spec fn decode_boxed(id: ConstructorId, bytes: Seq<u8>) -> Decoded<Seq<u8>> {
        Err(Error::PrimitiveAsPolymorphic)
    }

    proof fn lemma_id_of(m: Seq<u8>) {
    }

    proof fn lemma_round_trip(m: Seq<u8>, rest: Seq<u8>) {
        assert((m + rest).take(32) =~= m);
    }

    fn bare_type() -> (bare: bool) {
        true
    }

    fn type_id(&self) -> (id: Option<ConstructorId>) {
        None
    }

    fn serialize(&self, writer: &mut Writer) -> (r: Result<(), Error>) {
        writer.write_bytes(self.bytes.as_slice());
        Ok(())
    }

    fn deserialize(reader: &mut Reader) -> (r: Result<Self, Error>) {
        let read = match reader.read_bytes(32) {
            Ok(read) => read,
            Err(e) => {
                return Err(e);
            },
        };
        let mut bytes = [0u8;32];
        let mut i: usize = 0;
        while i < 32
            invariant
                i <= 32,
                read@.len() == 32,
                bytes@.take(i as int) == read@.take(i as int),
            decreases 32 - i,
        {
            bytes[i] = read[i];
            i += 1;
            assert(bytes@.take(i as int) =~= read@.take(i as int));
        }
        assert(bytes@.take(32) =~= bytes@);
        assert(read@.take(32) =~= read@);
        Ok(Int256 { bytes })
    }

    fn deserialize_boxed(id: ConstructorId, reader: &mut Reader) -> (r: Result<Self, Error>) {
        Err(Error::PrimitiveAsPolymorphic)
    }
}

} // verus!
