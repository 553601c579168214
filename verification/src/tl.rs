//! The TL wire format: how typed values become bytes and back.

use crate::tl::parsing::ConstructorId;
use crate::tl::parsing::Reader;
use crate::tl::parsing::Writer;
use vstd::prelude::*;

pub mod bytes;
pub mod envelope;
pub mod message;
pub mod parsing;
pub mod primitive;
pub mod vector;

verus! {

/// Why a value could not be written or read.
#[derive(Clone, Copy, Debug, PartialEq, Eq, Structural)]
pub enum Error {
    /// A boxed value starts with a constructor id that its type does not have.
    InvalidConstructorId,
    /// The input ends before the value does.
    ShortRead,
    /// A length does not fit in the field that carries it.
    OversizeLength,
    /// A bare type was asked to read itself as a boxed value.
    PrimitiveAsPolymorphic,
    /// A type that is only ever sent was asked to read itself.
    ReceivedSendType,
}

/// What reading a value from bytes gives: the value and the number of bytes
/// it took, or the reason why there is none.
pub type Decoded<M> = Result<(M, int), Error>;

/// A type with a place in the wire format.
///
/// The format of a type is given by `encode` and `decode` over its
/// mathematical model; `serialize` and `deserialize` compute them.
pub trait Type: Sized {
    /// The mathematical value that a value of this type stands for.
    type Model;

    /// The mathematical value of `self`.
    spec fn model(&self) -> Self::Model;

    /// Whether values of this type go on the wire without a constructor id
    /// when nothing says otherwise.
    spec fn is_bare() -> bool;

    /// Whether values of this type can be read as well as written.
    spec fn receivable() -> bool;

    /// Whether `m` can be written: every length in it fits its field.
    spec fn valid(m: Self::Model) -> bool;

    /// The constructor id of `m`, for a type that has one.
    spec fn id_of(m: Self::Model) -> Option<ConstructorId>;

    /// The bytes of `m` without a constructor id.
    spec fn encode(m: Self::Model) -> Seq<u8>;

    /// The value at the start of `bytes`, written without a constructor id.
    spec fn decode(bytes: Seq<u8>) -> Decoded<Self::Model>;

    /// The value at the start of `bytes`, which follow the constructor id `id`.
    spec fn decode_boxed(id: ConstructorId, bytes: Seq<u8>) -> Decoded<Self::Model>;

    /// Exactly the types that are not bare have constructor ids.
    proof fn lemma_id_of(m: Self::Model)
        ensures
            Self::is_bare() <==> Self::id_of(m) is None,
    ;

    /// Reading what was written gives the value back, whatever follows it:
    /// for every type that can be read, and, for one that has a constructor
    /// id, also when the value is read behind that id.
    proof fn lemma_round_trip(m: Self::Model, rest: Seq<u8>)
        requires
            Self::valid(m),
        ensures
            Self::receivable() ==> Self::decode(Self::encode(m) + rest) == Ok::<
                (Self::Model, int),
                Error,
            >((m, Self::encode(m).len() as int)),
            Self::receivable() && !Self::is_bare() ==> Self::decode_boxed(
                Self::id_of(m)->0,
                Self::encode(m) + rest,
            ) == Ok::<(Self::Model, int), Error>((m, Self::encode(m).len() as int)),
    ;

    fn bare_type() -> (bare: bool)
        ensures
            bare == Self::is_bare(),
    ;

    fn type_id(&self) -> (id: Option<ConstructorId>)
        ensures
            id == Self::id_of(self.model()),
    ;

    /// Appends the bytes of `self`, without a constructor id, to `writer`.
    fn serialize(&self, writer: &mut Writer) -> (r: Result<(), Error>)
        ensures
            Self::valid(self.model()) ==> r is Ok && final(writer)@ == old(writer)@ + Self::encode(
                self.model(),
            ),
            !Self::valid(self.model()) ==> r == Err::<(), Error>(Error::OversizeLength),
    ;

    /// Reads a value, written without a constructor id, from `reader`.
    fn deserialize(reader: &mut Reader) -> (r: Result<Self, Error>)
        ensures
            match Self::decode(old(reader)@.remaining()) {
                Ok((m, n)) => r is Ok && r->Ok_0.model() == m && 0 <= n && final(reader)@ == old(
                    reader,
                )@.advanced(n),
                Err(e) => r is Err && r->Err_0 == e && final(reader)@.data == old(reader)@.data,
            },
    ;

    /// Reads a value from `reader` of which the constructor id `id` has been
    /// read already.
    fn deserialize_boxed(id: ConstructorId, reader: &mut Reader) -> (r: Result<Self, Error>)
        ensures
            match Self::decode_boxed(id, old(reader)@.remaining()) {
                Ok((m, n)) => r is Ok && r->Ok_0.model() == m && 0 <= n && final(reader)@ == old(
                    reader,
                )@.advanced(n),
                Err(e) => r is Err && r->Err_0 == e && final(reader)@.data == old(reader)@.data,
            },
    ;
}

/// The bytes of `m` as part of a larger value: with its constructor id in
/// front unless the type is bare.
pub open spec fn generic_encode<T: Type>(m: T::Model) -> Seq<u8> {
    if T::is_bare() {
        T::encode(m)
    } else {
        let id = T::id_of(m)->0;
        parsing::le_bytes(id.0 as nat, 4) + T::encode(m)
    }
}

/// Adds the `k` bytes read before it to what a read consumed.
pub open spec fn after<M>(k: int, r: Decoded<M>) -> Decoded<M> {
    match r {
        Ok((m, n)) => Ok((m, k + n)),
        Err(e) => Err(e),
    }
}

/// The value at the start of `bytes` as part of a larger value: behind its
/// constructor id unless the type is bare.
pub open spec fn generic_decode<T: Type>(bytes: Seq<u8>) -> Decoded<T::Model> {
    if T::is_bare() {
        T::decode(bytes)
    } else if bytes.len() < 4 {
        Err(Error::ShortRead)
    } else {
        after(
            4,
            T::decode_boxed(ConstructorId(parsing::le_value(bytes.take(4)) as u32), bytes.skip(4)),
        )
    }
}

/// Reading a value back as part of a larger value gives the value, whatever
/// follows it.
pub proof fn lemma_generic_round_trip<T: Type>(m: T::Model, rest: Seq<u8>)
    requires
        T::valid(m),
        T::receivable(),
    ensures
        generic_decode::<T>(generic_encode::<T>(m) + rest) == Ok::<(T::Model, int), Error>(
            (m, generic_encode::<T>(m).len() as int),
        ),
{
    if T::is_bare() {
        T::lemma_round_trip(m, rest);
    } else {
        T::lemma_id_of(m);
        let id = T::id_of(m)->0;
        let head = parsing::le_bytes(id.0 as nat, 4);
        let bytes = generic_encode::<T>(m) + rest;
        parsing::lemma_le_bytes_len(id.0 as nat, 4);
        parsing::lemma_le_value_of_bytes(id.0 as nat, 4);
        parsing::lemma_pow256_values();
        assert(bytes.take(4) =~= head);
        assert(bytes.skip(4) =~= T::encode(m) + rest);
        T::lemma_round_trip(m, rest);
    }
}

} // verus!
