//! The wire format of vectors: a count and the items, boxed or bare.

use crate::tl::generic_decode;
use crate::tl::generic_encode;
use crate::tl::lemma_generic_round_trip;
use crate::tl::parsing::le_bytes;
use crate::tl::parsing::le_value;
use crate::tl::parsing::lemma_le_bytes_len;
use crate::tl::parsing::lemma_le_value_of_bytes;
use crate::tl::parsing::lemma_pow256_values;
use crate::tl::parsing::ConstructorId;
use crate::tl::parsing::Reader;
use crate::tl::parsing::Writer;
use crate::tl::Decoded;
use crate::tl::Error;
use crate::tl::Type;
use vstd::prelude::*;

verus! {

/// A vector that goes on the wire behind the vector constructor id, its
/// items written as parts of a larger value.
#[derive(Debug)]
pub struct Vector<T: Type> {
    pub elements: Vec<T>,
}

/// A vector that goes on the wire without a constructor id, its items bare.
#[derive(Debug)]
pub struct BareVector<T: Type> {
    pub elements: Vec<T>,
}

/// A borrowed run of items that is written as a `Vector` is, and never read.
pub struct SendSlice<'a, T: Type> {
    pub elements: &'a [T],
}

/// The constructor id of a boxed vector.
pub const VECTOR_ID: u32 = 0x1cb5_c415;

/// The constructor id of a boxed vector.
pub open spec fn vector_id() -> ConstructorId {
    ConstructorId(VECTOR_ID)
}

/// The mathematical values of a run of items.
pub open spec fn models<T: Type>(items: Seq<T>) -> Seq<T::Model> {
    Seq::new(items.len(), |i: int| items[i].model())
}

/// Whether every item can be written.
pub open spec fn all_valid<T: Type>(ms: Seq<T::Model>) -> bool {
    forall|i: int| 0 <= i < ms.len() ==> T::valid(#[trigger] ms[i])
}

/// Whether a vector of these items can be written: the count fits in 32
/// bits and every item can be written.
pub open spec fn valid_vector<T: Type>(ms: Seq<T::Model>) -> bool {
    ms.len() <= u32::MAX && all_valid::<T>(ms)
}

/// One item on the wire.
pub open spec fn encode_item<T: Type>(m: T::Model, generic: bool) -> Seq<u8> {
    if generic {
        generic_encode::<T>(m)
    } else {
        T::encode(m)
    }
}

/// The item at the start of `bytes`.
pub open spec fn decode_item<T: Type>(bytes: Seq<u8>, generic: bool) -> Decoded<T::Model> {
    if generic {
        generic_decode::<T>(bytes)
    } else {
        T::decode(bytes)
    }
}

/// The items on the wire, one after the other.
pub open spec fn encode_items<T: Type>(ms: Seq<T::Model>, generic: bool) -> Seq<u8>
    decreases ms.len(),
{
    if ms.len() == 0 {
        Seq::empty()
    } else {
        encode_item::<T>(ms[0], generic) + encode_items::<T>(ms.drop_first(), generic)
    }
}

/// The `count` items at the start of `bytes`, behind the items `read` that
/// took `consumed` bytes.
pub open spec fn decode_items<T: Type>(
    bytes: Seq<u8>,
    count: nat,
    generic: bool,
    read: Seq<T::Model>,
    consumed: int,
) -> Decoded<Seq<T::Model>>
    decreases count,
{
    if count == 0 {
        Ok((read, consumed))
    } else {
        match decode_item::<T>(bytes, generic) {
            Ok((m, n)) => decode_items::<T>(
                bytes.skip(n),
                (count - 1) as nat,
                generic,
                read.push(m),
                consumed + n,
            ),
            Err(e) => Err(e),
        }
    }
}

/// A vector on the wire, without its constructor id: the count in four
/// little-endian bytes, then the items.
pub open spec fn encode_vector<T: Type>(ms: Seq<T::Model>, generic: bool) -> Seq<u8> {
    le_bytes(ms.len(), 4) + encode_items::<T>(ms, generic)
}

/// The vector at the start of `bytes`, without its constructor id.
pub open spec fn decode_vector<T: Type>(bytes: Seq<u8>, generic: bool) -> Decoded<Seq<T::Model>> {
    if bytes.len() < 4 {
        Err(Error::ShortRead)
    } else {
        decode_items::<T>(bytes.skip(4), le_value(bytes.take(4)), generic, Seq::empty(), 4)
    }
}

/// The vector at the start of `bytes`, which follow the constructor id `id`.
pub open spec fn decode_boxed_vector<T: Type>(id: ConstructorId, bytes: Seq<u8>) -> Decoded<
    Seq<T::Model>,
> {
    if id != vector_id() {
        Err(Error::InvalidConstructorId)
    } else {
        decode_vector::<T>(bytes, true)
    }
}

/// An item that is written and read back is unchanged, whatever follows it.
pub proof fn lemma_item_round_trip<T: Type>(m: T::Model, generic: bool, rest: Seq<u8>)
    requires
        T::valid(m),
        T::receivable(),
    ensures
        decode_item::<T>(encode_item::<T>(m, generic) + rest, generic) == Ok::<
            (T::Model, int),
            Error,
        >((m, encode_item::<T>(m, generic).len() as int)),
{
    if generic {
        lemma_generic_round_trip::<T>(m, rest);
    } else {
        T::lemma_round_trip(m, rest);
    }
}

/// Writing one more item appends its bytes.
pub proof fn lemma_encode_items_push<T: Type>(ms: Seq<T::Model>, m: T::Model, generic: bool)
    ensures
        encode_items::<T>(ms.push(m), generic) == encode_items::<T>(ms, generic) + encode_item::<T>(
            m,
            generic,
        ),
    decreases ms.len(),
{
    let all = ms.push(m);
    if ms.len() == 0 {
        assert(all.drop_first() =~= Seq::<T::Model>::empty());
        assert(encode_items::<T>(all.drop_first(), generic) =~= Seq::<u8>::empty());
        assert(encode_items::<T>(all, generic) =~= encode_item::<T>(m, generic));
        assert(encode_items::<T>(ms, generic) + encode_item::<T>(m, generic) =~= encode_item::<T>(
            m,
            generic,
        ));
    } else {
        assert(all.drop_first() =~= ms.drop_first().push(m));
        lemma_encode_items_push::<T>(ms.drop_first(), m, generic);
        assert(all[0] == ms[0]);
        assert(encode_items::<T>(all, generic) =~= encode_items::<T>(ms, generic) + encode_item::<
            T,
        >(m, generic));
    }
}

/// Items that are written and read back are unchanged, whatever follows them.
pub proof fn lemma_items_round_trip<T: Type>(
    ms: Seq<T::Model>,
    generic: bool,
    rest: Seq<u8>,
    read: Seq<T::Model>,
    consumed: int,
)
    requires
        all_valid::<T>(ms),
        T::receivable(),
    ensures
        decode_items::<T>(encode_items::<T>(ms, generic) + rest, ms.len(), generic, read, consumed)
            == Ok::<(Seq<T::Model>, int), Error>(
            (read + ms, consumed + encode_items::<T>(ms, generic).len()),
        ),
    decreases ms.len(),
{
    if ms.len() == 0 {
        assert(read + ms =~= read);
    } else {
        let head = encode_item::<T>(ms[0], generic);
        let tail = encode_items::<T>(ms.drop_first(), generic);
        let bytes = encode_items::<T>(ms, generic) + rest;
        assert(bytes =~= head + (tail + rest));
        lemma_item_round_trip::<T>(ms[0], generic, tail + rest);
        assert(bytes.skip(head.len() as int) =~= tail + rest);
        assert(all_valid::<T>(ms.drop_first())) by {
            assert forall|i: int| 0 <= i < ms.drop_first().len() implies T::valid(
                #[trigger] ms.drop_first()[i],
            ) by {
                assert(ms.drop_first()[i] == ms[i + 1]);
            }
        }
        lemma_items_round_trip::<T>(
            ms.drop_first(),
            generic,
            rest,
            read.push(ms[0]),
            consumed + head.len(),
        );
        assert(read.push(ms[0]) + ms.drop_first() =~= read + ms);
    }
}

/// A vector that is written and read back is unchanged, whatever follows it.
pub proof fn lemma_vector_round_trip<T: Type>(ms: Seq<T::Model>, generic: bool, rest: Seq<u8>)
    requires
        valid_vector::<T>(ms),
        T::receivable(),
    ensures
        decode_vector::<T>(encode_vector::<T>(ms, generic) + rest, generic) == Ok::<
            (Seq<T::Model>, int),
            Error,
        >((ms, encode_vector::<T>(ms, generic).len() as int)),
{
    let count = le_bytes(ms.len(), 4);
    let items = encode_items::<T>(ms, generic);
    let bytes = encode_vector::<T>(ms, generic) + rest;
    lemma_le_bytes_len(ms.len(), 4);
    lemma_le_value_of_bytes(ms.len(), 4);
    lemma_pow256_values();
    assert(bytes.take(4) =~= count);
    assert(bytes.skip(4) =~= items + rest);
    lemma_items_round_trip::<T>(ms, generic, rest, Seq::empty(), 4);
    assert(Seq::<T::Model>::empty() + ms =~= ms);
}

/// Writes the count and the items.
pub fn write_items<T: Type>(items: &[T], writer: &mut Writer, generic: bool) -> (r: Result<
    (),
    Error,
>)
    ensures
        valid_vector::<T>(models(items@)) ==> r is Ok && final(writer)@ == old(writer)@
            + encode_vector::<T>(models(items@), generic),
        !valid_vector::<T>(models(items@)) ==> r == Err::<(), Error>(Error::OversizeLength),
{
    let ghost ms = models(items@);
    if items.len() > 0xffff_ffff {
        return Err(Error::OversizeLength);
    }
    writer.write_u32(items.len() as u32);
    let ghost counted = writer@;
    let mut i: usize = 0;
    assert(ms.take(0) =~= Seq::<T::Model>::empty());
    while i < items.len()
        invariant
            i <= items.len(),
            ms == models(items@),
            all_valid::<T>(ms.take(i as int)),
            writer@ == counted + encode_items::<T>(ms.take(i as int), generic),
        decreases items.len() - i,
    {
        let item = &items[i];
        assert(item.model() == ms[i as int]);
        let written = if generic {
            writer.write_generic(item)
        } else {
            writer.write_bare(item)
        };
        match written {
            Ok(()) => {},
            Err(e) => {
                return Err(e);
            },
        }
        proof {
            lemma_encode_items_push::<T>(ms.take(i as int), ms[i as int], generic);
            assert(ms.take(i + 1) =~= ms.take(i as int).push(ms[i as int]));
            assert(writer@ =~= counted + encode_items::<T>(ms.take(i + 1), generic));
        }
        i += 1;
    }
    assert(ms.take(items.len() as int) =~= ms);
    assert(writer@ =~= old(writer)@ + encode_vector::<T>(ms, generic));
    Ok(())
}

/// Reads the count and the items.
pub fn read_items<T: Type>(reader: &mut Reader, generic: bool) -> (r: Result<Vec<T>, Error>)
    ensures
        match decode_vector::<T>(old(reader)@.remaining(), generic) {
            Ok((ms, n)) => r is Ok && models(r->Ok_0@) == ms && 0 <= n && final(reader)@ == old(
                reader,
            )@.advanced(n),
            Err(e) => r is Err && r->Err_0 == e && final(reader)@.data == old(reader)@.data,
        },
{
    let ghost input = reader@.remaining();
    let start = reader.position();
    let count = match reader.read_u32() {
        Ok(c) => c,
        Err(e) => {
            return Err(e);
        },
    };
    let mut elements: Vec<T> = Vec::new();
    let mut i: u32 = 0;
    proof {
        crate::tl::parsing::lemma_le_value_bound(input.take(4));
        lemma_pow256_values();
    }
    assert(reader@.remaining() =~= input.skip(4));
    assert(models(elements@) =~= Seq::<T::Model>::empty());
    while i < count
        invariant
            i <= count,
            reader@.data == old(reader)@.data,
            start == old(reader)@.pos,
            input == old(reader)@.remaining(),
            input.len() >= 4,
            count == le_value(input.take(4)),
            start + 4 <= reader@.pos,
            decode_vector::<T>(input, generic) == decode_items::<T>(
                reader@.remaining(),
                (count - i) as nat,
                generic,
                models(elements@),
                reader@.pos - start,
            ),
        decreases count - i,
    {
        let here = reader.position();
        let ghost before = reader@;
        let item = if generic {
            reader.read_generic::<T>()
        } else {
            reader.read_bare::<T>()
        };
        match item {
            Ok(value) => {
                let ghost read = models(elements@);
                let there = reader.position();
                elements.push(value);
                proof {
                    let n = reader@.pos - before.pos;
                    assert(reader@.remaining() =~= before.remaining().skip(n));
                    assert(models(elements@) =~= read.push(value.model()));
                }
            },
            Err(e) => {
                return Err(e);
            },
        }
        i += 1;
    }
    Ok(elements)
}

impl<T: Type> Vector<T> {
    /// An empty vector.
    pub fn new() -> (vector: Vector<T>)
        ensures
            vector.elements@ == Seq::<T>::empty(),
    {
        Vector { elements: Vec::new() }
    }

    /// The vector of the given items.
    pub fn from_elements(vec: Vec<T>) -> (vector: Vector<T>)
        ensures
            vector.elements == vec,
    {
        Vector { elements: vec }
    }
}

impl<T: Type> Type for Vector<T> {
    type Model = Seq<T::Model>;

    open spec fn model(&self) -> Seq<T::Model> {
        models(self.elements@)
    }

    open spec fn is_bare() -> bool {
        false
    }

    open spec fn receivable() -> bool {
        T::receivable()
    }

    open spec fn valid(m: Seq<T::Model>) -> bool {
        valid_vector::<T>(m)
    }

    open spec fn id_of(m: Seq<T::Model>) -> Option<ConstructorId> {
        Some(vector_id())
    }

    open spec fn encode(m: Seq<T::Model>) -> Seq<u8> {
        encode_vector::<T>(m, true)
    }

    open spec fn decode(bytes: Seq<u8>) -> Decoded<Seq<T::Model>> {
        decode_vector::<T>(bytes, true)
    }

    open spec fn decode_boxed(id: ConstructorId, bytes: Seq<u8>) -> Decoded<Seq<T::Model>> {
        decode_boxed_vector::<T>(id, bytes)
    }

    proof fn lemma_id_of(m: Seq<T::Model>) {
    }

    proof fn lemma_round_trip(m: Seq<T::Model>, rest: Seq<u8>) {
        if T::receivable() {
            lemma_vector_round_trip::<T>(m, true, rest);
        }
    }


    fn bare_type() -> (bare: bool) {
        false
    }

    fn type_id(&self) -> (id: Option<ConstructorId>) {
        Some(ConstructorId(VECTOR_ID))
    }

    fn serialize(&self, writer: &mut Writer) -> (r: Result<(), Error>) {
        SendSlice::from_elements(self.elements.as_slice()).serialize(writer)
    }

    fn deserialize(reader: &mut Reader) -> (r: Result<Self, Error>) {
        match read_items::<T>(reader, true) {
            Ok(elements) => Ok(Vector { elements }),
            Err(e) => Err(e),
        }
    }

    fn deserialize_boxed(id: ConstructorId, reader: &mut Reader) -> (r: Result<Self, Error>) {
        if id.0 != VECTOR_ID {
            return Err(Error::InvalidConstructorId);
        }
        Vector::deserialize(reader)
    }
}

impl<T: Type> BareVector<T> {
    /// An empty vector.
    pub fn new() -> (vector: BareVector<T>)
        ensures
            vector.elements@ == Seq::<T>::empty(),
    {
        BareVector { elements: Vec::new() }
    }

    /// The vector of the given items.
    pub fn from_elements(vec: Vec<T>) -> (vector: BareVector<T>)
        ensures
            vector.elements == vec,
    {
        BareVector { elements: vec }
    }
}

impl<T: Type> Type for BareVector<T> {
    type Model = Seq<T::Model>;

    open spec fn model(&self) -> Seq<T::Model> {
        models(self.elements@)
    }

    open spec fn is_bare() -> bool {
        true
    }

    open spec fn receivable() -> bool {
        T::receivable()
    }

    open spec fn valid(m: Seq<T::Model>) -> bool {
        valid_vector::<T>(m)
    }

    open spec fn id_of(m: Seq<T::Model>) -> Option<ConstructorId> {
        None
    }

    open spec fn encode(m: Seq<T::Model>) -> Seq<u8> {
        encode_vector::<T>(m, false)
    }

    open spec fn decode(bytes: Seq<u8>) -> Decoded<Seq<T::Model>> {
        decode_vector::<T>(bytes, false)
    }

    open spec fn decode_boxed(id: ConstructorId, bytes: Seq<u8>) -> Decoded<Seq<T::Model>> {
        Err(Error::PrimitiveAsPolymorphic)
    }

    proof fn lemma_id_of(m: Seq<T::Model>) {
    }

    proof fn lemma_round_trip(m: Seq<T::Model>, rest: Seq<u8>) {
        if T::receivable() {
            lemma_vector_round_trip::<T>(m, false, rest);
        }
    }


    fn bare_type() -> (bare: bool) {
        true
    }

    fn type_id(&self) -> (id: Option<ConstructorId>) {
        None
    }

    fn serialize(&self, writer: &mut Writer) -> (r: Result<(), Error>) {
        write_items::<T>(self.elements.as_slice(), writer, false)
    }

    fn deserialize(reader: &mut Reader) -> (r: Result<Self, Error>) {
        match read_items::<T>(reader, false) {
            Ok(elements) => Ok(BareVector { elements }),
            Err(e) => Err(e),
        }
    }

    fn deserialize_boxed(id: ConstructorId, reader: &mut Reader) -> (r: Result<Self, Error>) {
        Err(Error::PrimitiveAsPolymorphic)
    }
}

impl<'a, T: Type> SendSlice<'a, T> {
    /// The run of the given items.
    pub fn from_elements(elements: &'a [T]) -> (slice: SendSlice<'a, T>)
        ensures
            slice.elements == elements,
    {
        SendSlice { elements }
    }
}

impl<'a, T: Type> Type for SendSlice<'a, T> {
    type Model = Seq<T::Model>;

    open spec fn model(&self) -> Seq<T::Model> {
        models(self.elements@)
    }

    open spec fn is_bare() -> bool {
        false
    }

    open spec fn receivable() -> bool {
        false
    }

    open spec fn valid(m: Seq<T::Model>) -> bool {
        valid_vector::<T>(m)
    }

    open spec fn id_of(m: Seq<T::Model>) -> Option<ConstructorId> {
        Some(vector_id())
    }

    open spec fn encode(m: Seq<T::Model>) -> Seq<u8> {
        encode_vector::<T>(m, true)
    }

    open spec fn decode(bytes: Seq<u8>) -> Decoded<Seq<T::Model>> {
        Err(Error::ReceivedSendType)
    }

    open spec fn decode_boxed(id: ConstructorId, bytes: Seq<u8>) -> Decoded<Seq<T::Model>> {
        Err(Error::ReceivedSendType)
    }

    proof fn lemma_id_of(m: Seq<T::Model>) {
    }

    proof fn lemma_round_trip(m: Seq<T::Model>, rest: Seq<u8>) {
    }


    fn bare_type() -> (bare: bool) {
        false
    }

    fn type_id(&self) -> (id: Option<ConstructorId>) {
        Some(ConstructorId(VECTOR_ID))
    }

    fn serialize(&self, writer: &mut Writer) -> (r: Result<(), Error>) {
        write_items::<T>(self.elements, writer, true)
    }

    fn deserialize(reader: &mut Reader) -> (r: Result<Self, Error>) {
        Err(Error::ReceivedSendType)
    }

    fn deserialize_boxed(id: ConstructorId, reader: &mut Reader) -> (r: Result<Self, Error>) {
        Err(Error::ReceivedSendType)
    }
}

} // verus!
