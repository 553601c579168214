//! Little-endian byte codec, and the cursor types that the wire format is
//! read from and written to.

use crate::tl::Error;
use crate::tl::Type;
use vstd::prelude::*;

verus! {

/// The identifier that a boxed value carries in front of its fields.
#[derive(Clone, Copy, Debug, PartialEq, Eq, Structural)]
pub struct ConstructorId(pub u32);

/// The `n` low-order bytes of `x`, least significant first.
pub open spec fn le_bytes(x: nat, n: nat) -> Seq<u8>
    decreases n,
{
    if n == 0 {
        Seq::empty()
    } else {
        seq![(x % 256) as u8] + le_bytes(x / 256, (n - 1) as nat)
    }
}

/// The number that `s` spells, least significant byte first.
pub open spec fn le_value(s: Seq<u8>) -> nat
    decreases s.len(),
{
    if s.len() == 0 {
        0
    } else {
        s[0] as nat + 256 * le_value(s.drop_first())
    }
}

/// 256 to the power `n`.
pub open spec fn pow256(n: nat) -> nat
    decreases n,
{
    if n == 0 {
        1
    } else {
        256 * pow256((n - 1) as nat)
    }
}

/// Writing a number in `n` bytes gives `n` bytes.
pub proof fn lemma_le_bytes_len(x: nat, n: nat)
    ensures
        le_bytes(x, n).len() == n,
    decreases n,
{
    if n > 0 {
        lemma_le_bytes_len(x / 256, (n - 1) as nat);
    }
}

/// Reading back what was written gives the number, as far as `n` bytes hold it.
pub proof fn lemma_le_value_of_bytes(x: nat, n: nat)
    ensures
        le_value(le_bytes(x, n)) == x % pow256(n),
    decreases n,
{
    if n > 0 {
        let rest = le_bytes(x / 256, (n - 1) as nat);
        let s = le_bytes(x, n);
        lemma_le_value_of_bytes(x / 256, (n - 1) as nat);
        lemma_le_bytes_len(x / 256, (n - 1) as nat);
        assert(s.drop_first() =~= rest);
        let p = pow256((n - 1) as nat);
        lemma_pow256_positive((n - 1) as nat);
        // x % (256 * p) == x % 256 + 256 * ((x / 256) % p)
        vstd::arithmetic::div_mod::lemma_breakdown(x as int, 256, p as int);
        assert(256 * p == pow256(n));
    } else {
        assert(pow256(0) == 1);
    }
}

/// A power of 256 is positive.
pub proof fn lemma_pow256_positive(n: nat)
    ensures
        pow256(n) > 0,
    decreases n,
{
    if n > 0 {
        lemma_pow256_positive((n - 1) as nat);
    }
}

/// The number that `n` bytes spell is below 256 to the power `n`.
pub proof fn lemma_le_value_bound(s: Seq<u8>)
    ensures
        le_value(s) < pow256(s.len()),
    decreases s.len(),
{
    if s.len() > 0 {
        lemma_le_value_bound(s.drop_first());
    }
}

/// Writing the number that `s` spells gives `s` back.
pub proof fn lemma_le_bytes_of_value(s: Seq<u8>)
    ensures
        le_bytes(le_value(s), s.len()) == s,
    decreases s.len(),
{
    if s.len() > 0 {
        lemma_le_bytes_of_value(s.drop_first());
        let v = le_value(s);
        let tail = le_value(s.drop_first());
        assert(v % 256 == s[0] as nat);
        assert(v / 256 == tail);
        assert(le_bytes(v, s.len()) =~= s);
    }
}

/// The powers of 256 at the widths of the wire format.
pub proof fn lemma_pow256_values()
    ensures
        pow256(1) == 0x100,
        pow256(3) == 0x100_0000,
        pow256(4) == 0x1_0000_0000,
        pow256(8) == 0x1_0000_0000_0000_0000,
        pow256(16) == 0x1_0000_0000_0000_0000_0000_0000_0000_0000,
{
    reveal_with_fuel(pow256, 17);
}

/// The four bytes that `byteorder::LittleEndian::write_u32` leaves in a
/// buffer: the number, least significant byte first.
#[verifier::external_body]
pub(crate) fn u32_le(n: u32) -> (bytes: [u8; 4])
    ensures
        bytes@ == le_bytes(n as nat, 4),
{
    let mut bytes = [0u8;4];
    <byteorder::LittleEndian as byteorder::ByteOrder>::write_u32(&mut bytes, n);
    bytes
}

/// The eight bytes that `byteorder::LittleEndian::write_u64` leaves in a
/// buffer: the number, least significant byte first.
#[verifier::external_body]
pub(crate) fn u64_le(n: u64) -> (bytes: [u8; 8])
    ensures
        bytes@ == le_bytes(n as nat, 8),
{
    let mut bytes = [0u8;8];
    <byteorder::LittleEndian as byteorder::ByteOrder>::write_u64(&mut bytes, n);
    bytes
}

/// The sixteen bytes that `byteorder::LittleEndian::write_u128` leaves in a
/// buffer: the number, least significant byte first.
#[verifier::external_body]
pub(crate) fn u128_le(n: u128) -> (bytes: [u8; 16])
    ensures
        bytes@ == le_bytes(n as nat, 16),
{
    let mut bytes = [0u8;16];
    <byteorder::LittleEndian as byteorder::ByteOrder>::write_u128(&mut bytes, n);
    bytes
}

/// What `byteorder::LittleEndian::read_u32` makes of the first four bytes of
/// a buffer: the number they spell, least significant byte first. It panics
/// on a shorter buffer.
#[verifier::external_body]
pub(crate) fn u32_from_le(buf: &[u8]) -> (n: u32)
    requires
        buf@.len() >= 4,
    ensures
        n == le_value(buf@.subrange(0, 4)),
{
    <byteorder::LittleEndian as byteorder::ByteOrder>::read_u32(buf)
}

/// What `byteorder::LittleEndian::read_u64` makes of the first eight bytes
/// of a buffer: the number they spell, least significant byte first. It
/// panics on a shorter buffer.
#[verifier::external_body]
pub(crate) fn u64_from_le(buf: &[u8]) -> (n: u64)
    requires
        buf@.len() >= 8,
    ensures
        n == le_value(buf@.subrange(0, 8)),
{
    <byteorder::LittleEndian as byteorder::ByteOrder>::read_u64(buf)
}

/// What `byteorder::LittleEndian::read_u128` makes of the first sixteen
/// bytes of a buffer: the number they spell, least significant byte first.
/// It panics on a shorter buffer.
#[verifier::external_body]
pub(crate) fn u128_from_le(buf: &[u8]) -> (n: u128)
    requires
        buf@.len() >= 16,
    ensures
        n == le_value(buf@.subrange(0, 16)),
{
    <byteorder::LittleEndian as byteorder::ByteOrder>::read_u128(buf)
}

/// Appends `src` to `dst`.
pub fn append_bytes(dst: &mut Vec<u8>, src: &[u8])
    ensures
        final(dst)@ == old(dst)@ + src@,
{
    let mut i: usize = 0;
    while i < src.len()
        invariant
            i <= src.len(),
            dst@ == old(dst)@ + src@.subrange(0, i as int),
        decreases src.len() - i,
    {
        dst.push(src[i]);
        i += 1;
        assert(dst@ =~= old(dst)@ + src@.subrange(0, i as int));
    }
    assert(src@.subrange(0, src.len() as int) =~= src@);
}

/// A copy of `src[from..to]`.
pub fn copy_range(src: &[u8], from: usize, to: usize) -> (out: Vec<u8>)
    requires
        from <= to <= src@.len(),
    ensures
        out@ == src@.subrange(from as int, to as int),
{
    let mut out: Vec<u8> = Vec::new();
    let mut i: usize = from;
    while i < to
        invariant
            from <= i <= to <= src@.len(),
            out@ == src@.subrange(from as int, i as int),
        decreases to - i,
    {
        out.push(src[i]);
        i += 1;
        assert(out@ =~= src@.subrange(from as int, i as int));
    }
    out
}

/// What a reader is, as mathematical values: the whole input and how much of
/// it has been consumed.
pub ghost struct ReaderView {
    pub data: Seq<u8>,
    pub pos: int,
}

impl ReaderView {
    /// The input that has not been consumed yet.
    pub open spec fn remaining(self) -> Seq<u8> {
        self.data.skip(self.pos)
    }

    /// The reader after `n` more bytes were consumed.
    pub open spec fn advanced(self, n: int) -> ReaderView {
        ReaderView { data: self.data, pos: self.pos + n }
    }
}

/// A cursor over received bytes.
pub struct Reader<'a> {
    buf: &'a [u8],
    pos: usize,
}

impl<'a> View for Reader<'a> {
    type V = ReaderView;

    closed spec fn view(&self) -> ReaderView {
        ReaderView { data: self.buf@, pos: self.pos as int }
    }
}

impl<'a> Reader<'a> {
    #[verifier::type_invariant]
    spec fn in_bounds(&self) -> bool {
        self.pos <= self.buf@.len()
    }

    /// A reader at the start of `buf`.
    pub fn new(buf: &'a [u8]) -> (reader: Reader<'a>)
        ensures
            reader@ == (ReaderView { data: buf@, pos: 0 }),
    {
        Reader { buf, pos: 0 }
    }

    /// How many bytes have been consumed.
    pub fn position(&self) -> (pos: usize)
        ensures
            pos == self@.pos,
            0 <= self@.pos <= self@.data.len(),
    {
        proof {
            use_type_invariant(self);
        }
        self.pos
    }

    /// How many bytes are left.
    pub fn remaining_len(&self) -> (n: usize)
        ensures
            n == self@.remaining().len(),
            n == self@.data.len() - self@.pos,
            0 <= self@.pos <= self@.data.len(),
    {
        proof {
            use_type_invariant(self);
        }
        self.buf.len() - self.pos
    }

    /// Consumes `n` bytes and returns them, or fails with `ShortRead` and
    /// consumes nothing when fewer are left.
    pub fn read_bytes(&mut self, n: usize) -> (r: Result<Vec<u8>, Error>)
        ensures
            n <= old(self)@.remaining().len() ==> r is Ok && r->Ok_0@ == old(
                self,
            )@.remaining().take(n as int) && final(self)@ == old(self)@.advanced(n as int),
            n > old(self)@.remaining().len() ==> r == Err::<Vec<u8>, Error>(Error::ShortRead)
                && final(self)@ == old(self)@,
    {
        proof {
            use_type_invariant(&*self);
        }
        if n > self.buf.len() - self.pos {
            return Err(Error::ShortRead);
        }
        let out = copy_range(self.buf, self.pos, self.pos + n);
        assert(out@ =~= self@.remaining().take(n as int));
        self.pos = self.pos + n;
        Ok(out)
    }

    /// Reads a value as part of a larger one: behind its constructor id
    /// unless its type is bare.
    pub fn read_generic<T: Type>(&mut self) -> (r: Result<T, Error>)
        ensures
            match crate::tl::generic_decode::<T>(old(self)@.remaining()) {
                Ok((m, n)) => r is Ok && r->Ok_0.model() == m && 0 <= n && final(self)@ == old(
                    self,
                )@.advanced(n),
                Err(e) => r is Err && r->Err_0 == e && final(self)@.data == old(self)@.data,
            },
    {
        if T::bare_type() {
            T::deserialize(self)
        } else {
            let available = self.remaining_len();
            match self.read_u32() {
                Ok(id) => {
                    assert(self@.remaining() =~= old(self)@.remaining().skip(4));
                    T::deserialize_boxed(ConstructorId(id), self)
                },
                Err(e) => Err(e),
            }
        }
    }

    /// Reads a value that was written without a constructor id.
    pub fn read_bare<T: Type>(&mut self) -> (r: Result<T, Error>)
        ensures
            match T::decode(old(self)@.remaining()) {
                Ok((m, n)) => r is Ok && r->Ok_0.model() == m && 0 <= n && final(self)@ == old(
                    self,
                )@.advanced(n),
                Err(e) => r is Err && r->Err_0 == e && final(self)@.data == old(self)@.data,
            },
    {
        T::deserialize(self)
    }

    /// Consumes one byte.
    pub fn read_u8(&mut self) -> (r: Result<u8, Error>)
        ensures
            old(self)@.remaining().len() >= 1 ==> r == Ok::<u8, Error>(old(self)@.remaining()[0])
                && final(self)@ == old(self)@.advanced(1),
            old(self)@.remaining().len() < 1 ==> r == Err::<u8, Error>(Error::ShortRead)
                && final(self)@ == old(self)@,
    {
        proof {
            use_type_invariant(&*self);
        }
        if self.buf.len() - self.pos < 1 {
            return Err(Error::ShortRead);
        }
        let byte = self.buf[self.pos];
        self.pos = self.pos + 1;
        Ok(byte)
    }

    /// Consumes four bytes as a little-endian number.
    pub fn read_u32(&mut self) -> (r: Result<u32, Error>)
        ensures
            old(self)@.remaining().len() >= 4 ==> r == Ok::<u32, Error>(
                le_value(old(self)@.remaining().take(4)) as u32,
            ) && final(self)@ == old(self)@.advanced(4),
            old(self)@.remaining().len() < 4 ==> r == Err::<u32, Error>(Error::ShortRead)
                && final(self)@ == old(self)@,
    {
        proof {
            use_type_invariant(&*self);
        }
        if self.buf.len() - self.pos < 4 {
            return Err(Error::ShortRead);
        }
        let window = vstd::slice::slice_subrange(self.buf, self.pos, self.pos + 4);
        let n = u32_from_le(window);
        assert(window@.subrange(0, 4) =~= self@.remaining().take(4));
        self.pos = self.pos + 4;
        Ok(n)
    }

    /// Consumes eight bytes as a little-endian number.
    pub fn read_u64(&mut self) -> (r: Result<u64, Error>)
        ensures
            old(self)@.remaining().len() >= 8 ==> r == Ok::<u64, Error>(
                le_value(old(self)@.remaining().take(8)) as u64,
            ) && final(self)@ == old(self)@.advanced(8),
            old(self)@.remaining().len() < 8 ==> r == Err::<u64, Error>(Error::ShortRead)
                && final(self)@ == old(self)@,
    {
        proof {
            use_type_invariant(&*self);
        }
        if self.buf.len() - self.pos < 8 {
            return Err(Error::ShortRead);
        }
        let window = vstd::slice::slice_subrange(self.buf, self.pos, self.pos + 8);
        let n = u64_from_le(window);
        assert(window@.subrange(0, 8) =~= self@.remaining().take(8));
        self.pos = self.pos + 8;
        Ok(n)
    }

    /// Consumes sixteen bytes as a little-endian number.
    pub fn read_u128(&mut self) -> (r: Result<u128, Error>)
        ensures
            old(self)@.remaining().len() >= 16 ==> r == Ok::<u128, Error>(
                le_value(old(self)@.remaining().take(16)) as u128,
            ) && final(self)@ == old(self)@.advanced(16),
            old(self)@.remaining().len() < 16 ==> r == Err::<u128, Error>(Error::ShortRead)
                && final(self)@ == old(self)@,
    {
        proof {
            use_type_invariant(&*self);
        }
        if self.buf.len() - self.pos < 16 {
            return Err(Error::ShortRead);
        }
        let window = vstd::slice::slice_subrange(self.buf, self.pos, self.pos + 16);
        let n = u128_from_le(window);
        assert(window@.subrange(0, 16) =~= self@.remaining().take(16));
        self.pos = self.pos + 16;
        Ok(n)
    }
}

/// A growing buffer of bytes to send.
pub struct Writer {
    buf: Vec<u8>,
}

impl View for Writer {
    type V = Seq<u8>;

    closed spec fn view(&self) -> Seq<u8> {
        self.buf@
    }
}

impl Writer {
    /// An empty writer.
    pub fn new() -> (writer: Writer)
        ensures
            writer@ == Seq::<u8>::empty(),
    {
        Writer { buf: Vec::new() }
    }

    /// The bytes written so far.
    pub fn into_bytes(self) -> (bytes: Vec<u8>)
        ensures
            bytes@ == self@,
    {
        self.buf
    }

    /// How many bytes were written so far.
    pub fn len(&self) -> (n: usize)
        ensures
            n == self@.len(),
    {
        self.buf.len()
    }

    /// Writes a value as part of a larger one: with its constructor id in
    /// front unless its type is bare.
    pub fn write_generic<T: Type>(&mut self, item: &T) -> (r: Result<(), Error>)
        ensures
            T::valid(item.model()) ==> r is Ok && final(self)@ == old(self)@
                + crate::tl::generic_encode::<T>(item.model()),
            !T::valid(item.model()) ==> r == Err::<(), Error>(Error::OversizeLength),
    {
        if T::bare_type() {
            item.serialize(self)
        } else {
            proof {
                T::lemma_id_of(item.model());
            }
            match item.type_id() {
                Some(id) => {
                    self.write_u32(id.0);
                    let ghost with_id = self@;
                    let r = item.serialize(self);
                    proof {
                        if T::valid(item.model()) {
                            assert(self@ =~= old(self)@ + crate::tl::generic_encode::<T>(
                                item.model(),
                            ));
                        }
                    }
                    r
                },
                None => Err(Error::OversizeLength),
            }
        }
    }

    /// Writes a value without a constructor id.
    pub fn write_bare<T: Type>(&mut self, item: &T) -> (r: Result<(), Error>)
        ensures
            T::valid(item.model()) ==> r is Ok && final(self)@ == old(self)@ + T::encode(
                item.model(),
            ),
            !T::valid(item.model()) ==> r == Err::<(), Error>(Error::OversizeLength),
    {
        item.serialize(self)
    }

    /// Appends `bytes`.
    pub fn write_bytes(&mut self, bytes: &[u8])
        ensures
            final(self)@ == old(self)@ + bytes@,
    {
        append_bytes(&mut self.buf, bytes);
    }

    /// Appends one byte.
    pub fn write_u8(&mut self, byte: u8)
        ensures
            final(self)@ == old(self)@ + seq![byte],
    {
        self.buf.push(byte);
        assert(self.buf@ =~= old(self)@ + seq![byte]);
    }

    /// Appends a number as four little-endian bytes.
    pub fn write_u32(&mut self, n: u32)
        ensures
            final(self)@ == old(self)@ + le_bytes(n as nat, 4),
    {
        let bytes = u32_le(n);
        append_bytes(&mut self.buf, bytes.as_slice());
    }

    /// Appends a number as eight little-endian bytes.
    pub fn write_u64(&mut self, n: u64)
        ensures
            final(self)@ == old(self)@ + le_bytes(n as nat, 8),
    {
        let bytes = u64_le(n);
        append_bytes(&mut self.buf, bytes.as_slice());
    }

    /// Appends a number as sixteen little-endian bytes.
    pub fn write_u128(&mut self, n: u128)
        ensures
            final(self)@ == old(self)@ + le_bytes(n as nat, 16),
    {
        let bytes = u128_le(n);
        append_bytes(&mut self.buf, bytes.as_slice());
    }
}

} // verus!
