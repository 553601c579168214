use mtproto::tl::parsing::{ConstructorId, Reader, Writer};
use mtproto::tl::primitive::Int256;
use mtproto::tl::vector::{BareVector, SendSlice, Vector, VECTOR_ID};
use mtproto::tl::{Error, Type};

fn bytes_of<T: Type>(value: &T) -> Vec<u8> {
    let mut writer = Writer::new();
    value.serialize(&mut writer).unwrap();
    writer.into_bytes()
}

#[test]
fn u32_is_little_endian() {
    assert_eq!(bytes_of(&0x1234_5678u32), vec![0x78, 0x56, 0x34, 0x12]);
    let mut reader = Reader::new(&[0x78, 0x56, 0x34, 0x12, 0xff]);
    assert_eq!(u32::deserialize(&mut reader), Ok(0x1234_5678));
    assert_eq!(reader.position(), 4);
    assert_eq!(reader.remaining_len(), 1);
}

#[test]
fn i32_round_trip() {
    for &v in &[0i32, 1, -1, i32::MIN, i32::MAX, -16_777_216] {
        let bytes = bytes_of(&v);
        assert_eq!(bytes.len(), 4);
        let mut reader = Reader::new(&bytes);
        assert_eq!(i32::deserialize(&mut reader), Ok(v));
    }
    assert_eq!(bytes_of(&-2i32), vec![0xfe, 0xff, 0xff, 0xff]);
}

#[test]
fn i64_round_trip() {
    for &v in &[0i64, 1, -1, i64::MIN, i64::MAX, 0x0102_0304_0506_0708] {
        let bytes = bytes_of(&v);
        assert_eq!(bytes.len(), 8);
        let mut reader = Reader::new(&bytes);
        assert_eq!(i64::deserialize(&mut reader), Ok(v));
    }
    assert_eq!(bytes_of(&0x0102_0304_0506_0708i64), vec![8, 7, 6, 5, 4, 3, 2, 1]);
}

#[test]
fn u64_and_u128_round_trip() {
    let v = 0xfedc_ba98_7654_3210u64;
    assert_eq!(bytes_of(&v), vec![0x10, 0x32, 0x54, 0x76, 0x98, 0xba, 0xdc, 0xfe]);
    let bytes = bytes_of(&v);
    assert_eq!(u64::deserialize(&mut Reader::new(&bytes)), Ok(v));
    let w = 0x0123_4567_89ab_cdef_0123_4567_89ab_cdefu128;
    let bytes = bytes_of(&w);
    assert_eq!(bytes.len(), 16);
    assert_eq!(bytes[0], 0xef);
    assert_eq!(bytes[15], 0x01);
    assert_eq!(u128::deserialize(&mut Reader::new(&bytes)), Ok(w));
}

#[test]
fn short_input_is_a_short_read() {
    assert_eq!(u32::deserialize(&mut Reader::new(&[1, 2, 3])), Err(Error::ShortRead));
    assert_eq!(i64::deserialize(&mut Reader::new(&[1, 2, 3, 4, 5, 6, 7])), Err(Error::ShortRead));
    assert_eq!(u128::deserialize(&mut Reader::new(&[0; 15])), Err(Error::ShortRead));
    assert_eq!(Vec::<u8>::deserialize(&mut Reader::new(&[])), Err(Error::ShortRead));
    assert_eq!(Vec::<u8>::deserialize(&mut Reader::new(&[3, 1, 2])), Err(Error::ShortRead));
    assert_eq!(Vec::<u8>::deserialize(&mut Reader::new(&[254, 0, 1])), Err(Error::ShortRead));
}

#[test]
fn primitives_are_not_boxed() {
    assert!(u32::bare_type());
    assert_eq!(7u32.type_id(), None);
    assert_eq!(
        u32::deserialize_boxed(ConstructorId(1), &mut Reader::new(&[0; 4])),
        Err(Error::PrimitiveAsPolymorphic)
    );
    assert_eq!(
        Vec::<u8>::deserialize_boxed(ConstructorId(1), &mut Reader::new(&[0; 4])),
        Err(Error::PrimitiveAsPolymorphic)
    );
}

#[test]
fn short_byte_string() {
    assert_eq!(bytes_of(&vec![1u8, 2, 3]), vec![3, 1, 2, 3]);
    assert_eq!(bytes_of(&vec![1u8, 2, 3, 4]), vec![4, 1, 2, 3, 4, 0, 0, 0]);
    assert_eq!(bytes_of(&Vec::<u8>::new()), vec![0, 0, 0, 0]);
    let mut reader = Reader::new(&[4, 1, 2, 3, 4, 9, 9, 9, 7]);
    assert_eq!(Vec::<u8>::deserialize(&mut reader), Ok(vec![1, 2, 3, 4]));
    assert_eq!(reader.position(), 8);
}

#[test]
fn byte_string_of_253_and_254_bytes() {
    let short = vec![0xabu8; 253];
    let wire = bytes_of(&short);
    assert_eq!(wire.len(), 256);
    assert_eq!(wire[0], 253);
    assert_eq!(&wire[254..], &[0, 0]);
    assert_eq!(Vec::<u8>::deserialize(&mut Reader::new(&wire)), Ok(short));

    let long = vec![0xcdu8; 254];
    let wire = bytes_of(&long);
    assert_eq!(wire.len(), 260);
    assert_eq!(&wire[..4], &[254, 254, 0, 0]);
    assert_eq!(&wire[258..], &[0, 0]);
    assert_eq!(Vec::<u8>::deserialize(&mut Reader::new(&wire)), Ok(long));
}

#[test]
fn long_byte_string_round_trip() {
    let long: Vec<u8> = (0..70_000u32).map(|i| (i % 251) as u8).collect();
    let wire = bytes_of(&long);
    assert_eq!(&wire[..4], &[254, 0x70, 0x11, 0x01]);
    assert_eq!(wire.len() % 4, 0);
    assert_eq!(Vec::<u8>::deserialize(&mut Reader::new(&wire)), Ok(long));
}

#[test]
fn oversize_byte_string_is_refused() {
    let huge = vec![0u8; 0x100_0000];
    let mut writer = Writer::new();
    assert_eq!(huge.serialize(&mut writer), Err(Error::OversizeLength));
    assert_eq!(Vec::<u8>::deserialize(&mut Reader::new(&[255, 0, 0, 0])), Err(Error::OversizeLength));
}

#[test]
fn bare_vector_of_u32() {
    let vector = BareVector::from_elements(vec![1u32, 2, 3]);
    let wire = bytes_of(&vector);
    assert_eq!(wire, vec![3, 0, 0, 0, 1, 0, 0, 0, 2, 0, 0, 0, 3, 0, 0, 0]);
    let back = BareVector::<u32>::deserialize(&mut Reader::new(&wire)).unwrap();
    assert_eq!(back.elements, vec![1, 2, 3]);
    assert!(BareVector::<u32>::bare_type());
    assert_eq!(vector.type_id(), None);
    assert!(matches!(
        BareVector::<u32>::deserialize_boxed(ConstructorId(VECTOR_ID), &mut Reader::new(&wire)),
        Err(Error::PrimitiveAsPolymorphic)
    ));
}

#[test]
fn boxed_vector_carries_its_constructor_id() {
    let vector = Vector::from_elements(vec![10i64, -1]);
    assert!(!Vector::<i64>::bare_type());
    assert_eq!(vector.type_id(), Some(ConstructorId(0x1cb5c415)));
    let mut writer = Writer::new();
    writer.write_generic(&vector).unwrap();
    let wire = writer.into_bytes();
    assert_eq!(&wire[..8], &[0x15, 0xc4, 0xb5, 0x1c, 2, 0, 0, 0]);
    assert_eq!(wire.len(), 8 + 16);
    let mut reader = Reader::new(&wire);
    let back: Vector<i64> = reader.read_generic().unwrap();
    assert_eq!(back.elements, vec![10, -1]);
    assert_eq!(reader.remaining_len(), 0);
}

#[test]
fn vector_of_vectors_boxes_its_items() {
    let inner_a = Vector::from_elements(vec![1u32]);
    let inner_b = Vector::from_elements(Vec::<u32>::new());
    let outer = Vector::from_elements(vec![inner_a, inner_b]);
    let wire = bytes_of(&outer);
    assert_eq!(
        wire,
        vec![
            2, 0, 0, 0, 0x15, 0xc4, 0xb5, 0x1c, 1, 0, 0, 0, 1, 0, 0, 0, 0x15, 0xc4, 0xb5, 0x1c, 0,
            0, 0, 0
        ]
    );
    let back = Vector::<Vector<u32>>::deserialize(&mut Reader::new(&wire)).unwrap();
    assert_eq!(back.elements.len(), 2);
    assert_eq!(back.elements[0].elements, vec![1]);
    assert!(back.elements[1].elements.is_empty());
}

#[test]
fn vector_with_wrong_constructor_id() {
    let wire = [0u8; 4];
    assert!(matches!(
        Vector::<u32>::deserialize_boxed(ConstructorId(0x1cb5c416), &mut Reader::new(&wire)),
        Err(Error::InvalidConstructorId)
    ));
    let mut reader = Reader::new(&[0x16, 0xc4, 0xb5, 0x1c, 0, 0, 0, 0]);
    assert!(matches!(reader.read_generic::<Vector<u32>>(), Err(Error::InvalidConstructorId)));
}

#[test]
fn vector_cut_short() {
    let wire = [2u8, 0, 0, 0, 1, 0, 0, 0];
    assert!(matches!(
        BareVector::<u32>::deserialize(&mut Reader::new(&wire)),
        Err(Error::ShortRead)
    ));
    assert!(matches!(
        Vector::<u32>::deserialize(&mut Reader::new(&[1, 0])),
        Err(Error::ShortRead)
    ));
}

#[test]
fn send_slice_writes_like_a_vector_and_is_never_read() {
    let items = [vec![1u8], vec![2u8, 3]];
    let slice = SendSlice::from_elements(&items);
    let vector = Vector::from_elements(items.to_vec());
    assert_eq!(bytes_of(&slice), bytes_of(&vector));
    assert_eq!(bytes_of(&slice), vec![2, 0, 0, 0, 1, 1, 0, 0, 2, 2, 3, 0]);
    assert_eq!(slice.type_id(), Some(ConstructorId(VECTOR_ID)));
    assert!(!SendSlice::<u32>::bare_type());
    assert!(matches!(
        SendSlice::<u32>::deserialize(&mut Reader::new(&[0; 4])),
        Err(Error::ReceivedSendType)
    ));
    assert!(matches!(
        SendSlice::<u32>::deserialize_boxed(ConstructorId(VECTOR_ID), &mut Reader::new(&[0; 4])),
        Err(Error::ReceivedSendType)
    ));
}

#[test]
fn empty_vectors() {
    let vector: Vector<u32> = Vector::new();
    assert!(vector.elements.is_empty());
    assert_eq!(bytes_of(&vector), vec![0, 0, 0, 0]);
    let bare: BareVector<u64> = BareVector::new();
    assert!(bare.elements.is_empty());
    assert_eq!(bytes_of(&bare), vec![0, 0, 0, 0]);
}

#[test]
fn vector_with_oversize_item_is_refused() {
    let vector = Vector::from_elements(vec![vec![0u8; 4], vec![0u8; 0x100_0000]]);
    let mut writer = Writer::new();
    assert_eq!(vector.serialize(&mut writer), Err(Error::OversizeLength));
}

#[test]
fn reader_reads_raw_bytes() {
    let data = [1u8, 2, 3, 4, 5];
    let mut reader = Reader::new(&data);
    assert_eq!(reader.read_u8(), Ok(1));
    assert_eq!(reader.read_bytes(3), Ok(vec![2, 3, 4]));
    assert_eq!(reader.read_bytes(2), Err(Error::ShortRead));
    assert_eq!(reader.position(), 4);
    assert_eq!(reader.read_bare::<u32>(), Err(Error::ShortRead));
}

#[test]
fn writer_appends() {
    let mut writer = Writer::new();
    writer.write_u8(7);
    writer.write_u32(1);
    writer.write_u64(2);
    writer.write_bytes(&[9, 9]);
    writer.write_bare(&-1i32).unwrap();
    assert_eq!(writer.len(), 19);
    assert_eq!(
        writer.into_bytes(),
        vec![7, 1, 0, 0, 0, 2, 0, 0, 0, 0, 0, 0, 0, 9, 9, 0xff, 0xff, 0xff, 0xff]
    );
}

#[test]
fn int256_is_thirty_two_raw_bytes() {
    let mut bytes = [0u8; 32];
    for (i, byte) in bytes.iter_mut().enumerate() {
        *byte = i as u8;
    }
    let value = Int256 { bytes };
    let wire = bytes_of(&value);
    assert_eq!(wire, bytes.to_vec());
    let mut longer = wire.clone();
    longer.push(0xff);
    let mut reader = Reader::new(&longer);
    let back = Int256::deserialize(&mut reader).unwrap();
    assert_eq!(back.bytes, bytes);
    assert_eq!(reader.position(), 32);
    assert!(matches!(Int256::deserialize(&mut Reader::new(&wire[..31])), Err(Error::ShortRead)));
    assert!(Int256::bare_type());
}
