use bromine::error::{Error, SerializationFault};
use bromine::payload::{
    join_tandem, split_tandem, BytePayload, EventReceivePayload, EventSendPayload, TandemPayload,
};
use bromine::serializer::{frame_serialized, split_serialized, DynamicSerializer, SerdePayload};
use bromine::wire::{u32_from_be, u32_to_be, u64_from_be, u64_to_be};

#[test]
fn byte_payload_keeps_its_bytes() {
    let payload = BytePayload::new(vec![1, 2, 3]);
    assert_eq!(payload.clone().into_inner(), vec![1, 2, 3]);
    assert_eq!(payload.to_payload_bytes().unwrap(), vec![1, 2, 3]);
}

#[test]
fn byte_payload_round_trip() {
    let bytes = BytePayload::new(vec![0, 255, 7]).to_payload_bytes().unwrap();
    let back = BytePayload::from_payload_bytes(&bytes).unwrap();
    assert_eq!(back.into_inner(), vec![0, 255, 7]);
}

#[test]
fn byte_payload_may_be_empty() {
    let back = BytePayload::from_payload_bytes(&[]).unwrap();
    assert_eq!(back.into_inner(), Vec::<u8>::new());
}

#[test]
fn unit_payload_is_empty() {
    assert_eq!(().to_payload_bytes().unwrap(), Vec::<u8>::new());
}

#[test]
fn tandem_payload_layout() {
    let tandem = TandemPayload::new(
        BytePayload::new(b"hello".to_vec()),
        BytePayload::new(b"world".to_vec()),
    );
    let bytes = tandem.to_payload_bytes().unwrap();
    let mut expected = vec![0, 0, 0, 0, 0, 0, 0, 5];
    expected.extend_from_slice(b"hello");
    expected.extend_from_slice(&[0, 0, 0, 0, 0, 0, 0, 5]);
    expected.extend_from_slice(b"world");
    assert_eq!(bytes, expected);
}

#[test]
fn tandem_payload_echoed_reversed() {
    let sent = TandemPayload::new(
        BytePayload::new(b"hello".to_vec()),
        BytePayload::new(b"world".to_vec()),
    )
    .to_payload_bytes()
    .unwrap();
    let received = TandemPayload::<BytePayload, BytePayload>::from_payload_bytes(&sent).unwrap();
    let (first, second) = received.into_inner();
    let first = first.into_inner();
    let second = second.into_inner();
    assert_eq!(first, b"hello".to_vec());
    assert_eq!(second, b"world".to_vec());
    let echo = TandemPayload::new(BytePayload::new(second), BytePayload::new(first))
        .to_payload_bytes()
        .unwrap();
    let back = TandemPayload::<BytePayload, BytePayload>::from_payload_bytes(&echo).unwrap();
    let (a, b) = back.into_inner();
    assert_eq!(a.into_inner(), b"world".to_vec());
    assert_eq!(b.into_inner(), b"hello".to_vec());
}

#[test]
fn tandem_of_tandem_round_trip() {
    let inner = TandemPayload::new(BytePayload::new(vec![1]), BytePayload::new(vec![]));
    let outer = TandemPayload::new(inner, BytePayload::new(vec![9, 9]));
    let bytes = outer.to_payload_bytes().unwrap();
    assert_eq!(bytes.len(), 8 + (8 + 1 + 8) + 8 + 2);
    let back =
        TandemPayload::<TandemPayload<BytePayload, BytePayload>, BytePayload>::from_payload_bytes(
            &bytes,
        )
        .unwrap();
    let (inner, last) = back.into_inner();
    let (a, b) = inner.into_inner();
    assert_eq!(a.into_inner(), vec![1]);
    assert_eq!(b.into_inner(), Vec::<u8>::new());
    assert_eq!(last.into_inner(), vec![9, 9]);
}

#[test]
fn tandem_with_two_empty_halves() {
    let bytes = join_tandem(vec![], vec![]);
    assert_eq!(bytes, vec![0u8; 16]);
    let (a, b) = split_tandem(&bytes).unwrap();
    assert!(a.is_empty());
    assert!(b.is_empty());
}

#[test]
fn tandem_that_ends_early_is_refused() {
    let bytes = join_tandem(b"hello".to_vec(), b"world".to_vec());
    for cut in 0..bytes.len() {
        let r = TandemPayload::<BytePayload, BytePayload>::from_payload_bytes(&bytes[..cut]);
        assert!(matches!(
            r,
            Err(Error::Serialization(SerializationFault::Truncated))
        ));
        assert!(split_tandem(&bytes[..cut]).is_none());
    }
    assert!(split_tandem(&bytes).is_some());
}

#[test]
fn tandem_with_a_huge_length_is_refused() {
    let mut bytes = vec![0xff; 8];
    bytes.extend_from_slice(&[0; 32]);
    assert!(split_tandem(&bytes).is_none());
}

#[test]
fn tandem_ignores_what_follows() {
    let mut bytes = join_tandem(vec![1, 2], vec![3]);
    bytes.extend_from_slice(&[42, 42]);
    let (a, b) = split_tandem(&bytes).unwrap();
    assert_eq!(a, &[1, 2]);
    assert_eq!(b, &[3]);
}

#[test]
fn big_endian_numbers() {
    assert_eq!(u64_to_be(0x0102030405060708), vec![1, 2, 3, 4, 5, 6, 7, 8]);
    assert_eq!(u64_to_be(0), vec![0; 8]);
    assert_eq!(u64_to_be(u64::MAX), vec![255; 8]);
    assert_eq!(u32_to_be(0x01020304), vec![1, 2, 3, 4]);
    assert_eq!(u32_to_be(1024), vec![0, 0, 4, 0]);
}

#[test]
fn big_endian_numbers_are_read_back() {
    let bytes = [9, 1, 2, 3, 4, 5, 6, 7, 8, 9];
    assert_eq!(u64_from_be(&bytes, 1), Some(0x0102030405060708));
    assert_eq!(u64_from_be(&bytes, 2), Some(0x0203040506070809));
    assert_eq!(u64_from_be(&bytes, 3), None);
    assert_eq!(u64_from_be(&bytes, usize::MAX), None);
    assert_eq!(u32_from_be(&bytes, 1), Some(0x01020304));
    assert_eq!(u32_from_be(&bytes, 6), Some(0x06070809));
    assert_eq!(u32_from_be(&bytes, 7), None);
    for v in [0u64, 1, 255, 256, 1 << 40, u64::MAX] {
        assert_eq!(u64_from_be(&u64_to_be(v), 0), Some(v));
    }
    for v in [0u32, 1, 255, 256, 1 << 20, u32::MAX] {
        assert_eq!(u32_from_be(&u32_to_be(v), 0), Some(v));
    }
}

#[test]
fn serializers_by_number() {
    assert_eq!(DynamicSerializer::from_primitive(0), Ok(DynamicSerializer::Messagepack));
    assert_eq!(DynamicSerializer::from_primitive(1), Ok(DynamicSerializer::Bincode));
    assert_eq!(DynamicSerializer::from_primitive(2), Ok(DynamicSerializer::Postcard));
    assert_eq!(DynamicSerializer::from_primitive(3), Ok(DynamicSerializer::Json));
    assert_eq!(
        DynamicSerializer::from_primitive(4),
        Err(Error::Serialization(SerializationFault::UnknownFormat))
    );
    assert_eq!(DynamicSerializer::first_available(), DynamicSerializer::Messagepack);
    for n in 0..4usize {
        assert_eq!(DynamicSerializer::from_primitive(n).unwrap().id() as usize, n);
    }
}

#[test]
fn serialized_data_behind_its_format_id() {
    let blob = frame_serialized(DynamicSerializer::Postcard, vec![7, 8, 9]);
    assert_eq!(blob, vec![2, 7, 8, 9]);
    let (format, data) = split_serialized(&blob).unwrap();
    assert_eq!(format, DynamicSerializer::Postcard);
    assert_eq!(data, &[7, 8, 9]);
}

#[test]
fn serialized_data_that_cannot_be_split() {
    assert_eq!(
        split_serialized(&[]),
        Err(Error::Serialization(SerializationFault::Truncated))
    );
    assert_eq!(
        split_serialized(&[9, 1, 2]),
        Err(Error::Serialization(SerializationFault::UnknownFormat))
    );
    let (format, data) = split_serialized(&[3]).unwrap();
    assert_eq!(format, DynamicSerializer::Json);
    assert!(data.is_empty());
}

#[test]
fn serde_payload_holds_data_and_serializer() {
    let payload = SerdePayload::new(DynamicSerializer::Bincode, String::from("data"));
    assert_eq!(payload.serializer(), DynamicSerializer::Bincode);
    assert_eq!(payload.frame(vec![4, 5]), vec![1, 4, 5]);
    let copy = payload.clone();
    assert_eq!(payload.data(), "data");
    assert_eq!(copy.data(), "data");
}
