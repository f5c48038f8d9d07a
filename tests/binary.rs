use thrift::{
    Error, ProtocolErrorKind, TBinaryInputProtocol, TBinaryOutputProtocol, TBufferChannel,
    TConfiguration, TFieldIdentifier, TListIdentifier, TMapIdentifier, TMessageIdentifier,
    TMessageType, TSetIdentifier, TStructIdentifier, TType, TUuid,
};

fn expect_ok<T>(r: thrift::Result<T>) -> T {
    assert!(r.is_ok());
    r.unwrap()
}

fn test_objects(strict: bool) -> (TBinaryInputProtocol, TBinaryOutputProtocol) {
    let i_prot = TBinaryInputProtocol::new(TBufferChannel::with_capacity(200, 200), strict);
    let o_prot = TBinaryOutputProtocol::new(TBufferChannel::with_capacity(200, 200), strict);
    (i_prot, o_prot)
}

/// A reader with the settings of `i` over what `o` has written.
fn refill(i: TBinaryInputProtocol, o: &TBinaryOutputProtocol) -> TBinaryInputProtocol {
    with_bytes(i, &o.transport().write_bytes())
}

/// A reader with the settings of `i` over `bytes`.
fn with_bytes(i: TBinaryInputProtocol, bytes: &[u8]) -> TBinaryInputProtocol {
    TBinaryInputProtocol::with_config(TBufferChannel::from_bytes(bytes), i.strict(), *i.config())
}

fn assert_no_write<F>(mut write_fn: F, strict: bool)
where
    F: FnMut(&mut TBinaryOutputProtocol) -> thrift::Result<()>,
{
    let (_, mut o_prot) = test_objects(strict);
    assert!(write_fn(&mut o_prot).is_ok());
    assert_eq!(o_prot.transport().write_bytes().len(), 0);
}

#[test]
fn must_write_strict_message_call_begin() {
    let (_, mut o_prot) = test_objects(true);

    let ident = TMessageIdentifier::new("test", TMessageType::Call, 1);
    assert!(o_prot.write_message_begin(&ident).is_ok());
    let expected: [u8; 16] = [
        0x80,
        0x01,
        0x00,
        0x01,
        0x00,
        0x00,
        0x00,
        0x04,
        0x74,
        0x65,
        0x73,
        0x74,
        0x00,
        0x00,
        0x00,
        0x01,
    ];

    assert_eq!(&o_prot.transport().write_bytes()[..], &expected[..]);
}

#[test]
fn must_write_non_strict_message_call_begin() {
    let (_, mut o_prot) = test_objects(false);

    let ident = TMessageIdentifier::new("test", TMessageType::Call, 1);
    assert!(o_prot.write_message_begin(&ident).is_ok());
    let expected: [u8; 13] = [
        0x00,
        0x00,
        0x00,
        0x04,
        0x74,
        0x65,
        0x73,
        0x74,
        0x01,
        0x00,
        0x00,
        0x00,
        0x01,
    ];

    assert_eq!(&o_prot.transport().write_bytes()[..], &expected[..]);
}

#[test]
fn must_write_strict_message_reply_begin() {
    let (_, mut o_prot) = test_objects(true);

    let ident = TMessageIdentifier::new("test", TMessageType::Reply, 10);
    assert!(o_prot.write_message_begin(&ident).is_ok());
    let expected: [u8; 16] = [
        0x80,
        0x01,
        0x00,
        0x02,
        0x00,
        0x00,
        0x00,
        0x04,
        0x74,
        0x65,
        0x73,
        0x74,
        0x00,
        0x00,
        0x00,
        0x0A,
    ];

    assert_eq!(&o_prot.transport().write_bytes()[..], &expected[..]);
}

#[test]
fn must_write_non_strict_message_reply_begin() {
    let (_, mut o_prot) = test_objects(false);

    let ident = TMessageIdentifier::new("test", TMessageType::Reply, 10);
    assert!(o_prot.write_message_begin(&ident).is_ok());
    let expected: [u8; 13] = [
        0x00,
        0x00,
        0x00,
        0x04,
        0x74,
        0x65,
        0x73,
        0x74,
        0x02,
        0x00,
        0x00,
        0x00,
        0x0A,
    ];

    assert_eq!(&o_prot.transport().write_bytes()[..], &expected[..]);
}

#[test]
fn must_round_trip_strict_message_begin() {
    let (mut i_prot, mut o_prot) = test_objects(true);

    let sent_ident = TMessageIdentifier::new("test", TMessageType::Call, 1);
    assert!(o_prot.write_message_begin(&sent_ident).is_ok());

    i_prot = refill(i_prot, &o_prot);

    let received_ident = expect_ok(i_prot.read_message_begin());
    assert_eq!(&received_ident, &sent_ident);
}

#[test]
fn must_round_trip_non_strict_message_begin() {
    let (mut i_prot, mut o_prot) = test_objects(false);

    let sent_ident = TMessageIdentifier::new("test", TMessageType::Call, 1);
    assert!(o_prot.write_message_begin(&sent_ident).is_ok());

    i_prot = refill(i_prot, &o_prot);

    let received_ident = expect_ok(i_prot.read_message_begin());
    assert_eq!(&received_ident, &sent_ident);
}

#[test]
fn binary_must_write_message_end() {
    assert_no_write(|o| o.write_message_end(), true);
}

#[test]
fn must_write_struct_begin() {
    assert_no_write(
        |o| o.write_struct_begin(&TStructIdentifier::new("foo")),
        true,
    );
}

#[test]
fn must_write_struct_end() {
    assert_no_write(|o| o.write_struct_end(), true);
}

#[test]
fn must_write_field_begin() {
    let (_, mut o_prot) = test_objects(true);

    assert!(o_prot
        .write_field_begin(&TFieldIdentifier::new("some_field", TType::String, 22))
        .is_ok());

    let expected: [u8; 3] = [0x0B, 0x00, 0x16];
    assert_eq!(&o_prot.transport().write_bytes()[..], &expected[..]);
}

#[test]
fn must_round_trip_field_begin() {
    let (mut i_prot, mut o_prot) = test_objects(true);

    let sent_field_ident = TFieldIdentifier::new("foo", TType::I64, 20);
    assert!(o_prot.write_field_begin(&sent_field_ident).is_ok());

    i_prot = refill(i_prot, &o_prot);

    let expected_ident = TFieldIdentifier {
        name: None,
        field_type: TType::I64,
        id: Some(20),
    }; // no name
    let received_ident = expect_ok(i_prot.read_field_begin());
    assert_eq!(&received_ident, &expected_ident);
}

#[test]
fn must_write_stop_field() {
    let (_, mut o_prot) = test_objects(true);

    assert!(o_prot.write_field_stop().is_ok());

    let expected: [u8; 1] = [0x00];
    assert_eq!(&o_prot.transport().write_bytes()[..], &expected[..]);
}

#[test]
fn must_round_trip_field_stop() {
    let (mut i_prot, mut o_prot) = test_objects(true);

    assert!(o_prot.write_field_stop().is_ok());

    i_prot = refill(i_prot, &o_prot);

    let expected_ident = TFieldIdentifier {
        name: None,
        field_type: TType::Stop,
        id: Some(0),
    }; // we get id 0

    let received_ident = expect_ok(i_prot.read_field_begin());
    assert_eq!(&received_ident, &expected_ident);
}

#[test]
fn binary_must_write_field_end() {
    assert_no_write(|o| o.write_field_end(), true);
}

#[test]
fn must_write_list_begin() {
    let (_, mut o_prot) = test_objects(true);

    assert!(o_prot
        .write_list_begin(&TListIdentifier::new(TType::Bool, 5))
        .is_ok());

    let expected: [u8; 5] = [0x02, 0x00, 0x00, 0x00, 0x05];
    assert_eq!(&o_prot.transport().write_bytes()[..], &expected[..]);
}

#[test]
fn must_round_trip_list_begin() {
    let (mut i_prot, mut o_prot) = test_objects(true);

    let ident = TListIdentifier::new(TType::I32, 4);
    assert!(o_prot.write_list_begin(&ident).is_ok());
    assert!(o_prot.write_i32(10).is_ok());
    assert!(o_prot.write_i32(20).is_ok());
    assert!(o_prot.write_i32(30).is_ok());
    assert!(o_prot.write_i32(40).is_ok());

    assert!(o_prot.write_list_end().is_ok());

    i_prot = refill(i_prot, &o_prot);

    let received_ident = expect_ok(i_prot.read_list_begin());
    assert_eq!(&received_ident, &ident);

    assert_eq!(i_prot.read_i32().unwrap(), 10);
    assert_eq!(i_prot.read_i32().unwrap(), 20);
    assert_eq!(i_prot.read_i32().unwrap(), 30);
    assert_eq!(i_prot.read_i32().unwrap(), 40);

    assert!(i_prot.read_list_end().is_ok());
}

#[test]
fn binary_must_write_list_end() {
    assert_no_write(|o| o.write_list_end(), true);
}

#[test]
fn must_write_set_begin() {
    let (_, mut o_prot) = test_objects(true);

    assert!(o_prot
        .write_set_begin(&TSetIdentifier::new(TType::I16, 7))
        .is_ok());

    let expected: [u8; 5] = [0x06, 0x00, 0x00, 0x00, 0x07];
    assert_eq!(&o_prot.transport().write_bytes()[..], &expected[..]);
}

#[test]
fn must_round_trip_set_begin() {
    let (mut i_prot, mut o_prot) = test_objects(true);

    let ident = TSetIdentifier::new(TType::I64, 3);
    assert!(o_prot.write_set_begin(&ident).is_ok());
    assert!(o_prot.write_i64(123).is_ok());
    assert!(o_prot.write_i64(456).is_ok());
    assert!(o_prot.write_i64(789).is_ok());

    assert!(o_prot.write_set_end().is_ok());

    i_prot = refill(i_prot, &o_prot);

    let received_ident_result = i_prot.read_set_begin();
    assert!(received_ident_result.is_ok());
    assert_eq!(&received_ident_result.unwrap(), &ident);

    assert_eq!(i_prot.read_i64().unwrap(), 123);
    assert_eq!(i_prot.read_i64().unwrap(), 456);
    assert_eq!(i_prot.read_i64().unwrap(), 789);

    assert!(i_prot.read_set_end().is_ok());
}

#[test]
fn binary_must_write_set_end() {
    assert_no_write(|o| o.write_set_end(), true);
}

#[test]
fn binary_must_write_map_begin() {
    let (_, mut o_prot) = test_objects(true);

    assert!(o_prot
        .write_map_begin(&TMapIdentifier::new(TType::I64, TType::Struct, 32))
        .is_ok());

    let expected: [u8; 6] = [0x0A, 0x0C, 0x00, 0x00, 0x00, 0x20];
    assert_eq!(&o_prot.transport().write_bytes()[..], &expected[..]);
}

#[test]
fn binary_must_round_trip_map_begin() {
    let (mut i_prot, mut o_prot) = test_objects(true);

    let ident = TMapIdentifier::new(TType::String, TType::I32, 2);
    assert!(o_prot.write_map_begin(&ident).is_ok());
    assert!(o_prot.write_string("key1").is_ok());
    assert!(o_prot.write_i32(100).is_ok());
    assert!(o_prot.write_string("key2").is_ok());
    assert!(o_prot.write_i32(200).is_ok());

    assert!(o_prot.write_map_end().is_ok());

    i_prot = refill(i_prot, &o_prot);

    let received_ident = expect_ok(i_prot.read_map_begin());
    assert_eq!(&received_ident, &ident);

    assert_eq!(i_prot.read_string().unwrap(), "key1");
    assert_eq!(i_prot.read_i32().unwrap(), 100);
    assert_eq!(i_prot.read_string().unwrap(), "key2");
    assert_eq!(i_prot.read_i32().unwrap(), 200);

    assert!(i_prot.read_map_end().is_ok());
}

#[test]
fn binary_must_write_map_end() {
    assert_no_write(|o| o.write_map_end(), true);
}

#[test]
fn must_write_bool_true() {
    let (_, mut o_prot) = test_objects(true);

    assert!(o_prot.write_bool(true).is_ok());

    let expected: [u8; 1] = [0x01];
    assert_eq!(&o_prot.transport().write_bytes()[..], &expected[..]);
}

#[test]
fn must_write_bool_false() {
    let (_, mut o_prot) = test_objects(true);

    assert!(o_prot.write_bool(false).is_ok());

    let expected: [u8; 1] = [0x00];
    assert_eq!(&o_prot.transport().write_bytes()[..], &expected[..]);
}

#[test]
fn must_read_bool_true() {
    let (mut i_prot, _) = test_objects(true);

    i_prot = with_bytes(i_prot, &[0x01]);

    let read_bool = expect_ok(i_prot.read_bool());
    assert!(read_bool);
}

#[test]
fn must_read_bool_false() {
    let (mut i_prot, _) = test_objects(true);

    i_prot = with_bytes(i_prot, &[0x00]);

    let read_bool = expect_ok(i_prot.read_bool());
    assert!(!read_bool);
}

#[test]
fn must_allow_any_non_zero_value_to_be_interpreted_as_bool_true() {
    let (mut i_prot, _) = test_objects(true);

    i_prot = with_bytes(i_prot, &[0xAC]);

    let read_bool = expect_ok(i_prot.read_bool());
    assert!(read_bool);
}

#[test]
fn must_write_bytes() {
    let (_, mut o_prot) = test_objects(true);

    let bytes: [u8; 10] = [0x0A, 0xCC, 0xD1, 0x84, 0x99, 0x12, 0xAB, 0xBB, 0x45, 0xDF];

    assert!(o_prot.write_bytes(&bytes).is_ok());

    let buf = o_prot.transport().write_bytes();
    assert_eq!(&buf[0..4], [0x00, 0x00, 0x00, 0x0A]); // length
    assert_eq!(&buf[4..], bytes); // actual bytes
}

#[test]
fn must_write_uuid() {
    let (_, mut o_prot) = test_objects(true);
    let uuid = TUuid::from_bytes(*uuid::Uuid::new_v4().as_bytes());
    assert!(o_prot.write_uuid(&uuid).is_ok());
    let buf = o_prot.transport().write_bytes();
    assert_eq!(&buf, uuid.as_bytes());
}

#[test]
fn must_round_trip_uuid() {
    let (mut i_prot, mut o_prot) = test_objects(true);
    let parsed = uuid::Uuid::parse_str("F9168C5E-CEB2-4faa-B6BF-329BF39FA1E4").unwrap();
    let uuid = TUuid::from_bytes(*parsed.as_bytes());
    assert!(o_prot.write_uuid(&uuid).is_ok());
    i_prot = refill(i_prot, &o_prot);
    let received_uuid = expect_ok(i_prot.read_uuid());
    assert_eq!(&received_uuid, &uuid);
}

#[test]
fn must_round_trip_bytes() {
    let (mut i_prot, mut o_prot) = test_objects(true);
    let bytes: [u8; 25] = [
        0x20,
        0xFD,
        0x18,
        0x84,
        0x99,
        0x12,
        0xAB,
        0xBB,
        0x45,
        0xDF,
        0x34,
        0xDC,
        0x98,
        0xA4,
        0x6D,
        0xF3,
        0x99,
        0xB4,
        0xB7,
        0xD4,
        0x9C,
        0xA5,
        0xB3,
        0xC9,
        0x88,
    ];

    assert!(o_prot.write_bytes(&bytes).is_ok());

    i_prot = refill(i_prot, &o_prot);

    let received_bytes = expect_ok(i_prot.read_bytes());
    assert_eq!(&received_bytes, &bytes);
}

#[test]
fn binary_must_enforce_recursion_depth_limit() {
    let mem = TBufferChannel::with_capacity(40, 40);
    let r_mem = mem;

    let config = TConfiguration::builder()
        .max_recursion_depth(Some(2))
        .build()
        .unwrap();
    let mut i_prot = TBinaryInputProtocol::with_config(r_mem, true, config);

    assert!(i_prot.read_struct_begin().is_ok());
    assert_eq!(i_prot.recursion_depth(), 1);

    assert!(i_prot.read_struct_begin().is_ok());
    assert_eq!(i_prot.recursion_depth(), 2);

    let result = i_prot.read_struct_begin();
    assert!(result.is_err());
    match result {
        Err(Error::Protocol(e)) => {
            assert_eq!(e.kind, ProtocolErrorKind::DepthLimit);
        }
        _ => panic!("Expected protocol error with DepthLimit"),
    }

    assert!(i_prot.read_struct_end().is_ok());
    assert_eq!(i_prot.recursion_depth(), 1);
    assert!(i_prot.read_struct_end().is_ok());
    assert_eq!(i_prot.recursion_depth(), 0);
}

#[test]
fn binary_must_reject_negative_container_sizes() {
    let mem = TBufferChannel::with_capacity(40, 40);
    let r_mem = mem;

    let mut i_prot = TBinaryInputProtocol::new(r_mem, true);

    i_prot = with_bytes(i_prot, &[0x0F, 0xFF, 0xFF, 0xFF, 0xFF]);

    let result = i_prot.read_list_begin();
    assert!(result.is_err());
    match result {
        Err(Error::Protocol(e)) => {
            assert_eq!(e.kind, ProtocolErrorKind::NegativeSize);
        }
        _ => panic!("Expected protocol error with NegativeSize"),
    }
}

#[test]
fn binary_must_enforce_container_size_limit() {
    let mem = TBufferChannel::with_capacity(40, 40);
    let r_mem = mem;

    let config = TConfiguration::builder()
        .max_container_size(Some(100))
        .build()
        .unwrap();

    let mut i_prot = TBinaryInputProtocol::with_config(r_mem, true, config);

    i_prot = with_bytes(i_prot, &[0x0F, 0x00, 0x00, 0x00, 0xC8]);

    let result = i_prot.read_list_begin();
    assert!(result.is_err());
    match result {
        Err(Error::Protocol(e)) => {
            assert_eq!(e.kind, ProtocolErrorKind::SizeLimit);
            assert!(e
                .message
                .contains("Container size 200 exceeds maximum allowed size of 100"));
        }
        _ => panic!("Expected protocol error with SizeLimit"),
    }
}

#[test]
fn binary_must_allow_containers_within_limit() {
    let mem = TBufferChannel::with_capacity(200, 200);
    let r_mem = mem;

    // Create protocol with container limit of 100
    let config = TConfiguration::builder()
        .max_container_size(Some(100))
        .build()
        .unwrap();
    let mut i_prot = TBinaryInputProtocol::with_config(r_mem, true, config);

    let mut data = vec![0x08]; // TType::I32
    data.extend_from_slice(&5i32.to_be_bytes()); // size = 5

    for i in 1i32..=5i32 {
        data.extend_from_slice(&(i * 10).to_be_bytes());
    }

    i_prot = with_bytes(i_prot, &data);

    let result = i_prot.read_list_begin();
    assert!(result.is_ok());
    let list_ident = result.unwrap();
    assert_eq!(list_ident.size, 5);
    assert_eq!(list_ident.element_type, TType::I32);
}

#[test]
fn binary_must_enforce_string_size_limit() {
    let mem = TBufferChannel::with_capacity(100, 100);
    let r_mem = mem;

    let config = TConfiguration::builder()
        .max_string_size(Some(1000))
        .build()
        .unwrap();
    let mut i_prot = TBinaryInputProtocol::with_config(r_mem, true, config);

    i_prot = with_bytes(i_prot, &[0x00, 0x00, 0x07, 0xD0]);

    let result = i_prot.read_string();
    assert!(result.is_err());
    match result {
        Err(Error::Protocol(e)) => {
            assert_eq!(e.kind, ProtocolErrorKind::SizeLimit);
            assert!(e
                .message
                .contains("Byte array size 2000 exceeds maximum allowed size of 1000"));
        }
        _ => panic!("Expected protocol error with SizeLimit"),
    }
}

#[test]
fn binary_must_allow_strings_within_limit() {
    let mem = TBufferChannel::with_capacity(100, 100);
    let r_mem = mem;

    let config = TConfiguration::builder()
        .max_string_size(Some(1000))
        .build()
        .unwrap();
    let mut i_prot = TBinaryInputProtocol::with_config(r_mem, true, config);

    i_prot = with_bytes(i_prot, &[0x00, 0x00, 0x00, 0x05, b'h', b'e', b'l', b'l', b'o']);

    let result = i_prot.read_string();
    assert!(result.is_ok());
    assert_eq!(result.unwrap(), "hello");
}
