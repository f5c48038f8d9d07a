use thrift::{
    Error, ProtocolErrorKind, TBinaryInputProtocol, TBinaryInputProtocolFactory,
    TBinaryOutputProtocol, TBinaryOutputProtocolFactory, TBufferChannel, TCompactInputProtocol,
    TCompactInputProtocolFactory, TCompactOutputProtocol, TCompactOutputProtocolFactory,
    TConfiguration, TFieldIdentifier, TListIdentifier, TMapIdentifier, TMessageIdentifier,
    TMessageType, TSetIdentifier, TStructIdentifier, TType, TUuid, TransportErrorKind,
};

fn kind_of<T: std::fmt::Debug>(r: thrift::Result<T>) -> ProtocolErrorKind {
    match r {
        Err(Error::Protocol(e)) => e.kind,
        other => panic!("expected a protocol error, got {:?}", other),
    }
}

fn binary_reader(bytes: &[u8], strict: bool) -> TBinaryInputProtocol {
    TBinaryInputProtocol::new(TBufferChannel::from_bytes(bytes), strict)
}

fn compact_reader(bytes: &[u8]) -> TCompactInputProtocol {
    TCompactInputProtocol::new(TBufferChannel::from_bytes(bytes))
}

fn compact_writer() -> TCompactOutputProtocol {
    TCompactOutputProtocol::new(TBufferChannel::new())
}

#[test]
fn compact_sequence_numbers_round_trip() {
    for seq in [i32::MIN, -431, -1, 0, 1, 431, i32::MAX] {
        let mut o = compact_writer();
        let ident = TMessageIdentifier::new("call", TMessageType::Exception, seq);
        o.write_message_begin(&ident).unwrap();
        let mut i = compact_reader(&o.transport().write_bytes());
        assert_eq!(i.read_message_begin().unwrap(), ident);
    }
}

#[test]
fn binary_sequence_numbers_round_trip_in_both_modes() {
    for strict in [true, false] {
        for seq in [i32::MIN, -1, 0, 7, i32::MAX] {
            let mut o = TBinaryOutputProtocol::new(TBufferChannel::new(), strict);
            let ident = TMessageIdentifier::new("name", TMessageType::OneWay, seq);
            o.write_message_begin(&ident).unwrap();
            let mut i = binary_reader(&o.transport().write_bytes(), strict);
            assert_eq!(i.read_message_begin().unwrap(), ident);
        }
    }
}

#[test]
fn compact_signed_scalars_round_trip() {
    let mut o = compact_writer();
    o.write_i16(i16::MIN).unwrap();
    o.write_i16(-1).unwrap();
    o.write_i32(i32::MIN).unwrap();
    o.write_i32(i32::MAX).unwrap();
    o.write_i64(i64::MIN).unwrap();
    o.write_i64(i64::MAX).unwrap();
    o.write_i8(-128).unwrap();
    let mut i = compact_reader(&o.transport().write_bytes());
    assert_eq!(i.read_i16().unwrap(), i16::MIN);
    assert_eq!(i.read_i16().unwrap(), -1);
    assert_eq!(i.read_i32().unwrap(), i32::MIN);
    assert_eq!(i.read_i32().unwrap(), i32::MAX);
    assert_eq!(i.read_i64().unwrap(), i64::MIN);
    assert_eq!(i.read_i64().unwrap(), i64::MAX);
    assert_eq!(i.read_i8().unwrap(), -128);
}

#[test]
fn compact_zigzag_varint_bytes() {
    let mut o = compact_writer();
    o.write_i32(-1).unwrap();
    o.write_i32(150).unwrap();
    o.write_i64(-64).unwrap();
    assert_eq!(o.transport().write_bytes(), vec![0x01, 0xAC, 0x02, 0x7F]);
}

#[test]
fn binary_scalars_are_big_endian() {
    let mut o = TBinaryOutputProtocol::new(TBufferChannel::new(), true);
    o.write_i16(-2).unwrap();
    o.write_i32(0x0102_0304).unwrap();
    o.write_i64(-1).unwrap();
    o.write_double(f64::to_bits(1.0)).unwrap();
    assert_eq!(
        o.transport().write_bytes(),
        vec![
            0xFF, 0xFE, 0x01, 0x02, 0x03, 0x04, 0xFF, 0xFF, 0xFF, 0xFF, 0xFF, 0xFF, 0xFF, 0xFF,
            0x3F, 0xF0, 0, 0, 0, 0, 0, 0
        ]
    );
    let mut i = binary_reader(&o.transport().write_bytes(), true);
    assert_eq!(i.read_i16().unwrap(), -2);
    assert_eq!(i.read_i32().unwrap(), 0x0102_0304);
    assert_eq!(i.read_i64().unwrap(), -1);
    assert_eq!(f64::from_bits(i.read_double().unwrap()), 1.0);
}

#[test]
fn binary_bool_is_any_non_zero_byte() {
    for b in 0u8..=255 {
        let mut i = binary_reader(&[b], true);
        assert_eq!(i.read_bool().unwrap(), b != 0);
    }
}

#[test]
fn compact_fields_in_any_order_round_trip() {
    let fields = [
        (TType::I32, 40i16),
        (TType::String, 3),
        (TType::Bool, -7),
        (TType::Struct, 18),
        (TType::Double, 33),
        (TType::Uuid, i16::MAX),
        (TType::I08, i16::MIN),
    ];
    let mut o = compact_writer();
    o.write_struct_begin(&TStructIdentifier::new("s")).unwrap();
    for (t, id) in fields {
        o.write_field_begin(&TFieldIdentifier::new("f", t, id)).unwrap();
        if t == TType::Bool {
            o.write_bool(id % 2 == 0).unwrap();
        }
        o.write_field_end().unwrap();
    }
    o.write_field_stop().unwrap();
    o.write_struct_end().unwrap();
    let mut i = compact_reader(&o.transport().write_bytes());
    i.read_struct_begin().unwrap();
    for (t, id) in fields {
        let f = i.read_field_begin().unwrap();
        assert_eq!(f, TFieldIdentifier { name: None, field_type: t, id: Some(id) });
        if t == TType::Bool {
            assert_eq!(i.read_bool().unwrap(), id % 2 == 0);
        }
    }
    assert_eq!(i.read_field_begin().unwrap().field_type, TType::Stop);
    i.read_struct_end().unwrap();
}

#[test]
fn compact_nested_struct_restores_field_id() {
    let mut o = compact_writer();
    o.write_struct_begin(&TStructIdentifier::new("outer")).unwrap();
    o.write_field_begin(&TFieldIdentifier::new("a", TType::Struct, 10)).unwrap();
    o.write_struct_begin(&TStructIdentifier::new("inner")).unwrap();
    o.write_field_begin(&TFieldIdentifier::new("b", TType::I32, 200)).unwrap();
    o.write_i32(5).unwrap();
    o.write_field_stop().unwrap();
    o.write_struct_end().unwrap();
    o.write_field_begin(&TFieldIdentifier::new("c", TType::I32, 11)).unwrap();
    o.write_i32(6).unwrap();
    o.write_field_stop().unwrap();
    o.write_struct_end().unwrap();
    // field 11 follows field 10 of the outer struct: a one-byte delta
    let bytes = o.transport().write_bytes();
    assert_eq!(bytes[bytes.len() - 3], 0x15);
    let mut i = compact_reader(&bytes);
    i.read_struct_begin().unwrap();
    assert_eq!(i.read_field_begin().unwrap().id, Some(10));
    i.read_struct_begin().unwrap();
    assert_eq!(i.read_field_begin().unwrap().id, Some(200));
    assert_eq!(i.read_i32().unwrap(), 5);
    assert_eq!(i.read_field_begin().unwrap().field_type, TType::Stop);
    i.read_struct_end().unwrap();
    assert_eq!(i.read_field_begin().unwrap().id, Some(11));
    assert_eq!(i.read_i32().unwrap(), 6);
}

#[test]
fn compact_delta_of_fifteen_is_short() {
    let mut o = compact_writer();
    o.write_field_begin(&TFieldIdentifier::new("f", TType::I32, 15)).unwrap();
    assert_eq!(o.transport().write_bytes(), vec![0xF5]);
    let mut i = compact_reader(&[0xF5]);
    assert_eq!(i.read_field_begin().unwrap().id, Some(15));
}

#[test]
fn negative_container_sizes_are_rejected() {
    let mut i = binary_reader(&[0x08, 0x80, 0x00, 0x00, 0x00], true);
    assert_eq!(kind_of(i.read_set_begin()), ProtocolErrorKind::NegativeSize);
    let mut i = binary_reader(&[0x08, 0x08, 0xFF, 0xFF, 0xFF, 0xFE], true);
    assert_eq!(kind_of(i.read_map_begin()), ProtocolErrorKind::NegativeSize);
    let mut i = compact_reader(&[0xFF, 0xFF, 0xFF, 0xFF, 0x0F, 0x55]);
    assert_eq!(kind_of(i.read_map_begin()), ProtocolErrorKind::NegativeSize);
}

#[test]
fn sizes_over_the_container_cap_are_rejected() {
    let config = TConfiguration::builder().max_container_size(Some(3)).build().unwrap();
    let mut i = TBinaryInputProtocol::with_config(
        TBufferChannel::from_bytes(&[0x08, 0x08, 0, 0, 0, 4]),
        true,
        config,
    );
    assert_eq!(kind_of(i.read_map_begin()), ProtocolErrorKind::SizeLimit);
    let mut i = TBinaryInputProtocol::with_config(
        TBufferChannel::from_bytes(&[0x08, 0x08, 0, 0, 0, 3]),
        true,
        config,
    );
    assert_eq!(i.read_map_begin().unwrap().size, 3);
    let mut i = TCompactInputProtocol::with_config(TBufferChannel::from_bytes(&[0x45]), config);
    assert_eq!(kind_of(i.read_list_begin()), ProtocolErrorKind::SizeLimit);
    let mut i = TCompactInputProtocol::with_config(TBufferChannel::from_bytes(&[0x35]), config);
    assert_eq!(i.read_list_begin().unwrap().size, 3);
}

#[test]
fn exactly_cap_nested_structs_are_allowed() {
    let config = TConfiguration::builder().max_recursion_depth(Some(3)).build().unwrap();
    let mut b = TBinaryInputProtocol::with_config(TBufferChannel::new(), true, config);
    let mut c = TCompactInputProtocol::with_config(TBufferChannel::new(), config);
    for _ in 0..3 {
        assert!(b.read_struct_begin().is_ok());
        assert!(c.read_struct_begin().is_ok());
    }
    assert_eq!(kind_of(b.read_struct_begin()), ProtocolErrorKind::DepthLimit);
    assert_eq!(kind_of(c.read_struct_begin()), ProtocolErrorKind::DepthLimit);
    assert_eq!(b.recursion_depth(), 3);
    assert_eq!(c.recursion_depth(), 3);
}

#[test]
fn bad_versions_are_rejected() {
    let mut i = binary_reader(&[0x80, 0x02, 0x00, 0x01], true);
    assert_eq!(kind_of(i.read_message_begin()), ProtocolErrorKind::BadVersion);
    let mut i = binary_reader(&[0x00, 0x00, 0x00, 0x01, b'a', 0x01, 0, 0, 0, 0], true);
    assert_eq!(kind_of(i.read_message_begin()), ProtocolErrorKind::BadVersion);
    let mut i = compact_reader(&[0x81, 0x21, 0x00, 0x00]);
    assert_eq!(kind_of(i.read_message_begin()), ProtocolErrorKind::BadVersion);
    let mut i = compact_reader(&[0x82, 0x22, 0x00, 0x00]);
    assert_eq!(kind_of(i.read_message_begin()), ProtocolErrorKind::BadVersion);
}

#[test]
fn invalid_data_is_rejected() {
    let mut i = binary_reader(&[0x05, 0x00, 0x01], true);
    assert_eq!(kind_of(i.read_field_begin()), ProtocolErrorKind::InvalidData);
    let mut i = binary_reader(&[0x80, 0x01, 0x00, 0x09], true);
    assert_eq!(kind_of(i.read_message_begin()), ProtocolErrorKind::InvalidData);
    let mut i = binary_reader(&[0, 0, 0, 2, 0xC3, 0x28], true);
    assert_eq!(kind_of(i.read_string()), ProtocolErrorKind::InvalidData);
    let mut i = compact_reader(&[0x03]);
    assert_eq!(kind_of(i.read_bool()), ProtocolErrorKind::InvalidData);
    let mut i = compact_reader(&[0x1E]);
    assert_eq!(kind_of(i.read_field_begin()), ProtocolErrorKind::InvalidData);
    let mut i = compact_reader(&[0xFF, 0xFF, 0xFF, 0xFF, 0xFF, 0x01]);
    assert_eq!(kind_of(i.read_i32()), ProtocolErrorKind::InvalidData);
}

#[test]
fn binary_field_without_id_is_misuse() {
    let mut o = TBinaryOutputProtocol::new(TBufferChannel::new(), true);
    let f = TFieldIdentifier { name: None, field_type: TType::I32, id: None };
    assert_eq!(kind_of(o.write_field_begin(&f)), ProtocolErrorKind::Unknown);
    assert!(o.transport().write_bytes().is_empty());
}

#[test]
fn running_out_of_bytes_is_a_transport_error() {
    let mut i = binary_reader(&[0x00, 0x01], true);
    match i.read_i32() {
        Err(Error::Transport(e)) => assert_eq!(e.kind, TransportErrorKind::EndOfFile),
        other => panic!("expected end of file, got {:?}", other),
    }
    let mut i = compact_reader(&[0x80, 0x80]);
    match i.read_i64() {
        Err(Error::Transport(e)) => assert_eq!(e.kind, TransportErrorKind::EndOfFile),
        other => panic!("expected end of file, got {:?}", other),
    }
}

#[test]
fn non_ascii_strings_round_trip() {
    let text = "héllo, wörld ✓";
    let mut o = compact_writer();
    o.write_string(text).unwrap();
    let bytes = o.transport().write_bytes();
    assert_eq!(bytes[0] as usize, text.len());
    let mut i = compact_reader(&bytes);
    assert_eq!(i.read_string().unwrap(), text);
    let mut o = TBinaryOutputProtocol::new(TBufferChannel::new(), true);
    o.write_string(text).unwrap();
    let mut i = binary_reader(&o.transport().write_bytes(), true);
    assert_eq!(i.read_string().unwrap(), text);
}

#[test]
fn compact_uuid_is_sixteen_raw_bytes() {
    let bytes: [u8; 16] = [0xF9, 0x16, 0x8C, 0x5E, 0xCE, 0xB2, 0x4F, 0xAA, 0xB6, 0xBF, 0x32, 0x9B, 0xF3, 0x9F, 0xA1, 0xE4];
    let uuid = TUuid::from_bytes(bytes);
    let mut o = compact_writer();
    o.write_uuid(&uuid).unwrap();
    assert_eq!(o.transport().write_bytes(), bytes.to_vec());
    let mut i = compact_reader(&bytes);
    assert_eq!(i.read_uuid().unwrap(), uuid);
}

#[test]
fn compact_collections_write_bool_as_one() {
    let mut o = compact_writer();
    o.write_set_begin(&TSetIdentifier::new(TType::Bool, 2)).unwrap();
    o.write_bool(true).unwrap();
    o.write_bool(false).unwrap();
    assert_eq!(o.transport().write_bytes(), vec![0x21, 0x01, 0x02]);
}

#[test]
fn binary_list_header_and_uuid() {
    let mut o = TBinaryOutputProtocol::new(TBufferChannel::new(), false);
    o.write_list_begin(&TListIdentifier::new(TType::Uuid, 2)).unwrap();
    assert_eq!(o.transport().write_bytes(), vec![0x10, 0, 0, 0, 2]);
    let mut i = binary_reader(&[0x0B, 0, 0, 0, 1], true);
    assert_eq!(i.read_list_begin().unwrap(), TListIdentifier::new(TType::String, 1));
}

#[test]
fn message_budget_bounds_containers() {
    let config = TConfiguration::builder().max_message_size(Some(20)).build().unwrap();
    let mut i = TBinaryInputProtocol::with_config(
        TBufferChannel::from_bytes(&[0x0A, 0, 0, 0, 3]),
        true,
        config,
    );
    match i.read_list_begin() {
        Err(Error::Protocol(e)) => {
            assert_eq!(e.kind, ProtocolErrorKind::SizeLimit);
            assert!(e.message.contains("24 bytes, exceeding message size limit of 20"));
        }
        other => panic!("expected a size limit, got {:?}", other),
    }
    let mut i = TBinaryInputProtocol::with_config(
        TBufferChannel::from_bytes(&[0x0A, 0, 0, 0, 2]),
        true,
        config,
    );
    assert_eq!(i.read_list_begin().unwrap().size, 2);
}

#[test]
fn zero_limits_are_refused() {
    assert!(TConfiguration::builder().max_string_size(Some(0)).build().is_err());
    assert!(TConfiguration::builder().max_string_size(Some(1)).build().is_ok());
    let c = TConfiguration::default();
    assert_eq!(c.max_message_size(), Some(104857600));
    assert_eq!(c.max_recursion_depth(), Some(64));
    assert_eq!(c.max_container_size(), None);
}

#[test]
fn factories_make_strict_and_compact_halves() {
    let mut o = TBinaryOutputProtocolFactory::new().create(TBufferChannel::new());
    o.write_message_begin(&TMessageIdentifier::new("m", TMessageType::Call, 3)).unwrap();
    assert_eq!(o.transport().write_bytes()[0], 0x80);
    let i = TBinaryInputProtocolFactory::new().create(TBufferChannel::new());
    assert!(i.strict());
    let mut o = TCompactOutputProtocolFactory::new().create(TBufferChannel::new());
    o.write_message_begin(&TMessageIdentifier::new("m", TMessageType::Call, 3)).unwrap();
    let mut i = TCompactInputProtocolFactory::new().create(TBufferChannel::from_bytes(&o.transport().write_bytes()));
    assert_eq!(i.read_message_begin().unwrap().sequence_number, 3);
    assert_eq!(i.min_serialized_size(TType::Double), 8);
}

#[test]
fn compact_map_with_types_round_trips() {
    let ident = TMapIdentifier::new(TType::String, TType::Struct, 20);
    let mut o = compact_writer();
    o.write_map_begin(&ident).unwrap();
    assert_eq!(o.transport().write_bytes(), vec![0x14, 0x8C]);
    let mut i = compact_reader(&o.transport().write_bytes());
    assert_eq!(i.read_map_begin().unwrap(), ident);
}

#[test]
fn size_errors_carry_exact_messages() {
    let config = TConfiguration::builder().max_container_size(Some(1000)).build().unwrap();
    let mut i = TCompactInputProtocol::with_config(
        TBufferChannel::from_bytes(&[0xF0, 0x90, 0x4E]),
        config,
    );
    match i.read_list_begin() {
        Err(Error::Protocol(e)) => {
            assert_eq!(e.message, "Container size 10000 exceeds maximum allowed size of 1000")
        }
        other => panic!("expected a size limit, got {:?}", other),
    }
    let config = TConfiguration::builder().max_message_size(Some(1000)).build().unwrap();
    let mut i = TCompactInputProtocol::with_config(TBufferChannel::from_bytes(&[0xFD, 0x64]), config);
    match i.read_list_begin() {
        Err(Error::Protocol(e)) => assert_eq!(
            e.message,
            "Container would require 1600 bytes, exceeding message size limit of 1000"
        ),
        other => panic!("expected a size limit, got {:?}", other),
    }
    let config = TConfiguration::builder().max_string_size(Some(9)).build().unwrap();
    let mut i = TBinaryInputProtocol::with_config(
        TBufferChannel::from_bytes(&[0x00, 0x00, 0x00, 0x0A]),
        true,
        config,
    );
    match i.read_string() {
        Err(Error::Protocol(e)) => {
            assert_eq!(e.message, "Byte array size 10 exceeds maximum allowed size of 9")
        }
        other => panic!("expected a size limit, got {:?}", other),
    }
    let mut i = TBinaryInputProtocol::with_config(
        TBufferChannel::from_bytes(&[0x00, 0x00, 0x00, 0x0A, b'a', 0x01, 0, 0, 0, 0]),
        false,
        config,
    );
    assert_eq!(kind_of(i.read_message_begin()), ProtocolErrorKind::SizeLimit);
    let mut i = binary_reader(&[0x00, 0x00, 0x00, 0x05, b'h', b'i'], true);
    match i.read_bytes() {
        Err(Error::Transport(e)) => assert_eq!(e.kind, TransportErrorKind::EndOfFile),
        other => panic!("expected end of file, got {:?}", other),
    }
}
