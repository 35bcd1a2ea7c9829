use packstream::consts::END_OF_STREAM;
use packstream::consts::LIST_STREAM;
use packstream::consts::MAP_STREAM;
use packstream::error::BoltError;
use packstream::messages::Init;
use packstream::messages::Message;
use packstream::messages::Record;
use packstream::messages::Reset;
use packstream::packer::PackValue;
use packstream::packer::Packer;
use packstream::structs::Node;
use packstream::structs::Path;
use packstream::structs::Relationship;
use packstream::structs::Struct;
use packstream::structs::UnboundRelationship;
use packstream::types::PackType;
use packstream::unpacker::PackInput;
use packstream::unpacker::UnpackValue;
use packstream::unpacker::Unpacker;
use packstream::value::Value;

fn text(s: &str) -> Vec<u8> {
    s.as_bytes().to_vec()
}

fn packed_int(n: i64) -> Vec<u8> {
    let mut p = Packer::new();
    p.pack_i64(n).unwrap();
    p.out.buf
}

fn int_round_trip(n: i64) {
    let mut u = Unpacker::new(packed_int(n));
    assert_eq!(u.unpack_i64().unwrap(), n);
}

#[test]
fn int_1000_encodes_to_16_bit_tier() {
    // 16-bit marker, then the big-endian payload.
    assert_eq!(packed_int(1000), vec![0xC9, 0x03, 0xE8]);
    int_round_trip(1000);
}

#[test]
fn int_tiers_are_minimal() {
    assert_eq!(packed_int(100).len(), 1);
    // The 8-bit tier caps at the signed maximum 127, so 200 takes the
    // 16-bit tier; only -128..=-17 use the 8-bit payload.
    assert_eq!(packed_int(200), vec![0xC9, 0x00, 0xC8]);
    assert_eq!(packed_int(-100), vec![0xC8, 0x9C]);
    assert_eq!(packed_int(40000), vec![0xCA, 0x00, 0x00, 0x9C, 0x40]);
    assert_eq!(packed_int(32000), vec![0xC9, 0x7D, 0x00]);
    assert_eq!(packed_int(-16), vec![0xF0]);
    assert_eq!(packed_int(-17), vec![0xC8, 0xEF]);
    assert_eq!(packed_int(127), vec![0x7F]);
    assert_eq!(packed_int(128), vec![0xC9, 0x00, 0x80]);
}

#[test]
fn int_round_trips_across_all_tiers() {
    for n in [
        0i64,
        1,
        -1,
        15,
        -16,
        -17,
        127,
        128,
        -128,
        -129,
        32767,
        32768,
        -32768,
        -32769,
        2147483647,
        2147483648,
        -2147483648,
        -2147483649,
        i64::MAX,
        i64::MIN,
    ] {
        int_round_trip(n);
    }
}

#[test]
fn decoder_accepts_non_minimal_int_tiers() {
    // 5 encoded in the 16-bit tier, though one byte would have sufficed.
    let mut u = Unpacker::new(vec![0xC9, 0x00, 0x05]);
    assert_eq!(u.unpack_i64().unwrap(), 5);
}

#[test]
fn abc_encodes_to_tiny_string() {
    let mut p = Packer::new();
    p.pack_string(&text("abc")).unwrap();
    assert_eq!(p.out.buf, vec![0x83, 0x61, 0x62, 0x63]);
    let mut u = Unpacker::new(p.out.buf);
    assert_eq!(u.unpack_string().unwrap(), text("abc"));
}

#[test]
fn string_tier_boundaries() {
    let fifteen = vec![0x41u8; 15];
    let mut p = Packer::new();
    p.pack_string(&fifteen).unwrap();
    assert_eq!(p.out.buf[0], 0x8F);
    assert_eq!(p.out.buf.len(), 16);

    let sixteen = vec![0x42u8; 16];
    let mut p2 = Packer::new();
    p2.pack_string(&sixteen).unwrap();
    assert_eq!(p2.out.buf[0], 0xD0);
    assert_eq!(p2.out.buf[1], 16);
    assert_eq!(p2.out.buf.len(), 18);

    let mut u = Unpacker::new(p2.out.buf);
    assert_eq!(u.unpack_string().unwrap(), sixteen);
}

#[test]
fn empty_list_is_one_marker_byte() {
    let mut p = Packer::new();
    p.pack_value(&Value::List(Vec::new())).unwrap();
    assert_eq!(p.out.buf, vec![0x90]);
    let mut u = Unpacker::new(p.out.buf);
    assert_eq!(u.unpack_value().unwrap(), Value::List(Vec::new()));
}

#[test]
fn list_round_trip_with_tier_boundaries() {
    let l15: Vec<Value> = (0..15).map(Value::Int).collect();
    let l16: Vec<Value> = (0..16).map(Value::Int).collect();

    let mut p = Packer::new();
    p.pack_value(&Value::List(l15)).unwrap();
    assert_eq!(p.out.buf[0], 0x9F);

    let mut p2 = Packer::new();
    p2.pack_value(&Value::List(l16)).unwrap();
    assert_eq!(p2.out.buf[0], 0xD4);
    assert_eq!(p2.out.buf[1], 16);
    let mut u = Unpacker::new(p2.out.buf);
    let back = u.unpack_value().unwrap();
    assert_eq!(back, Value::List((0..16).map(Value::Int).collect()));
}

#[test]
fn nested_value_round_trip() {
    let v = Value::List(vec![
        Value::Null,
        Value::Boolean(true),
        Value::Int(-42),
        Value::String(text("hello")),
        Value::Dict(vec![
            (text("k"), Value::Int(7)),
            (text("nested"), Value::List(vec![Value::Boolean(false)])),
        ]),
    ]);
    let mut p = Packer::new();
    p.pack_value(&v).unwrap();
    let mut u = Unpacker::new(p.out.buf);
    assert_eq!(u.unpack_value().unwrap(), v);
}

#[test]
fn dict_round_trip_keeps_order() {
    let d = Value::Dict(vec![
        (text("b"), Value::Int(2)),
        (text("a"), Value::Int(1)),
    ]);
    let mut p = Packer::new();
    p.pack_value(&d).unwrap();
    assert_eq!(p.out.buf[0], 0xA2);
    let mut u = Unpacker::new(p.out.buf);
    assert_eq!(u.unpack_value().unwrap(), d);
}

#[test]
fn bool_round_trip_and_markers() {
    let mut p = Packer::new();
    p.pack_bool(true).unwrap();
    p.pack_bool(false).unwrap();
    assert_eq!(p.out.buf, vec![0xC3, 0xC2]);
    let mut u = Unpacker::new(p.out.buf);
    assert_eq!(u.unpack_bool().unwrap(), true);
    assert_eq!(u.unpack_bool().unwrap(), false);
}

#[test]
fn float_round_trip_is_bit_exact() {
    for x in [3.25f64, 0.0, -0.0, f64::NAN, f64::INFINITY, f64::NEG_INFINITY, 1.5e-300] {
        let bits = x.to_bits();
        let mut p = Packer::new();
        p.pack_float_bits(bits).unwrap();
        assert_eq!(p.out.buf[0], 0xC1);
        assert_eq!(p.out.buf.len(), 9);
        let mut u = Unpacker::new(p.out.buf);
        let back = u.unpack_float_bits().unwrap();
        assert_eq!(back, bits);
    }
    // +0.0 and -0.0 have different bit patterns and both survive exactly.
    assert_ne!((0.0f64).to_bits(), (-0.0f64).to_bits());
}

#[test]
fn float_as_value_round_trip() {
    let v = Value::Float(f64::to_bits(3.25));
    let mut p = Packer::new();
    p.pack_value(&v).unwrap();
    let mut u = Unpacker::new(p.out.buf);
    assert_eq!(u.unpack_value().unwrap(), v);
}

#[test]
fn streaming_list_decodes_like_counted() {
    // Build the unknown-size form by hand: stream marker, elements, end byte.
    let mut p = Packer::new();
    p.out.buf.push(LIST_STREAM);
    p.pack_i64(1).unwrap();
    p.pack_i64(1000).unwrap();
    p.pack_string(&text("abc")).unwrap();
    p.out.buf.push(END_OF_STREAM);
    let mut u = Unpacker::new(p.out.buf);
    let v = u.unpack_value().unwrap();
    assert_eq!(
        v,
        Value::List(vec![Value::Int(1), Value::Int(1000), Value::String(text("abc"))])
    );
}

#[test]
fn streaming_list_survives_fragmented_delivery() {
    let mut p = Packer::new();
    p.out.buf.push(LIST_STREAM);
    p.pack_i64(7).unwrap();
    p.pack_string(&text("xy")).unwrap();
    p.out.buf.push(END_OF_STREAM);
    let bytes = p.out.buf;

    // All at once.
    let mut u1 = Unpacker::new(bytes.clone());
    let v1 = u1.unpack_value().unwrap();

    // Delivered byte by byte through incremental extension.
    let mut u2 = Unpacker::new(Vec::new());
    for b in &bytes {
        u2.extend(&[*b]);
    }
    let v2 = u2.unpack_value().unwrap();
    assert_eq!(v1, v2);

    // A truncated stream reports a bounds error, then succeeds once the
    // rest arrives.
    let (head, tail) = bytes.split_at(3);
    let mut u3 = Unpacker::new(head.to_vec());
    assert!(u3.unpack_value().is_err());
    let mut u4 = Unpacker::new(head.to_vec());
    u4.extend(tail);
    assert_eq!(u4.unpack_value().unwrap(), v1);
}

#[test]
fn streaming_map_decodes() {
    let mut p = Packer::new();
    p.out.buf.push(MAP_STREAM);
    p.pack_string(&text("k")).unwrap();
    p.pack_i64(5).unwrap();
    p.out.buf.push(END_OF_STREAM);
    let mut u = Unpacker::new(p.out.buf);
    assert_eq!(
        u.unpack_value().unwrap(),
        Value::Dict(vec![(text("k"), Value::Int(5))])
    );
}

fn sample_node() -> Node {
    Node {
        id: 42,
        labels: vec![text("Person"), text("Admin")],
        properties: vec![
            (text("name"), Value::String(text("Alice"))),
            (text("age"), Value::Int(33)),
        ],
    }
}

#[test]
fn node_round_trip() {
    let n = sample_node();
    let mut p = Packer::new();
    p.pack_node(&n).unwrap();
    assert_eq!(p.out.buf[0], 0xB3);
    assert_eq!(p.out.buf[1], 0x4E);
    let mut u = Unpacker::new(p.out.buf);
    assert_eq!(u.unpack_node().unwrap(), sample_node());
}

#[test]
fn signature_lookahead_does_not_advance_cursor() {
    let mut p = Packer::new();
    p.pack_node(&sample_node()).unwrap();
    let mut u = Unpacker::new(p.out.buf);
    let before = u.input.index;
    let sig = u.peek_struct_signature().unwrap();
    assert_eq!(sig, 0x4E);
    assert_eq!(u.input.index, before);
    // Peeking again sees the same byte; the full decode still succeeds and
    // carries the same signature.
    assert_eq!(u.peek_struct_signature().unwrap(), 0x4E);
    let st = u.unpack_struct().unwrap();
    match st {
        Struct::Node(n) => assert_eq!(n, sample_node()),
        _ => panic!("signature dispatched to the wrong record"),
    }
}

#[test]
fn relationship_round_trip() {
    let r = Relationship {
        id: 1,
        start_node_id: 2,
        end_node_id: 3,
        rel_type: text("KNOWS"),
        properties: vec![(text("since"), Value::Int(1999))],
    };
    let mut p = Packer::new();
    p.pack_relationship(&r).unwrap();
    assert_eq!(p.out.buf[0], 0xB5);
    assert_eq!(p.out.buf[1], 0x52);
    let mut u = Unpacker::new(p.out.buf);
    let back = u.unpack_relationship().unwrap();
    assert_eq!(back.id, 1);
    assert_eq!(back.rel_type, text("KNOWS"));
    assert_eq!(back.properties.len(), 1);
}

#[test]
fn path_round_trip_via_value() {
    let path = Path {
        nodes: vec![sample_node()],
        relationships: vec![UnboundRelationship {
            id: 9,
            rel_type: text("LIKES"),
            properties: Vec::new(),
        }],
        sequence: vec![1, -1, 2],
    };
    let v = Value::Struct(Struct::Path(path));
    let mut p = Packer::new();
    p.pack_value(&v).unwrap();
    let mut u = Unpacker::new(p.out.buf);
    let back = u.unpack_value().unwrap();
    assert_eq!(back, v);
}

#[test]
fn null_round_trip() {
    let mut p = Packer::new();
    p.pack_value(&Value::Null).unwrap();
    assert_eq!(p.out.buf, vec![0xC0]);
    let mut u = Unpacker::new(p.out.buf);
    assert_eq!(u.unpack_value().unwrap(), Value::Null);
}

#[test]
fn empty_input_fails_with_bounds_error() {
    let mut u = Unpacker::new(Vec::new());
    assert_eq!(u.unpack_bool().unwrap_err(), BoltError::PackInputReadInvalidIndex);
    let mut u2 = Unpacker::new(Vec::new());
    assert_eq!(u2.unpack_i64().unwrap_err(), BoltError::PackInputReadInvalidIndex);
    let mut u3 = Unpacker::new(Vec::new());
    assert_eq!(u3.input.peek().unwrap_err(), BoltError::PackInputPeekInvalidRange);
}

#[test]
fn oversized_declared_size_fails_with_slice_range_error() {
    // An 8-bit string header declaring 10 bytes over a 2-byte payload.
    let mut u = Unpacker::new(vec![0xD0, 10, 0x61, 0x62]);
    assert_eq!(
        u.unpack_string().unwrap_err(),
        BoltError::PackInputReadInvalidSliceRange
    );
}

#[test]
fn wrong_marker_fails_with_family_error() {
    let mut u = Unpacker::new(vec![0x06]);
    assert_eq!(u.unpack_bool().unwrap_err(), BoltError::UnpackInvalidBooleanMarker);

    let mut u2 = Unpacker::new(vec![0xC1, 0, 0, 0, 0, 0, 0, 0, 0]);
    assert_eq!(u2.unpack_i64().unwrap_err(), BoltError::UnpackInvalidIntMarker);

    let mut u3 = Unpacker::new(vec![0xC3]);
    assert_eq!(
        u3.unpack_string_header().unwrap_err(),
        BoltError::UnpackInvalidStringSize
    );

    let mut u4 = Unpacker::new(vec![0xC3]);
    assert_eq!(u4.unpack_list_header().unwrap_err(), BoltError::UnpackInvalidListSize);

    let mut u5 = Unpacker::new(vec![0xC3]);
    assert_eq!(u5.unpack_map_header().unwrap_err(), BoltError::UnpackInvalidMapSize);

    let mut u6 = Unpacker::new(vec![0xC3]);
    assert_eq!(
        u6.unpack_struct_header().unwrap_err(),
        BoltError::UnpackInvalidStructSize
    );

    let mut u7 = Unpacker::new(vec![0xC3]);
    assert_eq!(
        u7.peek_struct_signature().unwrap_err(),
        BoltError::UnpackInvalidStructSize
    );
}

#[test]
fn reserved_marker_in_value_position_is_unmanaged() {
    let mut u = Unpacker::new(vec![0xC4]);
    assert_eq!(u.unpack_value().unwrap_err(), BoltError::Unmanaged);
}

#[test]
fn classification_is_total() {
    assert_eq!(PackType::from(0xC0), PackType::Null);
    assert_eq!(PackType::from(0xC1), PackType::Float);
    assert_eq!(PackType::from(0xC2), PackType::Boolean);
    assert_eq!(PackType::from(0x00), PackType::Int);
    assert_eq!(PackType::from(0x7F), PackType::Int);
    assert_eq!(PackType::from(0xF0), PackType::Int);
    assert_eq!(PackType::from(0xFF), PackType::Int);
    assert_eq!(PackType::from(0x85), PackType::String);
    assert_eq!(PackType::from(0xD2), PackType::String);
    assert_eq!(PackType::from(0x93), PackType::List);
    assert_eq!(PackType::from(0xD7), PackType::List);
    assert_eq!(PackType::from(0xA1), PackType::Dict);
    assert_eq!(PackType::from(0xDB), PackType::Dict);
    assert_eq!(PackType::from(0xB3), PackType::Struct);
    assert_eq!(PackType::from(0xDD), PackType::Struct);
    assert_eq!(PackType::from(0xCC), PackType::Bytes);
    assert_eq!(PackType::from(0xDF), PackType::EndOfStream);
    assert_eq!(PackType::from(0xC4), PackType::Reserved);
    assert_eq!(PackType::from(0xDE), PackType::Reserved);
}

#[test]
fn cursor_primitives() {
    let mut c = PackInput::new(vec![1, 2, 3]);
    assert_eq!(c.peek().unwrap(), 1);
    assert_eq!(c.peek_at(2).unwrap(), 3);
    assert!(c.peek_at(3).is_err());
    assert_eq!(c.read_u8().unwrap(), 1);
    assert_eq!(c.read_slice(2).unwrap(), vec![2, 3]);
    assert!(c.read_u8().is_err());
    c.extend(&[9]);
    assert_eq!(c.read_u8().unwrap(), 9);
    c.clear();
    assert_eq!(c.len(), 0);
}

#[test]
fn packer_len_counts_bytes() {
    let mut p = Packer::new();
    assert_eq!(p.len(), 0);
    p.pack_i64(1000).unwrap();
    assert_eq!(p.len(), 3);
}

#[test]
fn struct_header_tiers() {
    let mut p = Packer::new();
    p.pack_struct_header(3, 0x4E).unwrap();
    assert_eq!(p.out.buf, vec![0xB3, 0x4E]);

    let mut p2 = Packer::new();
    p2.pack_struct_header(20, 0x4E).unwrap();
    assert_eq!(p2.out.buf, vec![0xDC, 20, 0x4E]);
    let mut u = Unpacker::new(p2.out.buf);
    assert_eq!(u.unpack_struct_header().unwrap(), 20);
    assert_eq!(u.unpack_struct_signature().unwrap(), 0x4E);

    let mut p3 = Packer::new();
    assert_eq!(
        p3.pack_struct_header(40000, 0x4E).unwrap_err(),
        BoltError::PackStructHeaderSizeOverflow
    );
    assert_eq!(p3.out.buf.len(), 0);
}

#[test]
fn head3_overflow_is_reported_before_any_write() {
    let mut p = Packer::new();
    assert_eq!(
        p.pack_head3(0x8000_0000usize, 0xD0, 0xD1, 0xD2).unwrap_err(),
        BoltError::PackHeaderSizeOverflow
    );
    assert_eq!(p.out.buf.len(), 0);
    p.pack_head4(300, 0x80, 0xD0, 0xD1, 0xD2).unwrap();
    assert_eq!(p.out.buf, vec![0xD1, 0x01, 0x2C]);
}

#[test]
fn pack_trait_dispatches_by_type() {
    let mut p = Packer::new();
    PackValue::<i64>::pack(&mut p, 1000).unwrap();
    PackValue::<bool>::pack(&mut p, true).unwrap();
    PackValue::<Vec<u8>>::pack(&mut p, text("abc")).unwrap();
    assert_eq!(p.out.buf, vec![0xC9, 0x03, 0xE8, 0xC3, 0x83, 0x61, 0x62, 0x63]);
    let mut u = Unpacker::new(p.out.buf);
    let n: i64 = u.unpack().unwrap();
    assert_eq!(n, 1000);
    let b: bool = u.unpack().unwrap();
    assert!(b);
    let s: Vec<u8> = u.unpack().unwrap();
    assert_eq!(s, text("abc"));
}

#[test]
fn unit_messages_round_trip() {
    let mut p = Packer::new();
    p.pack_message(&Message::Reset(Reset)).unwrap();
    assert_eq!(p.out.buf, vec![0xB0, 0x0F]);
    let mut u = Unpacker::new(p.out.buf);
    assert_eq!(u.unpack_message().unwrap(), Message::Reset(Reset));
    assert_eq!(Reset::struct_size(), 0);
    assert_eq!(Reset::struct_sign(), 0x0F);
}

#[test]
fn init_message_round_trip() {
    let m = Init {
        client_name: text("client/1.0"),
        auth_token: vec![
            (text("scheme"), Value::String(text("basic"))),
            (text("principal"), Value::String(text("user"))),
        ],
    };
    let mut p = Packer::new();
    p.pack_init(&m).unwrap();
    assert_eq!(p.out.buf[0], 0xB2);
    assert_eq!(p.out.buf[1], 0x01);
    let mut u = Unpacker::new(p.out.buf);
    match u.unpack_message().unwrap() {
        Message::Init(back) => {
            assert_eq!(back.client_name, text("client/1.0"));
            assert_eq!(back.auth_token.len(), 2);
        },
        _ => panic!("wrong message decoded"),
    }
}

#[test]
fn record_message_round_trip() {
    let m = Record { fields: vec![Value::Int(1), Value::String(text("x"))] };
    let mut p = Packer::new();
    p.pack_record_msg(&m).unwrap();
    assert_eq!(p.out.buf[0], 0xB1);
    assert_eq!(p.out.buf[1], 0x71);
    let mut u = Unpacker::new(p.out.buf);
    match u.unpack_message().unwrap() {
        Message::Record(back) => {
            assert_eq!(back.fields, vec![Value::Int(1), Value::String(text("x"))]);
        },
        _ => panic!("wrong message decoded"),
    }
}

#[test]
fn lenient_float_marker_is_preserved() {
    // The float decoder consumes its marker byte without checking it.
    let mut u = Unpacker::new(vec![0x00, 0, 0, 0, 0, 0, 0, 0, 42]);
    assert_eq!(u.unpack_float_bits().unwrap(), 42);
}

#[test]
fn negative_declared_string_size_is_rejected() {
    // An 8-bit size byte of 0xFF reads as -1, which no buffer can satisfy.
    let mut u = Unpacker::new(vec![0xD0, 0xFF, 0x61]);
    assert_eq!(
        u.unpack_string().unwrap_err(),
        BoltError::PackInputReadInvalidSliceRange
    );
}

#[test]
fn bytes_round_trip_has_no_tiny_form() {
    // Even a short byte array takes the 8-bit tier: no tiny form exists.
    let data = vec![1u8, 2, 3];
    let mut p = Packer::new();
    p.pack_bytes(&data).unwrap();
    assert_eq!(p.out.buf, vec![0xCC, 3, 1, 2, 3]);
    let mut u = Unpacker::new(p.out.buf);
    assert_eq!(u.unpack_bytes().unwrap(), data);

    let empty: Vec<u8> = Vec::new();
    let mut p2 = Packer::new();
    p2.pack_bytes(&empty).unwrap();
    assert_eq!(p2.out.buf, vec![0xCC, 0]);
    let mut u2 = Unpacker::new(p2.out.buf);
    assert_eq!(u2.unpack_bytes().unwrap(), empty);
}

#[test]
fn bytes_tier_boundaries() {
    let long = vec![7u8; 128];
    let mut p = Packer::new();
    p.pack_bytes(&long).unwrap();
    assert_eq!(p.out.buf[0], 0xCD);
    assert_eq!(&p.out.buf[1..3], &[0x00, 0x80]);
    let mut u = Unpacker::new(p.out.buf);
    assert_eq!(u.unpack_bytes().unwrap(), long);
}

#[test]
fn bytes_errors_are_specific() {
    let mut u = Unpacker::new(vec![0xC3]);
    assert_eq!(u.unpack_bytes().unwrap_err(), BoltError::UnpackInvalidBytesSize);

    let mut u2 = Unpacker::new(vec![0xCC, 9, 1]);
    assert_eq!(
        u2.unpack_bytes().unwrap_err(),
        BoltError::PackInputReadInvalidSliceRange
    );

    let mut u3 = Unpacker::new(Vec::new());
    assert_eq!(u3.unpack_bytes().unwrap_err(), BoltError::PackInputReadInvalidIndex);
}

#[test]
fn optional_values_pack_as_null_or_inner() {
    let mut p = Packer::new();
    PackValue::<Option<i64>>::pack(&mut p, None).unwrap();
    PackValue::<Option<i64>>::pack(&mut p, Some(1000)).unwrap();
    PackValue::<Option<bool>>::pack(&mut p, Some(true)).unwrap();
    PackValue::<Option<Vec<u8>>>::pack(&mut p, None).unwrap();
    PackValue::<Option<Value>>::pack(&mut p, Some(Value::Null)).unwrap();
    assert_eq!(p.out.buf, vec![0xC0, 0xC9, 0x03, 0xE8, 0xC3, 0xC0, 0xC0]);
}

#[test]
fn exhausted_input_at_element_boundary_is_a_bounds_error() {
    // A counted list claiming two elements but holding only one.
    let mut u = Unpacker::new(vec![0x92, 0x01]);
    assert_eq!(
        u.unpack_value().unwrap_err(),
        BoltError::PackInputPeekInvalidRange
    );
    // A streamed list cut off before its end byte.
    let mut u2 = Unpacker::new(vec![0xD7, 0x01]);
    assert_eq!(
        u2.unpack_value().unwrap_err(),
        BoltError::PackInputPeekInvalidRange
    );
}
