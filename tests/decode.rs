use leveldat::model::{DecodeError, Document, Tag, TagType, Value};

fn with_header(body: &[u8]) -> Vec<u8> {
    let mut out = Vec::new();
    out.extend_from_slice(&7i32.to_le_bytes());
    out.extend_from_slice(&(body.len() as i32).to_le_bytes());
    out.extend_from_slice(body);
    out
}

fn leaf(tag: &Tag) -> &Value {
    tag.value.as_ref().expect("tag has a value")
}

#[test]
fn type_codes_map_to_their_variants() {
    let table = [
        (0u8, TagType::End),
        (1, TagType::Byte),
        (3, TagType::Int32),
        (4, TagType::Int64),
        (5, TagType::Float),
        (8, TagType::String),
        (9, TagType::List),
        (10, TagType::Compound),
    ];
    for b in 0u8..=255 {
        let data = [b];
        let r = TagType::parse(&data, 0);
        match table.iter().find(|(code, _)| *code == b) {
            Some((_, t)) => assert_eq!(r, Ok((*t, 1))),
            None => assert_eq!(r, Err(DecodeError::InvalidFormat(Some(b)))),
        }
    }
}

#[test]
fn type_code_needs_a_byte() {
    assert_eq!(TagType::parse(&[], 0), Err(DecodeError::Io));
    assert_eq!(TagType::parse(&[1, 2], 2), Err(DecodeError::Io));
}

#[test]
fn end_value_is_invalid_format() {
    for data in [vec![], vec![0u8], vec![1, 2, 3, 4, 5]] {
        assert_eq!(
            Value::parse(&data, 0, TagType::End).err(),
            Some(DecodeError::InvalidFormat(None))
        );
    }
}

#[test]
fn leaf_values_round_trip() {
    let (v, p) = Value::parse(&[200, 9], 0, TagType::Byte).unwrap();
    assert!(matches!(v, Value::Byte(200)));
    assert_eq!(p, 1);

    for n in [0i32, 1, -1, i32::MIN, i32::MAX, 0x1234_5678] {
        let mut bytes = n.to_le_bytes().to_vec();
        bytes.push(0xAA);
        let (v, p) = Value::parse(&bytes, 0, TagType::Int32).unwrap();
        assert!(matches!(v, Value::Int32(m) if m == n));
        assert_eq!(p, 4);
    }

    for n in [0i64, -2, i64::MIN, i64::MAX, 0x0102_0304_0506_0708] {
        let bytes = n.to_le_bytes();
        let (v, p) = Value::parse(&bytes, 0, TagType::Int64).unwrap();
        assert!(matches!(v, Value::Int64(m) if m == n));
        assert_eq!(p, 8);
    }

    for x in [0.0f32, 1.5, -3.25, f32::MAX] {
        let bytes = x.to_le_bytes();
        let (v, p) = Value::parse(&bytes, 0, TagType::Float).unwrap();
        match v {
            Value::Float32(bits) => assert_eq!(f32::from_bits(bits), x),
            other => panic!("unexpected {:?}", other),
        }
        assert_eq!(p, 4);
    }

    let text = "héllo";
    let mut bytes = (text.len() as u16).to_le_bytes().to_vec();
    bytes.extend_from_slice(text.as_bytes());
    let (v, p) = Value::parse(&bytes, 0, TagType::String).unwrap();
    assert!(matches!(v, Value::Text(ref s) if s == text));
    assert_eq!(p, 2 + text.len());
}

#[test]
fn int32_exact_value() {
    let (v, _) = Value::parse(&[0xFE, 0xFF, 0xFF, 0xFF], 0, TagType::Int32).unwrap();
    assert!(matches!(v, Value::Int32(-2)));
    let (v, _) = Value::parse(&[0x01, 0x02, 0x00, 0x00], 0, TagType::Int32).unwrap();
    assert!(matches!(v, Value::Int32(513)));
}

#[test]
fn malformed_text_is_replaced_not_rejected() {
    let bytes = [3u8, 0, b'a', 0xFF, b'b'];
    let (v, p) = Value::parse(&bytes, 0, TagType::String).unwrap();
    assert!(matches!(v, Value::Text(ref s) if s == "a\u{FFFD}b"));
    assert_eq!(p, 5);
}

#[test]
fn empty_text() {
    let (v, p) = Value::parse(&[0, 0], 0, TagType::String).unwrap();
    assert!(matches!(v, Value::Text(ref s) if s.is_empty()));
    assert_eq!(p, 2);
}

#[test]
fn short_values_are_io_errors() {
    assert_eq!(Value::parse(&[], 0, TagType::Byte).err(), Some(DecodeError::Io));
    assert_eq!(Value::parse(&[1, 2, 3], 0, TagType::Int32).err(), Some(DecodeError::Io));
    assert_eq!(Value::parse(&[1; 7], 0, TagType::Int64).err(), Some(DecodeError::Io));
    assert_eq!(Value::parse(&[1, 2], 0, TagType::Float).err(), Some(DecodeError::Io));
    assert_eq!(Value::parse(&[5], 0, TagType::String).err(), Some(DecodeError::Io));
    assert_eq!(Value::parse(&[5, 0, b'a'], 0, TagType::String).err(), Some(DecodeError::Io));
    assert_eq!(Value::parse(&[1, 2, 0, 0], 0, TagType::List).err(), Some(DecodeError::Io));
    assert_eq!(Value::parse(&[1, 2, 0, 0, 0, 7], 0, TagType::List).err(), Some(DecodeError::Io));
    assert_eq!(Value::parse(&[], 0, TagType::Compound).err(), Some(DecodeError::Io));
}

#[test]
fn scenario_byte_tag() {
    let data = with_header(&[0x01, 0x01, 0x00, 0x61, 0x05, 0x00]);
    let doc = Document::read(&data).unwrap();
    assert_eq!(doc.format_version, 7);
    assert_eq!(doc.payload_length, 6);
    assert_eq!(doc.tags.len(), 1);
    assert_eq!(doc.tags[0].tag_type, TagType::Byte);
    assert_eq!(doc.tags[0].key, "a");
    assert!(matches!(leaf(&doc.tags[0]), Value::Byte(5)));
}

#[test]
fn scenario_string_tag() {
    let data = with_header(&[0x08, 0x01, 0x00, 0x62, 0x03, 0x00, 0x66, 0x6F, 0x6F, 0x00]);
    let doc = Document::read(&data).unwrap();
    assert_eq!(doc.tags.len(), 1);
    assert_eq!(doc.tags[0].tag_type, TagType::String);
    assert_eq!(doc.tags[0].key, "b");
    assert!(matches!(leaf(&doc.tags[0]), Value::Text(s) if s == "foo"));
}

#[test]
fn scenario_empty_list() {
    let data = with_header(&[0x09, 0x01, 0x00, 0x6C, 0x01, 0x00, 0x00, 0x00, 0x00, 0x00]);
    let doc = Document::read(&data).unwrap();
    assert_eq!(doc.tags.len(), 1);
    assert_eq!(doc.tags[0].tag_type, TagType::List);
    assert_eq!(doc.tags[0].key, "l");
    match leaf(&doc.tags[0]) {
        Value::List(t, items) => {
            assert_eq!(*t, TagType::Byte);
            assert!(items.is_empty());
        }
        other => panic!("unexpected {:?}", other),
    }
}

#[test]
fn scenario_nested_compound() {
    let data = with_header(&[
        0x0A, 0x01, 0x00, b'c', // outer Compound "c"
        0x01, 0x01, 0x00, b'x', 0x2A, // child Byte "x" = 42
        0x00, // end of compound
        0x00, // end of stream
    ]);
    let doc = Document::read(&data).unwrap();
    assert_eq!(doc.tags.len(), 1);
    assert_eq!(doc.tags[0].tag_type, TagType::Compound);
    assert_eq!(doc.tags[0].key, "c");
    match leaf(&doc.tags[0]) {
        Value::Compound(children) => {
            assert_eq!(children.len(), 1);
            assert_eq!(children[0].tag_type, TagType::Byte);
            assert_eq!(children[0].key, "x");
            assert!(matches!(leaf(&children[0]), Value::Byte(42)));
        }
        other => panic!("unexpected {:?}", other),
    }
    let strict = Document::read_strict(&data).unwrap();
    assert_eq!(strict.tags.len(), 1);
}

#[test]
fn scenario_truncated_stream() {
    // One full Byte tag, then a String tag cut off inside its key length.
    let data = with_header(&[0x01, 0x01, 0x00, b'a', 0x05, 0x08, 0x01]);
    let doc = Document::read(&data).unwrap();
    assert_eq!(doc.tags.len(), 1);
    assert_eq!(doc.tags[0].key, "a");
    assert!(matches!(leaf(&doc.tags[0]), Value::Byte(5)));
    assert_eq!(Document::read_strict(&data).err(), Some(DecodeError::Io));
}

#[test]
fn stream_without_terminator_keeps_its_tags() {
    let data = with_header(&[0x01, 0x01, 0x00, b'a', 0x05, 0x01, 0x01, 0x00, b'b', 0x06]);
    let doc = Document::read(&data).unwrap();
    assert_eq!(doc.tags.len(), 2);
    assert_eq!(doc.tags[1].key, "b");
    assert_eq!(Document::read_strict(&data).err(), Some(DecodeError::Io));
}

#[test]
fn header_is_required() {
    assert_eq!(Document::read(&[1, 0, 0, 0, 2, 0, 0]).err(), Some(DecodeError::Io));
    assert_eq!(Document::read_strict(&[]).err(), Some(DecodeError::Io));
    let doc = Document::read(&[0xFF, 0xFF, 0xFF, 0xFF, 1, 0, 0, 0]).unwrap();
    assert_eq!(doc.format_version, -1);
    assert_eq!(doc.payload_length, 1);
    assert!(doc.tags.is_empty());
}

#[test]
fn code_two_is_rejected_everywhere() {
    assert_eq!(Tag::parse(&[0x02, 0x01, 0x00, b'a', 0x05], 0).err(), Some(DecodeError::InvalidFormat(Some(2))));
    assert_eq!(
        Value::parse(&[0x02, 0x01, 0x00, 0x00, 0x00, 0x07], 0, TagType::List).err(),
        Some(DecodeError::InvalidFormat(Some(2)))
    );
    assert_eq!(
        Value::parse(&[0x02, 0x01, 0x00, b'a', 0x05, 0x00], 0, TagType::Compound).err(),
        Some(DecodeError::InvalidFormat(Some(2)))
    );
    // At top level the lenient reader stops there; the strict one reports it.
    let data = with_header(&[0x01, 0x01, 0x00, b'a', 0x05, 0x02, 0x01, 0x00, b'b', 0x06, 0x00]);
    assert_eq!(Document::read(&data).unwrap().tags.len(), 1);
    assert_eq!(Document::read_strict(&data).err(), Some(DecodeError::InvalidFormat(Some(2))));
}

#[test]
fn list_of_values() {
    let data = [0x03, 0x02, 0x00, 0x00, 0x00, 0x01, 0x00, 0x00, 0x00, 0xFF, 0xFF, 0xFF, 0xFF, 0x09];
    let (v, p) = Value::parse(&data, 0, TagType::List).unwrap();
    assert_eq!(p, 13);
    match v {
        Value::List(t, items) => {
            assert_eq!(t, TagType::Int32);
            assert_eq!(items.len(), 2);
            assert!(matches!(items[0], Value::Int32(1)));
            assert!(matches!(items[1], Value::Int32(-1)));
        }
        other => panic!("unexpected {:?}", other),
    }
}

#[test]
fn list_of_end_type() {
    let (v, p) = Value::parse(&[0x00, 0, 0, 0, 0], 0, TagType::List).unwrap();
    assert!(matches!(v, Value::List(TagType::End, ref items) if items.is_empty()));
    assert_eq!(p, 5);
    assert_eq!(
        Value::parse(&[0x00, 1, 0, 0, 0], 0, TagType::List).err(),
        Some(DecodeError::InvalidFormat(None))
    );
}

#[test]
fn compound_child_error_propagates() {
    // A child Int32 with only two bytes of payload.
    let data = [0x03, 0x01, 0x00, b'n', 0x01, 0x02];
    assert_eq!(Value::parse(&data, 0, TagType::Compound).err(), Some(DecodeError::Io));
}

#[test]
fn end_tag_has_no_key_or_value() {
    let (t, p) = Tag::parse(&[0x00, 0x05, 0x00], 0).unwrap();
    assert_eq!(t.tag_type, TagType::End);
    assert!(t.key.is_empty());
    assert!(t.value.is_none());
    assert_eq!(p, 1);
}

#[test]
fn tag_at_offset() {
    let data = [0xEE, 0xEE, 0x04, 0x02, 0x00, b'k', b'y', 1, 0, 0, 0, 0, 0, 0, 0x80];
    let (t, p) = Tag::parse(&data, 2).unwrap();
    assert_eq!(t.tag_type, TagType::Int64);
    assert_eq!(t.key, "ky");
    assert!(matches!(leaf(&t), Value::Int64(n) if *n == i64::MIN + 1));
    assert_eq!(p, 15);
}

#[test]
fn typed_parse_attaches_the_key() {
    let data = [0xFF, 0x10, 0x00, 0x00, 0x00];
    let (t, p) = Tag::typed_parse(&data, 1, "count".to_string(), TagType::Int32).unwrap();
    assert_eq!(t.tag_type, TagType::Int32);
    assert_eq!(t.key, "count");
    assert!(matches!(leaf(&t), Value::Int32(16)));
    assert_eq!(p, 5);
    assert_eq!(
        Tag::typed_parse(&data, 0, "e".to_string(), TagType::End).err(),
        Some(DecodeError::InvalidFormat(None))
    );
}
