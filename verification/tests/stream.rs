use az_objectstream::az_uuid::AzUuid;
use az_objectstream::error::ObjectStreamError;
use az_objectstream::stream::{
    validate_element_specialization, validate_encoding, validate_stream_version, ObjectStreamEncoding, PayloadEncoding,
    StreamTag, TypeResolutionState, ST_BINARYFLAG_HAS_NAME, ST_BINARYFLAG_HAS_VALUE,
};
use az_objectstream::tree::{Element, ObjectStream};

#[test]
fn stream_tag_classification() {
    assert!(StreamTag::binary().is_binary());
    assert!(StreamTag::xml().is_xml());
    assert!(StreamTag::json().is_json());
    assert_eq!(StreamTag::from_byte(b'<'), Some(StreamTag::xml()));
    assert_eq!(StreamTag::from_byte(b'{'), Some(StreamTag::json()));
    assert_eq!(StreamTag::from_byte(0), Some(StreamTag::binary()));
    assert_eq!(StreamTag::from_byte(b'?'), None);
}

#[test]
fn element_flag_predicates() {
    let e = Element::default().with_wire_flags(ST_BINARYFLAG_HAS_NAME | ST_BINARYFLAG_HAS_VALUE | 0x04);
    assert!(e.has_name());
    assert!(e.has_value());
    assert!(!e.has_version());
    assert!(!e.has_extra_size_field());
    assert_eq!(e.value_width(), 4);
}

fn named(name: &str, children: Vec<Element>) -> Element {
    Element::default().with_name(name.to_string()).with_children(children)
}

#[test]
fn recursive_iter_pre_order() {
    let mut stream = ObjectStream::new(3);
    stream.elements = vec![
        named("A", vec![named("B", vec![]), named("C", vec![])]),
        named("D", vec![]),
    ];
    let names: Vec<&str> = stream.preorder().into_iter().map(|e| e.name().as_str()).collect();
    assert_eq!(names, vec!["A", "B", "C", "D"]);
}

#[test]
fn element_recursive_iter_pre_order() {
    let element = named("A", vec![named("B", vec![named("C", vec![])]), named("D", vec![])]);
    let names: Vec<&str> = element.preorder().into_iter().map(|e| e.name().as_str()).collect();
    assert_eq!(names, vec!["A", "B", "C", "D"]);
}

#[test]
fn stream_versions_through_three_are_accepted() {
    for v in 0..=3 {
        assert_eq!(validate_stream_version(v).unwrap(), v);
    }
    assert!(matches!(validate_stream_version(4), Err(ObjectStreamError::UnsupportedVersion(4))));
}

#[test]
fn only_version_two_streams_carry_a_specialization() {
    let id = AzUuid::from_u128(7);
    let spec = Some(AzUuid::from_u128(8));
    validate_element_specialization(2, id, spec).unwrap();
    for v in [0, 1, 3] {
        assert!(matches!(
            validate_element_specialization(v, id, spec),
            Err(ObjectStreamError::UnexpectedSpecialization { stream_version, type_id })
                if stream_version == v && type_id == id
        ));
        validate_element_specialization(v, id, None).unwrap();
    }
}

#[test]
fn encoding_check_reads_the_leading_tag() {
    assert!(matches!(validate_encoding(&[], ObjectStreamEncoding::Binary), Err(ObjectStreamError::Io(_))));
    validate_encoding(b"<ObjectStream/>", ObjectStreamEncoding::Xml).unwrap();
    assert!(matches!(
        validate_encoding(b"{}", ObjectStreamEncoding::Xml),
        Err(ObjectStreamError::UnexpectedEncoding { expected: ObjectStreamEncoding::Xml, actual: ObjectStreamEncoding::Json })
    ));
    assert!(matches!(validate_encoding(b"?", ObjectStreamEncoding::Xml), Err(ObjectStreamError::InvalidStreamTag(b'?'))));
}

#[test]
fn encodings_map_to_tags_and_extensions() {
    assert_eq!(ObjectStreamEncoding::from_tag_byte(b'<'), Some(ObjectStreamEncoding::Xml));
    assert_eq!(ObjectStreamEncoding::from_tag(StreamTag::json()), Some(ObjectStreamEncoding::Json));
    assert_eq!(ObjectStreamEncoding::Binary.stream_tag(), StreamTag::binary());
    assert_eq!(ObjectStreamEncoding::Xml.extension(), "xml");
    assert_eq!(ObjectStreamEncoding::Binary.extension(), "");
    assert_eq!(ObjectStreamEncoding::Json.label(), "json");
    assert_eq!(StreamTag::xml().label(), "XML");
}

#[test]
fn stream_encoding_follows_its_tag() {
    let mut stream = ObjectStream::new(2);
    assert_eq!(stream.version(), 2);
    assert_eq!(stream.encoding().unwrap(), ObjectStreamEncoding::Binary);
    stream.tag = StreamTag(9);
    assert!(matches!(stream.encoding(), Err(ObjectStreamError::InvalidStreamTag(9))));
}

#[test]
fn element_builders_and_accessors() {
    let id = AzUuid::from_u128(0x55);
    let e = Element::new(id)
        .with_name_crc(3)
        .with_version(4)
        .with_specialization(AzUuid::from_u128(6))
        .with_declared_data_size(2)
        .with_payload_encoding(PayloadEncoding::Text)
        .with_field("Slot".to_string())
        .with_data(vec![1, 2]);
    assert_eq!(*e.raw_type_id(), id);
    assert_eq!(e.name_crc(), Some(3));
    assert_eq!(e.version(), Some(4));
    assert_eq!(e.specialization(), Some(AzUuid::from_u128(6)));
    assert_eq!(e.data(), Some(&[1u8, 2][..]));
    assert_eq!(e.payload_encoding(), PayloadEncoding::Text);
    assert_eq!(e.field().map(String::as_str), Some("Slot"));
    assert_eq!(e.type_resolution(), TypeResolutionState::Raw);
    assert_eq!(e.resolved_type_id(), None);
    assert!(e.is_leaf());
}

#[test]
fn children_are_found_and_removed_by_first_matching_crc() {
    let mut parent = Element::default().with_children(vec![
        named("a", vec![]).with_name_crc(1),
        named("b", vec![]).with_name_crc(2),
        named("c", vec![]).with_name_crc(2),
    ]);
    assert_eq!(parent.child_by_name_crc(2).map(|c| c.name().as_str()), Some("b"));
    assert_eq!(parent.child_index_by_name_crc(2), Some(1));
    assert!(parent.child_by_name_crc(9).is_none());
    let removed = parent.remove_child_by_name_crc(2).unwrap();
    assert_eq!(removed.name(), "b");
    assert_eq!(parent.children().len(), 2);
    assert_eq!(parent.child_by_name_crc(2).map(|c| c.name().as_str()), Some("c"));
    assert!(parent.remove_child_by_name_crc(9).is_none());
    assert_eq!(parent.children().len(), 2);
}

#[test]
fn first_matching_child_can_be_edited_in_place() {
    let mut parent = Element::default().with_children(vec![
        named("a", vec![]).with_name_crc(1),
        named("b", vec![]).with_name_crc(2),
    ]);
    if let Some(child) = parent.child_by_name_crc_mut(2) {
        child.version = Some(9);
    }
    assert_eq!(parent.children()[1].version(), Some(9));
    assert!(parent.child_by_name_crc_mut(3).is_none());
}

#[test]
fn find_returns_the_first_match_in_pre_order() {
    let element = named("A", vec![named("B", vec![named("C", vec![]).with_version(1)]), named("C", vec![]).with_version(2)]);
    let found = element.find(&|e: &Element| e.name() == "C").unwrap();
    assert_eq!(found.version(), Some(1));
    assert!(element.find(&|e: &Element| e.name() == "Z").is_none());
    assert_eq!(element.find(&|_: &Element| true).map(|e| e.name().as_str()), Some("A"));

    let mut stream = ObjectStream::new(3);
    stream.elements = vec![named("X", vec![]), element];
    assert_eq!(stream.find(|e: &Element| e.version() == Some(2)).map(|e| e.name().as_str()), Some("C"));
    assert!(stream.find(|e: &Element| e.name() == "none").is_none());
}
