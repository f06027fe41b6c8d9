use az_objectstream::az_uuid::AzUuid;
use az_objectstream::codec::{
    BuiltinSerializerDescriptor, BuiltinSerializerKind, EncodedPayload, TextEncoding, ValueCodecError,
};
use az_objectstream::context::{
    asset_type_id_constant, SerializerRegistrationError, ObjectStreamDialect, ObjectStreamReadContext, ReflectedClass, ReflectedClassKey,
};
use az_objectstream::convert::ObjectStreamConverters;
use az_objectstream::crc::field_name_crc;
use az_objectstream::error::ObjectStreamError;
use az_objectstream::reader::{open_binary_element, BinaryElementHeader};
use az_objectstream::stream::{detect_encoding, ObjectStreamEncoding, PayloadEncoding, TypeResolutionState};
use az_objectstream::text_reader::{
    json_element, read_text_stream, xml_element, xml_name_identifies_type, ObjectStreamTextCodecs, TextElement,
    TextValue,
};
use az_objectstream::tree::{Element, ObjectStream};

const INT: u128 = 0x72039442_EB38_4D42_A1AD_CB68F7E0EEF6;
const BOOL: u128 = 0xA0CA880C_AFE4_43CB_926C_59AC48496112;

struct NoConverters;

impl ObjectStreamConverters for NoConverters {
    fn convert_version(&self, _: ReflectedClassKey, e: Element, from: u32, to: u32) -> Result<Element, ObjectStreamError> {
        Err(ObjectStreamError::UnsupportedVersionConversion { type_id: e.id, element_version: from, current_version: to })
    }

    fn convert_data(
        &self,
        _: ReflectedClassKey,
        _: Element,
        source_type_id: AzUuid,
        target_type_id: AzUuid,
    ) -> Result<Element, ObjectStreamError> {
        Err(ObjectStreamError::UnsupportedDataConversion { target_type_id, source_type_id })
    }
}

/// No executable or floating-point codecs.
struct NoTextCodecs;

impl ObjectStreamTextCodecs for NoTextCodecs {
    fn external_text_to_data(
        &self,
        _: ReflectedClassKey,
        _: AzUuid,
        _: &str,
        _: u32,
        _: TextEncoding,
    ) -> Result<EncodedPayload, ValueCodecError> {
        Err(ValueCodecError::NonStringJsonValue)
    }

    fn float_text_to_data(&self, _: BuiltinSerializerDescriptor, _: &str) -> Result<EncodedPayload, ValueCodecError> {
        Err(ValueCodecError::NonStringJsonValue)
    }
}

/// The builtin serializers of `int` and `bool`.
fn builtin_types() -> [(AzUuid, BuiltinSerializerKind); 2] {
    [(AzUuid::from_u128(INT), BuiltinSerializerKind::I32), (AzUuid::from_u128(BOOL), BuiltinSerializerKind::Bool)]
}

fn text(name: &str, id: u128) -> TextElement {
    TextElement {
        name: name.to_string(),
        field: None,
        value: None,
        version: None,
        id: AzUuid::from_u128(id),
        specialization: None,
        children: Vec::new(),
    }
}

fn read(
    xml: bool,
    version: u32,
    roots: Vec<TextElement>,
    context: Option<&ObjectStreamReadContext>,
    intrinsic: &[(AzUuid, &str)],
) -> Result<ObjectStream, ObjectStreamError> {
    read_text_stream(xml, version, roots, None, context, &NoConverters, &NoTextCodecs, intrinsic, &builtin_types())
}

fn int_context() -> ObjectStreamReadContext {
    let mut context = ObjectStreamReadContext::default();
    let class = context.insert_class(AzUuid::from_u128(INT), ReflectedClass::new(AzUuid::from_u128(INT))).unwrap();
    context.insert_builtin_codec(class, AzUuid::from_u128(INT), 0, &builtin_types()).unwrap();
    context
}

#[test]
fn xml_field_overrides_legacy_name_for_crc() {
    let mut current = text("Legacy", INT);
    current.field = Some("Current".to_string());
    let stream = read(true, 3, vec![current, text("LegacyOnly", INT)], None, &[]).unwrap();
    let element = &stream.elements[0];
    assert_eq!(element.field().map(String::as_str), Some("Current"));
    assert_eq!(element.name_crc(), Some(field_name_crc("Current")));
    let legacy = &stream.elements[1];
    assert_eq!(legacy.field().map(String::as_str), Some("LegacyOnly"));
    assert_eq!(legacy.name_crc(), Some(field_name_crc("LegacyOnly")));
}

#[test]
fn xml_type_labels_without_fields_remain_anonymous() {
    let intrinsic = [(AzUuid::from_u128(BOOL), "bool")];
    let roots = vec![text("bool", BOOL), text("AZStd::vector<AZStd::string>", 0x99)];
    let stream = read(true, 3, roots, None, &intrinsic).unwrap();
    for element in &stream.elements {
        assert_eq!(element.field(), None);
        assert_eq!(element.name_crc(), None);
    }
}

#[test]
fn json_value_must_be_a_string() {
    let mut value = text("", INT);
    value.value = Some(TextValue::Other);
    assert!(matches!(
        read(false, 3, vec![value], Some(&int_context()), &[]),
        Err(ObjectStreamError::ValueConversion { source: ValueCodecError::NonStringJsonValue, .. })
    ));
}

#[test]
fn v2_missing_specialization_matches_native_xml_and_json_asymmetry() {
    let raw = AzUuid::from_u128(0x77);
    let mut context = ObjectStreamReadContext::default();
    context.insert_class(raw, ReflectedClass::new(raw)).unwrap();
    assert!(matches!(
        read(true, 2, vec![text("Value", 0x77)], Some(&context), &[]),
        Err(ObjectStreamError::UnresolvedElementType { type_id }) if type_id == raw
    ));
    let json = read(false, 2, vec![text("", 0x77)], Some(&context), &[]).unwrap();
    assert_eq!(json.elements()[0].resolved_type_id(), Some(raw));
}

#[test]
fn context_aware_load_rejects_unresolved_v2_before_typed_decode() {
    let mut count = text("Count", 1);
    count.value = Some(TextValue::Text("42".to_string()));
    count.specialization = Some(AzUuid::from_u128(2));
    assert!(matches!(
        read(true, 2, vec![count], Some(&ObjectStreamReadContext::default()), &[]),
        Err(ObjectStreamError::UnresolvedElementType { type_id }) if type_id == AzUuid::from_u128(1)
    ));
}

#[test]
fn no_context_decodes_builtin_payload_without_assigning_semantic_identity() {
    let mut count = text("Count", INT);
    count.value = Some(TextValue::Text("42".to_string()));
    let stream = read(true, 3, vec![count], None, &[]).unwrap();
    let element = &stream.elements[0];
    assert_eq!(element.type_resolution(), TypeResolutionState::Raw);
    assert_eq!(element.payload_encoding(), PayloadEncoding::BinaryBigEndian);
    assert_eq!(element.data(), Some(&[0u8, 0, 0, 42][..]));
    assert_eq!(element.data_size, Some(4));
}

#[test]
fn lumberyard_v2_asset_missing_specialization_uses_raw_asset_class() {
    let asset = asset_type_id_constant();
    let mut context = ObjectStreamReadContext::default().with_dialect(ObjectStreamDialect::Lumberyard);
    context.insert_class(asset, ReflectedClass::new(asset)).unwrap();
    let stream = read(true, 2, vec![text("Asset", asset.as_u128())], Some(&context), &[]).unwrap();
    assert_eq!(stream.elements()[0].resolved_type_id(), Some(asset));
}

#[test]
fn xml_rejects_unsupported_stream_version() {
    assert!(matches!(read(true, 74, Vec::new(), None, &[]), Err(ObjectStreamError::UnsupportedVersion(74))));
}

#[test]
fn json_accepts_historical_stream_version_zero() {
    let stream = read(false, 0, Vec::new(), None, &[]).unwrap();
    assert_eq!(stream.version(), 0);
}

#[test]
fn text_streams_carry_their_tag_and_keep_root_order() {
    let stream = read(false, 1, vec![text("", 5), text("", 6)], None, &[]).unwrap();
    assert_eq!(stream.encoding().unwrap(), ObjectStreamEncoding::Json);
    let ids: Vec<u128> = stream.elements().iter().map(|e| e.raw_type_id().as_u128()).collect();
    assert_eq!(ids, vec![5, 6]);
    assert_eq!(stream.skipped_children, 0);
    let xml = read(true, 1, Vec::new(), None, &[]).unwrap();
    assert_eq!(xml.encoding().unwrap(), ObjectStreamEncoding::Xml);
}

#[test]
fn text_children_are_read_in_order() {
    let mut root = text("Root", 1);
    let mut child = text("child", 2);
    child.children.push(text("leaf", 3));
    root.children.push(child);
    root.children.push(text("other", 4));
    let stream = read(true, 3, vec![root], None, &[]).unwrap();
    let root = &stream.elements[0];
    assert_eq!(root.children().len(), 2);
    assert_eq!(root.children()[0].children()[0].raw_type_id().as_u128(), 3);
    assert_eq!(root.children()[1].field().map(String::as_str), Some("other"));
}

#[test]
fn specialization_outside_version_two_is_rejected() {
    let mut element = text("", 1);
    element.specialization = Some(AzUuid::from_u128(2));
    let mut skipped = 0usize;
    assert!(matches!(
        json_element(element, 3, None, None, &NoConverters, &NoTextCodecs, &builtin_types(), None, false, &mut skipped),
        Err(ObjectStreamError::UnexpectedSpecialization { stream_version: 3, .. })
    ));
}

#[test]
fn raw_xml_element_without_value_has_no_payload() {
    let mut skipped = 0usize;
    let element = xml_element(text("Name", 9), 1, None, None, &NoConverters, &NoTextCodecs, &[], &builtin_types(), None, false, &mut skipped)
        .unwrap()
        .unwrap();
    assert_eq!(element.data(), None);
    assert_eq!(element.payload_encoding(), PayloadEncoding::Text);
    assert_eq!(element.field().map(String::as_str), Some("Name"));
    assert_eq!(skipped, 0);
}

#[test]
fn unknown_raw_value_is_kept_as_text() {
    let mut element = text("", 9);
    element.value = Some(TextValue::Text("hello".to_string()));
    let stream = read(false, 3, vec![element], None, &[]).unwrap();
    assert_eq!(stream.elements[0].data(), Some(&b"hello"[..]));
    assert_eq!(stream.elements[0].payload_encoding(), PayloadEncoding::Text);
}

#[test]
fn incomplete_context_is_refused_before_reading() {
    let mut context = ObjectStreamReadContext::default();
    let _reserved = context.reserve_class_data();
    assert!(matches!(
        read(true, 74, Vec::new(), Some(&context), &[]),
        Err(ObjectStreamError::IncompleteReadContext(_))
    ));
}

#[test]
fn type_names_are_recognised() {
    let intrinsic = [(AzUuid::from_u128(BOOL), "bool")];
    assert!(xml_name_identifies_type(AzUuid::from_u128(BOOL), "bool", &intrinsic));
    assert!(!xml_name_identifies_type(AzUuid::from_u128(INT), "bool", &intrinsic));
    assert!(xml_name_identifies_type(AzUuid::from_u128(1), "AZ::Entity", &intrinsic));
    assert!(xml_name_identifies_type(AzUuid::from_u128(1), "AZStd::vector<int>", &intrinsic));
    assert!(!xml_name_identifies_type(AzUuid::from_u128(1), "Transform", &intrinsic));
}

#[test]
fn payload_tags_name_their_encoding() {
    assert_eq!(detect_encoding(b"<ObjectStream/>").unwrap(), ObjectStreamEncoding::Xml);
    assert_eq!(detect_encoding(b"{}").unwrap(), ObjectStreamEncoding::Json);
    assert_eq!(detect_encoding(&[0, 0, 0, 0, 3]).unwrap(), ObjectStreamEncoding::Binary);
    assert!(matches!(detect_encoding(b"x"), Err(ObjectStreamError::InvalidStreamTag(b'x'))));
    assert!(matches!(detect_encoding(&[]), Err(ObjectStreamError::Io(_))));
}

#[test]
fn binary_xml_and_json_raw_reads_agree() {
    let header = BinaryElementHeader {
        flags: 0x48,
        name_crc: Some(field_name_crc("Value")),
        version: Some(2),
        id: AzUuid::from_u128(0x77),
        specialization: None,
        data_size: None,
        name: None,
        field: Some("Value".to_string()),
    };
    let opened = open_binary_element(&header, 3, None, None, &[]).unwrap().element;
    let mut spelled = text("Value", 0x77);
    spelled.version = Some(2);
    let xml = read(true, 3, vec![spelled], None, &[]).unwrap();
    let mut spelled = text("", 0x77);
    spelled.version = Some(2);
    spelled.field = Some("Value".to_string());
    let json = read(false, 3, vec![spelled], None, &[]).unwrap();
    for e in [&xml.elements[0], &json.elements[0]] {
        assert_eq!(e.raw_type_id(), opened.raw_type_id());
        assert_eq!(e.version(), opened.version());
        assert_eq!(e.name_crc(), opened.name_crc());
        assert_eq!(e.field(), opened.field());
        assert_eq!(e.type_resolution(), opened.type_resolution());
        assert_eq!(e.specialization(), opened.specialization());
    }
}

#[test]
fn raw_values_decode_through_the_builtin_table() {
    let mut flag = text("Flag", BOOL);
    flag.value = Some(TextValue::Text("true".to_string()));
    let mut bad = text("Count", INT);
    bad.value = Some(TextValue::Text("forty".to_string()));
    let stream = read(true, 3, vec![flag], None, &[]).unwrap();
    assert_eq!(stream.elements[0].data(), Some(&[1u8][..]));
    assert_eq!(stream.elements[0].payload_encoding(), PayloadEncoding::BinaryBigEndian);
    assert!(matches!(
        read(true, 3, vec![bad], None, &[]),
        Err(ObjectStreamError::ValueConversion { type_id, .. }) if type_id == AzUuid::from_u128(INT)
    ));
}

#[test]
fn builtin_codec_registration_checks_kind_and_asset_version() {
    let asset = asset_type_id_constant();
    let table = [(AzUuid::from_u128(INT), BuiltinSerializerKind::I32), (asset, BuiltinSerializerKind::Asset)];
    let mut context = ObjectStreamReadContext::default();
    let int_class = context.insert_class(AzUuid::from_u128(INT), ReflectedClass::new(AzUuid::from_u128(INT))).unwrap();
    let asset_class = context.insert_class(asset, ReflectedClass::new(asset)).unwrap();
    assert_eq!(
        context.insert_builtin_codec(int_class, AzUuid::from_u128(0x99), 0, &table),
        Err(SerializerRegistrationError::UnsupportedSerializer { type_id: AzUuid::from_u128(0x99) })
    );
    assert_eq!(
        context.insert_builtin_codec_descriptor(
            int_class,
            AzUuid::from_u128(INT),
            BuiltinSerializerDescriptor::new(BuiltinSerializerKind::U8, 0),
            &table
        ),
        Err(SerializerRegistrationError::DescriptorKindMismatch {
            type_id: AzUuid::from_u128(INT),
            expected: BuiltinSerializerKind::I32,
            actual: BuiltinSerializerKind::U8,
        })
    );
    assert_eq!(
        context.insert_builtin_codec(asset_class, asset, 3, &table),
        Err(SerializerRegistrationError::UnsupportedAssetVersion { version: 3 })
    );
    assert_eq!(context.insert_builtin_codec(asset_class, asset, 2, &table), Ok(()));
    assert_eq!(context.insert_builtin_codec(int_class, AzUuid::from_u128(INT), 0, &table), Ok(()));
    assert!(context.codec(int_class).is_some());
}

#[test]
fn registered_int_codec_decodes_json_text() {
    let mut value = text("", INT);
    value.value = Some(TextValue::Text("-2".to_string()));
    let stream = read(false, 3, vec![value], Some(&int_context()), &[]).unwrap();
    assert_eq!(stream.elements[0].data(), Some(&(-2i32).to_le_bytes()[..]));
    assert_eq!(stream.elements[0].payload_encoding(), PayloadEncoding::BinaryNativeEndian);
}

#[test]
fn binary_and_text_payload_reads_agree() {
    let header = BinaryElementHeader {
        flags: 0x08 | 0x40 | 0x10 | 4,
        name_crc: Some(field_name_crc("Count")),
        version: None,
        id: AzUuid::from_u128(INT),
        specialization: None,
        data_size: Some(4),
        name: None,
        field: Some("Count".to_string()),
    };
    let binary = open_binary_element(&header, 3, None, None, &[]).unwrap().with_payload(vec![0, 0, 0, 42]).element;
    let mut count = text("", INT);
    count.field = Some("Count".to_string());
    count.value = Some(TextValue::Text("42".to_string()));
    let json = read(false, 3, vec![count], None, &[]).unwrap();
    let e = &json.elements[0];
    assert_eq!(e.data(), binary.data());
    assert_eq!(e.data_size, binary.data_size);
    assert_eq!(e.payload_encoding(), binary.payload_encoding());
    assert_eq!(e.name_crc(), binary.name_crc());
    assert_eq!(e.field(), binary.field());
}

#[test]
fn raw_children_keep_input_order_at_every_depth() {
    let mut root = text("Root", 1);
    let mut first = text("first", 2);
    first.children.push(text("deep", 5));
    root.children.push(first);
    root.children.push(text("second", 3));
    root.children.push(text("third", 4));
    let stream = read(true, 3, vec![root], None, &[]).unwrap();
    let ids: Vec<u128> = stream.elements[0].children().iter().map(|c| c.raw_type_id().as_u128()).collect();
    assert_eq!(ids, vec![2, 3, 4]);
    assert_eq!(stream.elements[0].children()[0].children()[0].field().map(String::as_str), Some("deep"));
}
