use az_objectstream::az_uuid::AzUuid;
use az_objectstream::binary::{read_binary_stream, read_step, BinaryStep};
use az_objectstream::context::{ObjectStreamReadContext, ReflectedClass, ReflectedClassKey};
use az_objectstream::convert::ObjectStreamConverters;
use az_objectstream::error::ObjectStreamError;
use az_objectstream::lookup::LumberyardHashes;
use az_objectstream::stream::{StreamTag, TypeResolutionState, ST_BINARYFLAG_HAS_VALUE};
use az_objectstream::tree::{Element, ObjectStream};

struct NoConverters;

impl ObjectStreamConverters for NoConverters {
    fn convert_version(&self, _: ReflectedClassKey, e: Element, from: u32, to: u32) -> Result<Element, ObjectStreamError> {
        Err(ObjectStreamError::UnsupportedVersionConversion { type_id: e.id, element_version: from, current_version: to })
    }

    fn convert_data(
        &self,
        _: ReflectedClassKey,
        _: Element,
        source_type_id: AzUuid,
        target_type_id: AzUuid,
    ) -> Result<Element, ObjectStreamError> {
        Err(ObjectStreamError::UnsupportedDataConversion { target_type_id, source_type_id })
    }
}

fn read(bytes: &[u8]) -> Result<ObjectStream, ObjectStreamError> {
    read_binary_stream(bytes, None, None, &NoConverters)
}

const ID: u128 = 0x72039442_EB38_4D42_A1AD_CB68F7E0EEF6;

/// Version 3: one named element with a four-byte value and one child.
fn sample() -> Vec<u8> {
    let mut b = vec![0x00, 0x00, 0x00, 0x00, 0x03];
    b.push(0x08 | 0x40 | 0x10 | 4);
    b.extend_from_slice(&0x1234_5678u32.to_be_bytes());
    b.extend_from_slice(&ID.to_be_bytes());
    b.extend_from_slice(&[0, 0, 0, 42]);
    b.push(0x08 | 0x80);
    b.push(2);
    b.extend_from_slice(&7u128.to_be_bytes());
    b.push(0x00);
    b.push(0x00);
    b.push(0x00);
    b
}

#[test]
fn binary_round_trip_empty() {
    let parsed = read(&[0, 0, 0, 0, 3, 0]).unwrap();
    assert_eq!(parsed.version, 3);
    assert!(parsed.elements.is_empty());
}

#[test]
fn binary_rejects_unsupported_stream_version() {
    let bytes = [0x00, 0x00, 0x01, 0x00, 0x02, 0x00];
    assert!(matches!(read(&bytes).unwrap_err(), ObjectStreamError::UnsupportedVersion(65538)));
}

#[test]
fn binary_version_zero_uses_the_pre_specialization_header() {
    assert_eq!(read(&[0, 0, 0, 0, 0, 0]).unwrap().version(), 0);
}

#[test]
fn binary_rejects_trailing_bytes_after_root_terminator() {
    let bytes = [0x00, 0x00, 0x00, 0x00, 0x03, 0x00, 0xFF];
    assert!(matches!(read(&bytes).unwrap_err(), ObjectStreamError::TrailingDataAfterRoot));
}

#[test]
fn binary_rejects_element_flags_without_header_bit() {
    let bytes = [0x00, 0x00, 0x00, 0x00, 0x03, ST_BINARYFLAG_HAS_VALUE, 0x00];
    assert!(matches!(
        read(&bytes).unwrap_err(),
        ObjectStreamError::InvalidElementFlags(ST_BINARYFLAG_HAS_VALUE)
    ));
}

#[test]
fn empty_truncated_and_foreign_payloads_are_refused() {
    assert!(matches!(read(&[]), Err(ObjectStreamError::Io(_))));
    assert!(matches!(read(&[0, 0, 0]), Err(ObjectStreamError::Io(_))));
    assert!(matches!(read(b"<x/>"), Err(ObjectStreamError::InvalidStreamTag(b'<'))));
    assert!(matches!(read(&[0, 0, 0, 0, 3]), Err(ObjectStreamError::Io(_))));
    let mut cut = sample();
    cut.truncate(20);
    assert!(matches!(read(&cut), Err(ObjectStreamError::Io(_))));
}

#[test]
fn elements_payloads_and_children_are_read() {
    let stream = read(&sample()).unwrap();
    assert_eq!(stream.tag, StreamTag(0));
    assert_eq!(stream.elements.len(), 1);
    let root = &stream.elements[0];
    assert_eq!(root.raw_type_id().as_u128(), ID);
    assert_eq!(root.name_crc(), Some(0x1234_5678));
    assert_eq!(root.data(), Some(&[0u8, 0, 0, 42][..]));
    assert_eq!(root.data_size, Some(4));
    assert_eq!(root.type_resolution(), TypeResolutionState::Raw);
    assert_eq!(root.children().len(), 1);
    let child = &root.children()[0];
    assert_eq!(child.version(), Some(2));
    assert_eq!(child.raw_type_id().as_u128(), 7);
    assert_eq!(child.data(), None);
}

#[test]
fn extra_size_fields_carry_wider_payloads() {
    let mut b = vec![0x00, 0x00, 0x00, 0x00, 0x01];
    b.push(0x08 | 0x10 | 0x20 | 2);
    b.extend_from_slice(&ID.to_be_bytes());
    b.extend_from_slice(&[0x00, 0x03]);
    b.extend_from_slice(b"abc");
    b.push(0x00);
    b.push(0x00);
    let stream = read(&b).unwrap();
    assert_eq!(stream.elements[0].data(), Some(&b"abc"[..]));
    let mut bad = vec![0x00, 0x00, 0x00, 0x00, 0x01];
    bad.push(0x08 | 0x10 | 0x20 | 3);
    bad.extend_from_slice(&ID.to_be_bytes());
    bad.extend_from_slice(&[0, 0, 0, 0]);
    assert!(matches!(read(&bad), Err(ObjectStreamError::UnsupportedSizeWidth(3))));
}

#[test]
fn version_two_headers_carry_a_specialization() {
    let mut b = vec![0x00, 0x00, 0x00, 0x00, 0x02, 0x08];
    b.extend_from_slice(&ID.to_be_bytes());
    b.extend_from_slice(&9u128.to_be_bytes());
    b.push(0x00);
    b.push(0x00);
    let stream = read(&b).unwrap();
    assert_eq!(stream.elements[0].specialization(), Some(AzUuid::from_u128(9)));
}

#[test]
fn step_reader_names_fields_from_the_hash_table() {
    let mut names = LumberyardHashes::new();
    names.extend_field_names(&["Value"]);
    let crc = az_objectstream::crc::field_name_crc("Value");
    let mut b = vec![0x08 | 0x40];
    b.extend_from_slice(&crc.to_be_bytes());
    b.extend_from_slice(&ID.to_be_bytes());
    match read_step(&b, 0, 3, Some(&names)).unwrap() {
        (BinaryStep::Element { header, payload }, next) => {
            assert_eq!(next, b.len());
            assert_eq!(header.field.as_deref(), Some("Value"));
            assert!(payload.is_none());
        }
        (BinaryStep::EndOfList, _) => panic!("expected an element"),
    }
}

#[test]
fn context_reads_resolve_elements() {
    let mut context = ObjectStreamReadContext::default();
    context.insert_class(AzUuid::from_u128(ID), ReflectedClass::new(AzUuid::from_u128(ID))).unwrap();
    let mut b = vec![0x00, 0x00, 0x00, 0x00, 0x03, 0x08];
    b.extend_from_slice(&ID.to_be_bytes());
    b.push(0x00);
    b.push(0x00);
    let stream = read_binary_stream(&b, None, Some(&context), &NoConverters).unwrap();
    assert_eq!(stream.elements[0].type_resolution(), TypeResolutionState::Resolved);
    let unknown = read_binary_stream(&sample(), None, Some(&context), &NoConverters);
    assert!(matches!(unknown, Err(ObjectStreamError::MissingSerializer { type_id }) if type_id == AzUuid::from_u128(ID)));
}
