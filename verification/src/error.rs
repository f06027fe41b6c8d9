//! Errors a stream read or a reflection-context operation reports.
use vstd::prelude::*;

use crate::az_uuid::AzUuid;
use crate::codec::ValueCodecError;
use crate::context::{ContainerCardinality, ReflectedClassKey, SerializerRegistrationError};
use crate::stream::ObjectStreamEncoding;

verus! {

/// The error `std::io` reports.
#[verifier::external_type_specification]
#[verifier::external_body]
pub struct ExIoError(std::io::Error);

/// The error `quick_xml`'s serde deserializer reports.
#[verifier::external_type_specification]
#[verifier::external_body]
pub struct ExDeError(quick_xml::DeError);

/// The error `serde_json` reports.
#[verifier::external_type_specification]
#[verifier::external_body]
pub struct ExJsonError(serde_json::Error);

/// The error the `uuid` crate reports for malformed UUID text or bytes.
#[verifier::external_type_specification]
#[verifier::external_body]
pub struct ExUuidError(uuid::Error);

#[derive(Debug)]
#[allow(inconsistent_fields)]
pub enum ObjectStreamError {
    /// The reader failed or ended early.
    Io(std::io::Error),
    /// Not a valid `ObjectStream` payload tag.
    InvalidStreamTag(u8),
    /// Stream version above 3.
    UnsupportedVersion(u32),
    /// A binary element header whose flag byte is not a legal combination.
    InvalidElementFlags(u8),
    /// Bytes remain after the root terminator.
    TrailingDataAfterRoot,
    /// The payload tag names another encoding than the one requested.
    UnexpectedEncoding { expected: ObjectStreamEncoding, actual: ObjectStreamEncoding },
    /// A text payload is not UTF-8.
    Utf8(std::str::Utf8Error),
    /// Malformed XML document.
    Xml(quick_xml::DeError),
    /// Malformed JSON document.
    Json(serde_json::Error),
    /// An extra-size field that is not 1, 2 or 4 bytes wide.
    UnsupportedSizeWidth(u8),
    /// A malformed type UUID in an element header.
    Uuid(uuid::Error),
    /// A leaf's text payload cannot be decoded by its codec.
    ValueConversion { type_id: AzUuid, source: ValueCodecError },
    DeprecatedClass { type_id: AzUuid },
    NewerClassVersion { type_id: AzUuid, element_version: u32, current_version: u32 },
    UnsupportedVersionConversion { type_id: AzUuid, element_version: u32, current_version: u32 },
    UnsupportedDataConversion { target_type_id: AzUuid, source_type_id: AzUuid },
    /// A captured serializer has no executable codec.
    UnsupportedSerializer { type_id: AzUuid },
    /// A payload on a class with no serializer.
    MissingSerializer { type_id: AzUuid },
    UnresolvedElementType { type_id: AzUuid },
    /// Several distinct generic targets: resolution is ambiguous.
    AmbiguousGenericType { type_id: AzUuid },
    UnresolvedClassData { class: ReflectedClassKey },
    MissingV2Specialization { type_id: AzUuid },
    UnexpectedSpecialization { stream_version: u32, type_id: AzUuid },
    ElementVersionOverflow { version: u32 },
    PayloadTooLarge { type_id: AzUuid, size: usize },
    InvalidContainerCardinality { type_id: AzUuid, expected: Option<ContainerCardinality>, actual: usize },
    UnsupportedContainerSemantics { type_id: AzUuid },
    MissingContainerCardinality { type_id: AzUuid },
    FieldCrcMismatch { field: String, stored: u32, computed: u32 },
    MissingFieldName { crc: u32 },
    MissingTypeName { type_id: AzUuid },
    UnexpectedReachableChild { parent_type_id: AzUuid, child_type_id: AzUuid, name_crc: Option<u32> },
    InvalidDataOverlay(String),
    MissingDataOverlayProvider { provider_id: u32 },
    /// The reflection context's registrations are incomplete.
    IncompleteReadContext(SerializerRegistrationError),
}

/// An `UnexpectedEof` I/O error for an empty payload.
#[verifier::external_body]
pub(crate) fn empty_payload_error() -> (r: std::io::Error) {
    std::io::Error::new(std::io::ErrorKind::UnexpectedEof, "empty ObjectStream payload")
}

} // verus!
