//! Stream-level vocabulary: leading tag byte, encodings, element header
//! flag bits and the version rules shared by every reader and writer.
use vstd::prelude::*;

verus! {

/// Top-5-bit mask isolating element-header flag bits.
pub const ST_BINARYFLAG_MASK: u8 = 0xF8;
/// Bottom-3-bit mask: encoded value-byte width (1, 2, or 4).
pub const ST_BINARY_VALUE_SIZE_MASK: u8 = 0x07;
/// Bit set when the byte introduces a new element header.
pub const ST_BINARYFLAG_ELEMENT_HEADER: u8 = 8;
pub const ST_BINARYFLAG_HAS_VALUE: u8 = 16;
pub const ST_BINARYFLAG_EXTRA_SIZE_FIELD: u8 = 32;
pub const ST_BINARYFLAG_HAS_NAME: u8 = 64;
pub const ST_BINARYFLAG_HAS_VERSION: u8 = 128;
/// Sentinel byte that terminates the current element list.
pub const ST_BINARYFLAG_ELEMENT_END: u8 = 0;

pub const BINARY_STREAM_TAG: u8 = 0;
pub const XML_STREAM_TAG: u8 = 60;
pub const JSON_STREAM_TAG: u8 = 123;

/// Newest `ObjectStream` version the format defines.
pub const MAX_STREAM_VERSION: u32 = 3;

/// First byte of an `ObjectStream` payload: flags the binary / XML / JSON
/// variant.
#[derive(Clone, Copy, Debug, PartialEq, Eq, Hash, Structural)]
pub struct StreamTag(pub u8);

impl StreamTag {
    /// The binary tag byte.
    pub fn binary() -> (r: StreamTag)
        ensures
            r.0 == BINARY_STREAM_TAG,
    {
        StreamTag(BINARY_STREAM_TAG)
    }

    /// The XML tag byte (`<`).
    pub fn xml() -> (r: StreamTag)
        ensures
            r.0 == XML_STREAM_TAG,
    {
        StreamTag(XML_STREAM_TAG)
    }

    /// The JSON tag byte (`{`).
    pub fn json() -> (r: StreamTag)
        ensures
            r.0 == JSON_STREAM_TAG,
    {
        StreamTag(JSON_STREAM_TAG)
    }

    pub open spec fn spec_known(byte: u8) -> bool {
        byte == BINARY_STREAM_TAG || byte == XML_STREAM_TAG || byte == JSON_STREAM_TAG
    }

    /// Detect the stream variant from the first byte; `None` when the byte
    /// names no known variant.
    pub fn from_byte(byte: u8) -> (r: Option<StreamTag>)
        ensures
            r == (if Self::spec_known(byte) {
                Some(StreamTag(byte))
            } else {
                None
            }),
    {
        if byte == BINARY_STREAM_TAG {
            Some(StreamTag(BINARY_STREAM_TAG))
        } else if byte == XML_STREAM_TAG {
            Some(StreamTag(XML_STREAM_TAG))
        } else if byte == JSON_STREAM_TAG {
            Some(StreamTag(JSON_STREAM_TAG))
        } else {
            None
        }
    }

    pub fn is_binary(self) -> (r: bool)
        ensures
            r == (self.0 == BINARY_STREAM_TAG),
    {
        self.0 == BINARY_STREAM_TAG
    }

    pub fn is_xml(self) -> (r: bool)
        ensures
            r == (self.0 == XML_STREAM_TAG),
    {
        self.0 == XML_STREAM_TAG
    }

    pub fn is_json(self) -> (r: bool)
        ensures
            r == (self.0 == JSON_STREAM_TAG),
    {
        self.0 == JSON_STREAM_TAG
    }

    /// Diagnostic label of the tag.
    pub fn label(self) -> (r: &'static str)
        ensures
            self.0 == BINARY_STREAM_TAG ==> r@ == "BINARY"@,
            self.0 == XML_STREAM_TAG ==> r@ == "XML"@,
            self.0 == JSON_STREAM_TAG ==> r@ == "JSON"@,
            !Self::spec_known(self.0) ==> r@ == "UNKNOWN"@,
    {
        if self.0 == BINARY_STREAM_TAG {
            "BINARY"
        } else if self.0 == XML_STREAM_TAG {
            "XML"
        } else if self.0 == JSON_STREAM_TAG {
            "JSON"
        } else {
            "UNKNOWN"
        }
    }
}

impl Default for StreamTag {
    fn default() -> (r: Self)
        ensures
            r == StreamTag(BINARY_STREAM_TAG),
    {
        StreamTag(BINARY_STREAM_TAG)
    }
}

/// Supported `ObjectStream` encodings.
#[derive(Clone, Copy, Debug, PartialEq, Eq, Hash, Structural)]
pub enum ObjectStreamEncoding {
    /// Lumberyard binary `ObjectStream`.
    Binary,
    /// XML `ObjectStream`.
    Xml,
    /// JSON `ObjectStream`.
    Json,
}

impl Default for ObjectStreamEncoding {
    fn default() -> (r: Self)
        ensures
            r == ObjectStreamEncoding::Binary,
    {
        ObjectStreamEncoding::Binary
    }
}

impl ObjectStreamEncoding {
    /// The encoding a leading tag byte announces.
    pub open spec fn spec_from_tag_byte(byte: u8) -> Option<ObjectStreamEncoding> {
        if byte == BINARY_STREAM_TAG {
            Some(ObjectStreamEncoding::Binary)
        } else if byte == XML_STREAM_TAG {
            Some(ObjectStreamEncoding::Xml)
        } else if byte == JSON_STREAM_TAG {
            Some(ObjectStreamEncoding::Json)
        } else {
            None
        }
    }

    /// The tag byte written ahead of a payload in this encoding.
    pub open spec fn spec_tag_byte(self) -> u8 {
        match self {
            ObjectStreamEncoding::Binary => BINARY_STREAM_TAG,
            ObjectStreamEncoding::Xml => XML_STREAM_TAG,
            ObjectStreamEncoding::Json => JSON_STREAM_TAG,
        }
    }

    pub fn from_tag(tag: StreamTag) -> (r: Option<ObjectStreamEncoding>)
        ensures
            r == Self::spec_from_tag_byte(tag.0),
    {
        Self::from_tag_byte(tag.0)
    }

    pub fn from_tag_byte(byte: u8) -> (r: Option<ObjectStreamEncoding>)
        ensures
            r == Self::spec_from_tag_byte(byte),
    {
        if byte == BINARY_STREAM_TAG {
            Some(ObjectStreamEncoding::Binary)
        } else if byte == XML_STREAM_TAG {
            Some(ObjectStreamEncoding::Xml)
        } else if byte == JSON_STREAM_TAG {
            Some(ObjectStreamEncoding::Json)
        } else {
            None
        }
    }

    pub fn stream_tag(self) -> (r: StreamTag)
        ensures
            r == StreamTag(self.spec_tag_byte()),
    {
        match self {
            ObjectStreamEncoding::Binary => StreamTag(BINARY_STREAM_TAG),
            ObjectStreamEncoding::Xml => StreamTag(XML_STREAM_TAG),
            ObjectStreamEncoding::Json => StreamTag(JSON_STREAM_TAG),
        }
    }

    /// Conventional file extension (empty for binary).
    pub fn extension(self) -> (r: &'static str)
        ensures
            self == ObjectStreamEncoding::Binary ==> r@ == ""@,
            self == ObjectStreamEncoding::Xml ==> r@ == "xml"@,
            self == ObjectStreamEncoding::Json ==> r@ == "json"@,
    {
        match self {
            ObjectStreamEncoding::Binary => "",
            ObjectStreamEncoding::Xml => "xml",
            ObjectStreamEncoding::Json => "json",
        }
    }

    /// Lowercase display label.
    pub fn label(self) -> (r: &'static str)
        ensures
            self == ObjectStreamEncoding::Binary ==> r@ == "binary"@,
            self == ObjectStreamEncoding::Xml ==> r@ == "xml"@,
            self == ObjectStreamEncoding::Json ==> r@ == "json"@,
    {
        match self {
            ObjectStreamEncoding::Binary => "binary",
            ObjectStreamEncoding::Xml => "xml",
            ObjectStreamEncoding::Json => "json",
        }
    }
}

/// Representation retained for an element payload.
///
/// Binary `ObjectStream` values are big-endian, serializer text conversion
/// can produce native-endian bytes, and unknown XML/JSON values remain text
/// until a registered codec converts them.
#[derive(Clone, Copy, Debug, PartialEq, Eq, Structural)]
pub enum PayloadEncoding {
    BinaryBigEndian,
    BinaryNativeEndian,
    Text,
}

impl Default for PayloadEncoding {
    fn default() -> (r: Self)
        ensures
            r == PayloadEncoding::BinaryBigEndian,
    {
        PayloadEncoding::BinaryBigEndian
    }
}

/// Public diagnostic state for an element's wire identity.
#[derive(Clone, Copy, Debug, PartialEq, Eq, Structural)]
pub enum TypeResolutionState {
    Raw,
    Unresolved,
    Resolved,
}

impl Default for TypeResolutionState {
    fn default() -> (r: Self)
        ensures
            r == TypeResolutionState::Raw,
    {
        TypeResolutionState::Raw
    }
}

/// Magic-byte sequences at the head of an uncompressed binary payload: the
/// binary tag followed by the big-endian stream version 3, 2, 1 or 0.
pub fn uncompressed_signatures() -> (r: Vec<[u8; 5]>)
    ensures
        r@.len() == 4,
        forall|i: int|
            0 <= i < 4 ==> (#[trigger] r@[i])@ == seq![0u8, 0u8, 0u8, 0u8, (3 - i) as u8],
{
    let r = vec![[0u8, 0, 0, 0, 3], [0u8, 0, 0, 0, 2], [0u8, 0, 0, 0, 1], [0u8, 0, 0, 0, 0]];
    assert(r@[0]@ =~= seq![0u8, 0u8, 0u8, 0u8, 3u8]);
    assert(r@[1]@ =~= seq![0u8, 0u8, 0u8, 0u8, 2u8]);
    assert(r@[2]@ =~= seq![0u8, 0u8, 0u8, 0u8, 1u8]);
    assert(r@[3]@ =~= seq![0u8, 0u8, 0u8, 0u8, 0u8]);
    r
}

/// Accept every historical stream version through the current one
/// (version 0 reads like version 1: no specialization UUID).
pub fn validate_stream_version(version: u32) -> (r: Result<u32, crate::error::ObjectStreamError>)
    ensures
        version <= MAX_STREAM_VERSION ==> r == Ok::<u32, crate::error::ObjectStreamError>(version),
        version > MAX_STREAM_VERSION ==> (r matches Err(crate::error::ObjectStreamError::UnsupportedVersion(v)) && v
            == version),
{
    if version <= MAX_STREAM_VERSION {
        Ok(version)
    } else {
        Err(crate::error::ObjectStreamError::UnsupportedVersion(version))
    }
}

/// What `validate_element_specialization` reports.
pub open spec fn spec_specialization_check(
    stream_version: u32,
    type_id: crate::az_uuid::AzUuid,
    specialization: Option<crate::az_uuid::AzUuid>,
) -> Result<(), crate::error::ObjectStreamError> {
    if specialization is Some && (stream_version == 0 || stream_version == 1 || stream_version == 3) {
        Err(crate::error::ObjectStreamError::UnexpectedSpecialization { stream_version, type_id })
    } else {
        Ok(())
    }
}

/// Only version-2 streams carry a specialization UUID; versions 0, 1 and 3
/// reject one.  (A version-2 element may still omit it.)
pub fn validate_element_specialization(
    stream_version: u32,
    type_id: crate::az_uuid::AzUuid,
    specialization: Option<crate::az_uuid::AzUuid>,
) -> (r: Result<(), crate::error::ObjectStreamError>)
    ensures
        r == spec_specialization_check(stream_version, type_id, specialization),
        (specialization is Some && (stream_version == 0 || stream_version == 1 || stream_version == 3)) ==> (r matches Err(
            crate::error::ObjectStreamError::UnexpectedSpecialization { stream_version: v, type_id: t },
        ) && v == stream_version && t == type_id),
        !(specialization is Some && (stream_version == 0 || stream_version == 1 || stream_version == 3)) ==> r is Ok,
{
    if specialization.is_some() && (stream_version == 0 || stream_version == 1 || stream_version == 3) {
        Err(crate::error::ObjectStreamError::UnexpectedSpecialization { stream_version, type_id })
    } else {
        Ok(())
    }
}

/// Check that a payload's leading tag byte names `encoding`.
pub fn validate_encoding(bytes: &[u8], encoding: ObjectStreamEncoding) -> (r: Result<(), crate::error::ObjectStreamError>)
    ensures
        bytes@.len() == 0 ==> r matches Err(crate::error::ObjectStreamError::Io(_)),
        bytes@.len() > 0 ==> match ObjectStreamEncoding::spec_from_tag_byte(bytes@[0]) {
            None => (r matches Err(crate::error::ObjectStreamError::InvalidStreamTag(t)) && t == bytes@[0]),
            Some(actual) => if actual == encoding {
                r is Ok
            } else {
                (r matches Err(crate::error::ObjectStreamError::UnexpectedEncoding { expected, actual: a }) && expected
                    == encoding && a == actual)
            },
        },
{
    if bytes.len() == 0 {
        return Err(crate::error::ObjectStreamError::Io(crate::error::empty_payload_error()));
    }
    let tag = bytes[0];
    let actual = match ObjectStreamEncoding::from_tag_byte(tag) {
        Some(a) => a,
        None => {
            return Err(crate::error::ObjectStreamError::InvalidStreamTag(tag));
        },
    };
    if actual == encoding {
        Ok(())
    } else {
        Err(crate::error::ObjectStreamError::UnexpectedEncoding { expected: encoding, actual })
    }
}

/// The encoding a payload's leading tag byte announces: an empty payload
/// is an I/O error, an unknown tag byte an `InvalidStreamTag`.
pub fn detect_encoding(bytes: &[u8]) -> (r: Result<ObjectStreamEncoding, crate::error::ObjectStreamError>)
    ensures
        bytes@.len() == 0 ==> r matches Err(crate::error::ObjectStreamError::Io(_)),
        bytes@.len() > 0 ==> match ObjectStreamEncoding::spec_from_tag_byte(bytes@[0]) {
            None => (r matches Err(crate::error::ObjectStreamError::InvalidStreamTag(t)) && t == bytes@[0]),
            Some(e) => r == Ok::<ObjectStreamEncoding, crate::error::ObjectStreamError>(e),
        },
{
    if bytes.len() == 0 {
        return Err(crate::error::ObjectStreamError::Io(crate::error::empty_payload_error()));
    }
    let tag = bytes[0];
    match ObjectStreamEncoding::from_tag_byte(tag) {
        Some(e) => Ok(e),
        None => Err(crate::error::ObjectStreamError::InvalidStreamTag(tag)),
    }
}

/// Every encoding's tag byte detects that encoding again.
pub proof fn lemma_encoding_tag_roundtrip(e: ObjectStreamEncoding)
    ensures
        ObjectStreamEncoding::spec_from_tag_byte(e.spec_tag_byte()) == Some(e),
{
}

} // verus!
