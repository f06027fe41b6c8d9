use az_objectstream::text::split_whitespace;
use az_objectstream::asset::{AssetValueError, AssetValueLayout};
use az_objectstream::az_uuid::{parse_uuid_str, AzUuid};
use az_objectstream::codec::{encode_ranged_unsigned, BuiltinSerializerKind, BuiltinValueCodec, NativeEndian, TextEncoding};
use az_objectstream::error::ObjectStreamError;
use az_objectstream::stream::{validate_encoding, ObjectStreamEncoding, PayloadEncoding};

const EXPECTED: u128 = 0x67e55044_10b1_426f_9247_bb680e5fe0c8;

#[test]
fn uuid_text_is_accepted_in_every_uuid_crate_form() {
    for text in [
        "67e5504410b1426f9247bb680e5fe0c8",
        "67e55044-10b1-426f-9247-bb680e5fe0c8",
        "{67E55044-10B1-426F-9247-BB680E5FE0C8}",
        "URN:uuid:67e55044-10b1-426f-9247-bb680e5fe0c8",
    ] {
        assert_eq!(parse_uuid_str(text), Some(AzUuid::from_u128(EXPECTED)), "{text}");
    }
    for text in ["67e55044-10b1-426f-9247-bb680e5fe0c", "{67e55044-10b1-426f-9247-bb680e5fe0c8", "g7e5504410b1426f9247bb680e5fe0c8"] {
        assert_eq!(parse_uuid_str(text), None, "{text}");
    }
}

#[test]
fn uuid_payload_renders_braced_uppercase() {
    let codec = BuiltinValueCodec::new(BuiltinSerializerKind::Uuid, 0);
    let text = codec
        .data_to_text(AzUuid::nil(), &EXPECTED.to_be_bytes(), PayloadEncoding::BinaryBigEndian, 0, TextEncoding::Xml)
        .unwrap();
    assert_eq!(text, "{67E55044-10B1-426F-9247-BB680E5FE0C8}");
}

#[test]
fn asset_type_error_names_the_uuid_hyphenated() {
    let e = AssetValueError::UnexpectedType { actual: AzUuid::from_u128(EXPECTED) };
    assert_eq!(e.message(), "expected AZ::Data::Asset, got 67e55044-10b1-426f-9247-bb680e5fe0c8");
    let e = AssetValueError::TooShort { expected: 56, actual: 12 };
    assert_eq!(e.message(), "AZ::Data::Asset has 12 bytes, expected at least 56");
}

#[test]
fn integer_text_is_trimmed_parsed_and_rendered_in_decimal() {
    let i32_codec = BuiltinValueCodec::new(BuiltinSerializerKind::I32, 0);
    let payload = i32_codec.text_to_data(AzUuid::nil(), " \t-1234\n", 0, TextEncoding::Xml).unwrap();
    assert_eq!(payload.bytes, (-1234_i32).to_le_bytes());
    assert_eq!(
        i32_codec.data_to_text(AzUuid::nil(), &payload.bytes, payload.encoding, 0, TextEncoding::Xml).unwrap(),
        "-1234"
    );
    let u64_codec = BuiltinValueCodec::new(BuiltinSerializerKind::U64, 0);
    let payload = u64_codec.text_to_data(AzUuid::nil(), "+18446744073709551615", 0, TextEncoding::Json).unwrap();
    assert_eq!(payload.bytes, u64::MAX.to_le_bytes());
    assert_eq!(
        u64_codec.data_to_text(AzUuid::nil(), &payload.bytes, payload.encoding, 0, TextEncoding::Json).unwrap(),
        "18446744073709551615"
    );
    assert!(u64_codec.text_to_data(AzUuid::nil(), "18446744073709551616", 0, TextEncoding::Json).is_err());
    assert!(u64_codec.text_to_data(AzUuid::nil(), "-1", 0, TextEncoding::Json).is_err());
}

#[test]
fn ranged_unsigned_skips_leading_whitespace() {
    assert_eq!(encode_ranged_unsigned("  7", 1, NativeEndian::Little).unwrap(), [7]);
}

#[test]
fn byte_stream_is_hex_text() {
    let codec = BuiltinValueCodec::new(BuiltinSerializerKind::ByteStream, 0);
    let payload = codec.text_to_data(AzUuid::nil(), " 0aFf10 ", 0, TextEncoding::Xml).unwrap();
    assert_eq!(payload.bytes, [0x0a, 0xff, 0x10]);
    assert_eq!(
        codec.data_to_text(AzUuid::nil(), &payload.bytes, PayloadEncoding::BinaryBigEndian, 0, TextEncoding::Xml).unwrap(),
        "0AFF10"
    );
    assert!(codec.text_to_data(AzUuid::nil(), "abc", 0, TextEncoding::Xml).is_err());
}

#[test]
fn string_payload_must_be_utf8() {
    let codec = BuiltinValueCodec::new(BuiltinSerializerKind::String, 0);
    assert_eq!(
        codec.data_to_text(AzUuid::nil(), "héllo".as_bytes(), PayloadEncoding::BinaryBigEndian, 0, TextEncoding::Xml).unwrap(),
        "héllo"
    );
    assert!(codec.data_to_text(AzUuid::nil(), &[0xff], PayloadEncoding::BinaryBigEndian, 0, TextEncoding::Xml).is_err());
}

#[test]
fn asset_sub_id_is_uppercase_hex_text() {
    let text = "id={01234567-89AB-CDEF-FEDC-BA9876543210}:ABCDEF01,type={00112233-4455-6677-8899-AABBCCDDEEFF}";
    let layout = AssetValueLayout::from_text(text, 0).unwrap();
    assert_eq!(layout.to_text(0).unwrap(), text);
    let lower = "id={01234567-89ab-cdef-fedc-ba9876543210}:abcdef01,type={00112233-4455-6677-8899-aabbccddeeff}";
    assert_eq!(AssetValueLayout::from_text(lower, 0).unwrap().to_text(0).unwrap(), text);
}

#[test]
fn empty_payload_is_an_unexpected_eof() {
    match validate_encoding(&[], ObjectStreamEncoding::Json) {
        Err(ObjectStreamError::Io(e)) => assert_eq!(e.kind(), std::io::ErrorKind::UnexpectedEof),
        other => panic!("unexpected {other:?}"),
    }
}

#[test]
fn split_whitespace_matches_std() {
    for text in ["", "   ", "a", " a b\u{3000}c\u{85}d ", "x\n\ny"] {
        assert_eq!(split_whitespace(text), text.split_whitespace().collect::<Vec<_>>());
    }
}
