use az_objectstream::codec::float_sequence_tokens;
use az_objectstream::asset::AssetValueLayout;
use az_objectstream::az_uuid::AzUuid;
use az_objectstream::codec::{
    encode_ranged_unsigned, native_i32, native_to_big, native_u16, parse_bool, parse_uuid, swap_chunks,
    BuiltinSerializerDescriptor, BuiltinSerializerKind, BuiltinValueCodec, EncodedPayload, NativeAbi, NativeEndian,
    TextEncoding, ValueCodecError,
};
use az_objectstream::stream::PayloadEncoding;

const INT: u128 = 0x72039442_EB38_4D42_A1AD_CB68F7E0EEF6;
const ASSET: u128 = 0x77A19D40_8731_4D3C_9041_1B43047366A4;

fn int_id() -> AzUuid {
    AzUuid::from_u128(INT)
}

fn asset_id() -> AzUuid {
    AzUuid::from_u128(ASSET)
}

#[test]
fn text_conversion_preserves_native_endian_provenance() {
    let payload = BuiltinValueCodec::new(BuiltinSerializerKind::I32, 0)
        .text_to_data(int_id(), "42", 0, TextEncoding::Xml)
        .unwrap();
    assert_eq!(payload.encoding, PayloadEncoding::BinaryNativeEndian);
    assert_eq!(payload.bytes, 42_i32.to_le_bytes());
    assert_eq!(
        BuiltinValueCodec::new(BuiltinSerializerKind::I32, 0)
            .to_big_endian(int_id(), &payload.bytes, payload.encoding, 0)
            .unwrap(),
        42_i32.to_be_bytes()
    );
}

#[test]
fn asset_text_to_data_uses_registered_serializer_generation() {
    let v1_text = "id={01234567-89AB-CDEF-FEDC-BA9876543210}:33774488,type={00112233-4455-6677-8899-AABBCCDDEEFF},hint={abcd}";
    let lumberyard = BuiltinValueCodec::new(BuiltinSerializerKind::Asset, 1)
        .text_to_data(asset_id(), v1_text, 1, TextEncoding::Xml)
        .unwrap();
    assert_eq!(lumberyard.bytes.len(), 60);

    let v2_text = format!("{v1_text},loadBehavior=2");
    let o3de_codec = BuiltinValueCodec::new(BuiltinSerializerKind::Asset, 2);
    let o3de = o3de_codec
        .text_to_data(asset_id(), &v2_text, 2, TextEncoding::Json)
        .unwrap();
    assert_eq!(o3de.bytes.len(), 61);
    assert_eq!(o3de.bytes.last(), Some(&2));
    assert_eq!(
        o3de_codec
            .data_to_text(asset_id(), &o3de.bytes, o3de.encoding, 2, TextEncoding::Json)
            .unwrap(),
        v2_text
    );
}

#[test]
fn older_asset_text_is_saved_in_current_o3de_layout() {
    let text = "id={01234567-89AB-CDEF-FEDC-BA9876543210}:33774488,type={00112233-4455-6677-8899-AABBCCDDEEFF}";
    let payload = BuiltinValueCodec::new(BuiltinSerializerKind::Asset, 2)
        .text_to_data(asset_id(), text, 0, TextEncoding::Xml)
        .unwrap();
    assert_eq!(payload.bytes.len(), 57);
    assert_eq!(payload.bytes.last(), Some(&1));
}

#[test]
fn historical_asset_binary_loads_old_version_before_current_text_save() {
    let text = "id={01234567-89AB-CDEF-FEDC-BA9876543210}:1,type={00112233-4455-6677-8899-AABBCCDDEEFF}";
    let old = AssetValueLayout::from_text(text, 0)
        .unwrap()
        .to_big_endian_bytes(0)
        .unwrap();
    let codec = BuiltinValueCodec::new(BuiltinSerializerKind::Asset, 1);

    assert_eq!(
        codec
            .data_to_text(asset_id(), &old, PayloadEncoding::BinaryBigEndian, 0, TextEncoding::Xml)
            .unwrap(),
        format!("{text},hint={{}}")
    );
}

#[test]
fn bool_text_to_data_rejects_native_false_fabrication_for_invalid_tokens() {
    let codec = BuiltinValueCodec::new(BuiltinSerializerKind::Bool, 0);
    let bool_id = AzUuid::nil();
    for text in ["True", "1", " true", "anything"] {
        assert!(matches!(
            codec.text_to_data(bool_id, text, 0, TextEncoding::Xml),
            Err(ValueCodecError::InvalidText { .. })
        ));
    }
    assert_eq!(codec.text_to_data(bool_id, "false", 0, TextEncoding::Xml).unwrap().bytes, [0]);
    assert_eq!(codec.text_to_data(bool_id, "true", 0, TextEncoding::Xml).unwrap().bytes, [1]);
}

#[test]
fn ranged_unsigned_uses_native_crt_parse_then_storage_width_cast() {
    let codec = BuiltinValueCodec::new(BuiltinSerializerKind::RangedUnsigned { bytes: 1 }, 0);
    for (text, expected) in [
        ("300", 44),
        ("-1", 255),
        ("garbage", 0),
        ("12trailing", 12),
        ("999999999999999999999", 255),
    ] {
        assert_eq!(
            codec.text_to_data(AzUuid::nil(), text, 0, TextEncoding::Xml).unwrap().bytes,
            [expected]
        );
    }
}

#[test]
fn empty_serializer_supports_only_the_native_zero_byte_value() {
    let codec = BuiltinValueCodec::new(BuiltinSerializerKind::Empty, 0);
    assert_eq!(
        codec.text_to_data(AzUuid::nil(), "", 0, TextEncoding::Xml).unwrap().bytes,
        Vec::<u8>::new()
    );
    assert!(matches!(
        codec.text_to_data(AzUuid::nil(), "0", 0, TextEncoding::Xml),
        Err(ValueCodecError::InvalidText { .. })
    ));
    assert!(matches!(
        codec.to_big_endian(AzUuid::nil(), &[0], PayloadEncoding::BinaryNativeEndian, 0),
        Err(ValueCodecError::InvalidLength { .. })
    ));
}

#[test]
fn llp64_long_is_four_bytes_and_az_s64_is_eight() {
    let long = BuiltinValueCodec::new(BuiltinSerializerKind::Long, 0)
        .text_to_data(AzUuid::nil(), "7", 0, TextEncoding::Json)
        .unwrap();
    let s64 = BuiltinValueCodec::new(BuiltinSerializerKind::I64, 0)
        .text_to_data(AzUuid::nil(), "7", 0, TextEncoding::Json)
        .unwrap();
    assert_eq!(long.bytes.len(), 4);
    assert_eq!(s64.bytes.len(), 8);
}

#[test]
fn lp64_long_is_eight_bytes() {
    let codec = BuiltinValueCodec::with_platform(BuiltinSerializerKind::Long, 0, NativeAbi::Lp64, NativeEndian::Little);
    let long = codec.text_to_data(AzUuid::nil(), "7", 0, TextEncoding::Json).unwrap();
    assert_eq!(long.bytes, 7_i64.to_le_bytes());
}

#[test]
fn big_endian_platform_payload_is_already_wire_order() {
    let codec = BuiltinValueCodec::with_platform(BuiltinSerializerKind::U16, 0, NativeAbi::Llp64, NativeEndian::Big);
    let payload = codec.text_to_data(AzUuid::nil(), "513", 0, TextEncoding::Xml).unwrap();
    assert_eq!(payload.bytes, [2, 1]);
    assert_eq!(
        codec.to_big_endian(AzUuid::nil(), &payload.bytes, payload.encoding, 0).unwrap(),
        [2, 1]
    );
}

#[test]
fn text_payload_has_no_byte_order() {
    let codec = BuiltinValueCodec::new(BuiltinSerializerKind::I32, 0);
    assert!(matches!(
        codec.to_big_endian(int_id(), b"42", PayloadEncoding::Text, 0),
        Err(ValueCodecError::UnsupportedPayloadEncoding { encoding: PayloadEncoding::Text })
    ));
    assert!(matches!(
        codec.data_to_text(int_id(), b"42", PayloadEncoding::Text, 0, TextEncoding::Xml),
        Err(ValueCodecError::UnsupportedPayloadEncoding { encoding: PayloadEncoding::Text })
    ));
}

#[test]
fn big_endian_payload_renders_as_decimal_text() {
    let codec = BuiltinValueCodec::new(BuiltinSerializerKind::I32, 0);
    assert_eq!(
        codec
            .data_to_text(int_id(), &(-5_i32).to_be_bytes(), PayloadEncoding::BinaryBigEndian, 0, TextEncoding::Xml)
            .unwrap(),
        "-5"
    );
    assert_eq!(
        codec
            .data_to_text(int_id(), &(-5_i32).to_le_bytes(), PayloadEncoding::BinaryNativeEndian, 0, TextEncoding::Xml)
            .unwrap(),
        "-5"
    );
}

#[test]
fn signed_text_out_of_range_is_rejected() {
    let codec = BuiltinValueCodec::new(BuiltinSerializerKind::I8, 0);
    assert_eq!(codec.text_to_data(AzUuid::nil(), "-128", 0, TextEncoding::Xml).unwrap().bytes, [0x80]);
    assert!(matches!(
        codec.text_to_data(AzUuid::nil(), "128", 0, TextEncoding::Xml),
        Err(ValueCodecError::InvalidText { .. })
    ));
}

#[test]
fn uuid_text_round_trips_braced_uppercase() {
    let codec = BuiltinValueCodec::new(BuiltinSerializerKind::Uuid, 0);
    let text = "{01234567-89AB-CDEF-FEDC-BA9876543210}";
    let payload = codec.text_to_data(AzUuid::nil(), text, 0, TextEncoding::Xml).unwrap();
    assert_eq!(payload.bytes.len(), 16);
    assert_eq!(payload.bytes[0], 0x01);
    assert_eq!(
        codec
            .data_to_text(AzUuid::nil(), &payload.bytes, payload.encoding, 0, TextEncoding::Xml)
            .unwrap(),
        text
    );
    assert_eq!(parse_uuid(text).unwrap(), AzUuid::from_u128(0x01234567_89AB_CDEF_FEDC_BA9876543210));
    assert!(parse_uuid("not a uuid").is_err());
}

#[test]
fn parse_bool_accepts_exact_tokens_only() {
    assert!(parse_bool("true").unwrap());
    assert!(!parse_bool("false").unwrap());
    assert!(matches!(parse_bool("TRUE"), Err(ValueCodecError::InvalidText { .. })));
}

#[test]
fn ranged_unsigned_widths() {
    assert_eq!(encode_ranged_unsigned("513", 2, NativeEndian::Little).unwrap(), [1, 2]);
    assert_eq!(encode_ranged_unsigned("513", 2, NativeEndian::Big).unwrap(), [2, 1]);
    assert_eq!(encode_ranged_unsigned("65536", 2, NativeEndian::Little).unwrap(), [0, 0]);
    assert!(matches!(
        encode_ranged_unsigned("1", 3, NativeEndian::Little),
        Err(ValueCodecError::InvalidLength { .. })
    ));
}

#[test]
fn native_integers_follow_the_requested_byte_order() {
    assert_eq!(native_i32(-2, NativeEndian::Little), (-2_i32).to_le_bytes());
    assert_eq!(native_i32(-2, NativeEndian::Big), (-2_i32).to_be_bytes());
    assert_eq!(native_u16(0x0102, NativeEndian::Little), [2, 1]);
}

#[test]
fn swap_chunks_reverses_each_chunk_and_is_an_involution() {
    let data = [1, 2, 3, 4, 5, 6, 7, 8];
    let swapped = swap_chunks(&data, 4, "u32").unwrap();
    assert_eq!(swapped, [4, 3, 2, 1, 8, 7, 6, 5]);
    assert_eq!(swap_chunks(&swapped, 4, "u32").unwrap(), data);
    assert!(matches!(swap_chunks(&[1, 2, 3], 2, "u16"), Err(ValueCodecError::InvalidLength { actual: 3, .. })));
}

#[test]
fn native_to_big_swaps_little_endian_integers() {
    let big = native_to_big(BuiltinSerializerKind::U32, &[1, 0, 0, 0], NativeAbi::Llp64, NativeEndian::Little, 0)
        .unwrap();
    assert_eq!(big, [0, 0, 0, 1]);
}

#[test]
fn descriptor_codec_keeps_platform() {
    let descriptor = BuiltinSerializerDescriptor::new(BuiltinSerializerKind::U16, 0)
        .with_platform(NativeAbi::Lp64, NativeEndian::Big);
    assert_eq!(descriptor.native_endian, NativeEndian::Big);
    let payload = descriptor.codec().text_to_data(AzUuid::nil(), "1", 0, TextEncoding::Xml).unwrap();
    assert_eq!(payload.bytes, [0, 1]);
}

#[test]
fn encoded_payload_constructors() {
    let p = EncodedPayload::binary_big_endian(vec![1, 2]);
    assert_eq!(p.encoding, PayloadEncoding::BinaryBigEndian);
    assert_eq!(EncodedPayload::new(vec![3], PayloadEncoding::Text).bytes, [3]);
}

#[test]
fn ranged_from_underlying_maps_unsigned_widths() {
    assert_eq!(
        BuiltinSerializerKind::ranged_from_underlying(BuiltinSerializerKind::U16),
        Some(BuiltinSerializerKind::RangedUnsigned { bytes: 2 })
    );
    assert_eq!(BuiltinSerializerKind::ranged_from_underlying(BuiltinSerializerKind::I16), None);
}

#[test]
fn uuid_payload_text_round_trip() {
    let codec = BuiltinValueCodec::new(BuiltinSerializerKind::Uuid, 0);
    let bytes = 0x01234567_89AB_CDEF_FEDC_BA9876543210_u128.to_be_bytes();
    let text = codec
        .data_to_text(AzUuid::nil(), &bytes, PayloadEncoding::BinaryBigEndian, 0, TextEncoding::Xml)
        .unwrap();
    assert_eq!(text, "{01234567-89AB-CDEF-FEDC-BA9876543210}");
    let payload = codec.text_to_data(AzUuid::nil(), &text, 0, TextEncoding::Xml).unwrap();
    assert_eq!(payload.bytes, bytes);
}

#[test]
fn integer_payload_text_round_trip() {
    let cases: Vec<(BuiltinSerializerKind, Vec<u8>, &str)> = vec![
        (BuiltinSerializerKind::I8, (-128_i8).to_be_bytes().to_vec(), "-128"),
        (BuiltinSerializerKind::I32, (-42_i32).to_be_bytes().to_vec(), "-42"),
        (BuiltinSerializerKind::I64, i64::MIN.to_be_bytes().to_vec(), "-9223372036854775808"),
        (BuiltinSerializerKind::U16, 65535_u16.to_be_bytes().to_vec(), "65535"),
        (BuiltinSerializerKind::U64, u64::MAX.to_be_bytes().to_vec(), "18446744073709551615"),
    ];
    for (kind, big, text) in cases {
        let codec = BuiltinValueCodec::new(kind, 0);
        let rendered = codec
            .data_to_text(int_id(), &big, PayloadEncoding::BinaryBigEndian, 0, TextEncoding::Xml)
            .unwrap();
        assert_eq!(rendered, text);
        let payload = codec.text_to_data(int_id(), &rendered, 0, TextEncoding::Xml).unwrap();
        let mut native = big.clone();
        native.reverse();
        assert_eq!(payload.bytes, native);
    }
}

#[test]
fn bool_and_byte_stream_payload_text_round_trip() {
    let codec = BuiltinValueCodec::new(BuiltinSerializerKind::Bool, 0);
    for byte in [0_u8, 1] {
        let text = codec
            .data_to_text(int_id(), &[byte], PayloadEncoding::BinaryBigEndian, 0, TextEncoding::Xml)
            .unwrap();
        assert_eq!(codec.text_to_data(int_id(), &text, 0, TextEncoding::Xml).unwrap().bytes, vec![byte]);
    }
    let codec = BuiltinValueCodec::new(BuiltinSerializerKind::ByteStream, 0);
    let data = vec![0x00, 0x7F, 0xAB, 0xFF];
    let text = codec
        .data_to_text(int_id(), &data, PayloadEncoding::BinaryBigEndian, 0, TextEncoding::Xml)
        .unwrap();
    assert_eq!(text, "007FABFF");
    assert_eq!(codec.text_to_data(int_id(), &text, 0, TextEncoding::Xml).unwrap().bytes, data);
}

#[test]
fn ranged_payload_text_round_trip() {
    let codec = BuiltinValueCodec::new(BuiltinSerializerKind::RangedUnsigned { bytes: 2 }, 0);
    let big = 0xBEEF_u16.to_be_bytes();
    let text = codec
        .data_to_text(int_id(), &big, PayloadEncoding::BinaryBigEndian, 0, TextEncoding::Xml)
        .unwrap();
    assert_eq!(text, "48879");
    assert_eq!(
        codec.text_to_data(int_id(), &text, 0, TextEncoding::Xml).unwrap().bytes,
        0xBEEF_u16.to_le_bytes()
    );
}

#[test]
fn codec_constructions_agree() {
    let kind = BuiltinSerializerKind::I32;
    let direct = BuiltinValueCodec::with_platform(kind, 0, NativeAbi::Lp64, NativeEndian::Big);
    let via = BuiltinSerializerDescriptor::new(kind, 0).with_platform(NativeAbi::Lp64, NativeEndian::Big).codec();
    let a = direct.text_to_data(int_id(), "-7", 0, TextEncoding::Xml).unwrap();
    let b = via.text_to_data(int_id(), "-7", 0, TextEncoding::Xml).unwrap();
    assert_eq!(a.bytes, b.bytes);
    assert_eq!(a.bytes, (-7_i32).to_be_bytes());
    let plain = BuiltinValueCodec::new(kind, 0);
    let lumberyard = BuiltinValueCodec::with_platform(kind, 0, NativeAbi::Llp64, NativeEndian::Little);
    assert_eq!(
        plain.text_to_data(int_id(), "-7", 0, TextEncoding::Xml).unwrap().bytes,
        lumberyard.text_to_data(int_id(), "-7", 0, TextEncoding::Xml).unwrap().bytes
    );
}

#[test]
fn float_sequence_tokens_count_components() {
    assert_eq!(float_sequence_tokens(" 1.0\t2.5  3 ", 3).unwrap(), vec!["1.0", "2.5", "3"]);
    assert!(matches!(
        float_sequence_tokens("1 2", 3),
        Err(ValueCodecError::InvalidLength { expected: "three f32 values", actual: 2 })
    ));
    assert!(matches!(
        float_sequence_tokens("", 1),
        Err(ValueCodecError::InvalidLength { expected: "one f32", actual: 0 })
    ));
}
