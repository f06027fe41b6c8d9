use az_objectstream::asset::{
    asset_hint, asset_hint_from_bytes, asset_hint_from_data_owned, asset_hint_owned, optional_asset_hint_from_data,
    optional_asset_hint_from_data_owned, AssetHintError, AssetValueLayout, ASSET_HINT_MINIMUM_LEN,
};
use az_objectstream::az_uuid::AzUuid;
use az_objectstream::tree::Element;

const ASSET: u128 = 0x77A19D40_8731_4D3C_9041_1B43047366A4;

fn asset_bytes(guid: AzUuid, sub_id: u32, asset_type: AzUuid, hint: &str) -> Vec<u8> {
    let mut bytes = Vec::with_capacity(56 + hint.len());
    bytes.extend_from_slice(&guid.as_u128().to_be_bytes());
    bytes.extend_from_slice(&sub_id.to_be_bytes());
    bytes.extend_from_slice(&[0; 12]);
    bytes.extend_from_slice(&asset_type.as_u128().to_be_bytes());
    bytes.extend_from_slice(&(hint.len() as u64).to_be_bytes());
    bytes.extend_from_slice(hint.as_bytes());
    bytes
}

fn typed_asset(data: Vec<u8>) -> Element {
    let mut element = Element::new(AzUuid::from_u128(ASSET)).with_data(data);
    element.version = Some(1);
    element
}

#[test]
fn reads_asset_hint_from_text_payload() {
    let element = Element::new(AzUuid::from_u128(ASSET)).with_data(
        b"id={1E9A1948-F2A6-5500-B918-964558497331}:0,type={F46985B5-F7FF-4FCB-8E8C-DC240D701841},hint={materials/foo.mtl}".to_vec(),
    );

    assert_eq!(asset_hint(&element).unwrap(), Some("materials/foo.mtl"));
}

#[test]
fn reads_asset_hint_from_short_text_hint_only_payload() {
    let element = Element::new(AzUuid::from_u128(ASSET)).with_data(b"hint={Characters/Paperdoll.asset}".to_vec());

    assert_eq!(optional_asset_hint_from_data(&element).unwrap(), Some("Characters/Paperdoll.asset"));
}

#[test]
fn reads_asset_hint_from_big_endian_layout() {
    let hint = "slices/foo.slice";
    let mut data = vec![0; 48];
    data[40..48].copy_from_slice(&(hint.len() as u64).to_be_bytes());
    data.extend_from_slice(hint.as_bytes());
    let element = Element::new(AzUuid::from_u128(ASSET)).with_data(data);

    assert_eq!(asset_hint(&element).unwrap(), Some(hint));
}

#[test]
fn reads_asset_hint_from_compact_four_byte_pad_layout() {
    let hint = "Timelines/IceCastle/Gate.timeline";
    let mut data = Vec::new();
    data.extend(0x11111111_2222_3333_4444_555555555555_u128.to_be_bytes());
    data.extend(0x20000_u32.to_be_bytes());
    data.extend([0; 4]);
    data.extend(0x22222222_3333_4444_5555_666666666666_u128.to_be_bytes());
    data.extend((hint.len() as u64).to_be_bytes());
    data.extend(hint.as_bytes());
    let element = Element::new(AzUuid::from_u128(ASSET)).with_data(data);

    assert_eq!(optional_asset_hint_from_data(&element).unwrap(), Some(hint));
}

#[test]
fn reads_owned_asset_hint_from_data_without_type_check() {
    let element = Element::new(AzUuid::from_u128(0xaaaaaaaa_bbbb_cccc_dddd_eeeeeeeeeeee)).with_data(
        b"id={1E9A1948-F2A6-5500-B918-964558497331}:0,type={F46985B5-F7FF-4FCB-8E8C-DC240D701841},hint={scripts/foo.lua}".to_vec(),
    );

    let hint = asset_hint_from_data_owned(&element).unwrap();

    assert_eq!(hint, Some("scripts/foo.lua".to_string()));
}

#[test]
fn reads_optional_asset_hint_from_data_without_type_check() {
    let missing = Element::new(AzUuid::from_u128(0xaaaaaaaa_bbbb_cccc_dddd_eeeeeeeeeeee));
    assert_eq!(optional_asset_hint_from_data_owned(&missing).unwrap(), None);

    let present = Element::new(AzUuid::from_u128(0xaaaaaaaa_bbbb_cccc_dddd_eeeeeeeeeeee)).with_data(
        b"id={1E9A1948-F2A6-5500-B918-964558497331}:0,type={F46985B5-F7FF-4FCB-8E8C-DC240D701841},hint={scripts/foo.lua}".to_vec(),
    );
    assert_eq!(optional_asset_hint_from_data(&present).unwrap(), Some("scripts/foo.lua"));

    let malformed = Element::new(AzUuid::from_u128(0xaaaaaaaa_bbbb_cccc_dddd_eeeeeeeeeeee)).with_data(vec![1]);
    assert!(matches!(
        optional_asset_hint_from_data(&malformed).unwrap_err(),
        AssetHintError::TooShort { expected: ASSET_HINT_MINIMUM_LEN, actual: 1 }
    ));
}

#[test]
fn reads_owned_asset_hint_from_typed_asset() {
    let hint = "materials/foo.mtl";
    let element = typed_asset(asset_bytes(AzUuid::nil(), 0, AzUuid::nil(), hint));

    let hint = asset_hint_owned(&element).unwrap();

    assert_eq!(hint, Some("materials/foo.mtl".to_string()));
}

#[test]
fn asset_hint_rejects_non_asset_elements_and_missing_payloads() {
    let other = Element::new(AzUuid::from_u128(5)).with_data(b"hint={x}".to_vec());
    assert!(matches!(asset_hint(&other), Err(AssetHintError::UnexpectedType(t)) if t == AzUuid::from_u128(5)));
    let empty = Element::new(AzUuid::from_u128(ASSET));
    assert!(matches!(asset_hint(&empty), Err(AssetHintError::MissingData)));
}

#[test]
fn blank_layout_hint_is_no_hint() {
    let data = asset_bytes(AzUuid::nil(), 0, AzUuid::nil(), "   ");
    assert_eq!(asset_hint_from_bytes(&data, None).unwrap(), None);
}

#[test]
fn asset_layout_round_trips_through_big_endian_bytes() {
    let guid = AzUuid::from_u128(0x7a1472d1_df54_5362_bc71_9974d5f25572);
    let asset_type = AzUuid::from_u128(0x78802abf_9595_463a_8d2b_d022f906f9b1);
    let data = asset_bytes(guid, 2, asset_type, "objects/fishing/bobber.cgf");
    let value = AssetValueLayout::load(&data, 1).unwrap();
    assert_eq!(value.guid(), guid);
    assert_eq!(value.sub_id(), 2);
    assert_eq!(value.asset_type(), asset_type);
    assert_eq!(value.hint(), "objects/fishing/bobber.cgf");
}

#[test]
fn asset_text_round_trips_for_version_two() {
    let text = "id={01234567-89AB-CDEF-FEDC-BA9876543210}:1F,type={00112233-4455-6677-8899-AABBCCDDEEFF},hint={a/b},loadBehavior=2";
    let layout = AssetValueLayout::from_text(text, 2).unwrap();
    assert_eq!(layout.to_text(2).unwrap(), text);
    let bytes = layout.to_big_endian_bytes(2).unwrap();
    assert_eq!(bytes.len(), 56 + 3 + 1);
}

#[test]
fn asset_text_round_trip_keeps_the_value_at_every_version() {
    let value = AssetValueLayout {
        guid: AzUuid::from_u128(0x01234567_89AB_CDEF_FEDC_BA9876543210),
        sub_id: 0x33774488,
        asset_type: AzUuid::from_u128(0x00112233_4455_6677_8899_AABBCCDDEEFF),
        hint: "levels/town/town.ly".to_owned(),
        load_behavior: 2,
    };
    for version in 0..=2u32 {
        let text = value.to_text(version).unwrap();
        let back = AssetValueLayout::from_text(&text, version).unwrap();
        assert_eq!(back.guid, value.guid);
        assert_eq!(back.sub_id, value.sub_id);
        assert_eq!(back.asset_type, value.asset_type);
        assert_eq!(back.hint, if version > 0 { value.hint.clone() } else { String::new() });
        assert_eq!(back.load_behavior, if version > 1 { 2 } else { 1 });
    }
}

#[test]
fn asset_text_load_behavior_is_written_in_decimal_and_read_in_hexadecimal() {
    let value = AssetValueLayout {
        guid: AzUuid::from_u128(1),
        sub_id: 0,
        asset_type: AzUuid::from_u128(2),
        hint: String::new(),
        load_behavior: 12,
    };
    let text = value.to_text(2).unwrap();
    assert!(text.ends_with(",loadBehavior=12"));
    assert_eq!(AssetValueLayout::from_text(&text, 2).unwrap().load_behavior, 0x12);
}
