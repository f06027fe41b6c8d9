use az_objectstream::az_uuid::AzUuid;
use az_objectstream::crc::field_name_crc;
use az_objectstream::lookup::LumberyardHashes;

#[test]
fn fallback_type_names_do_not_replace_runtime_names() {
    let legacy = AzUuid::from_u128(0x1234);
    let mut hashes = LumberyardHashes::new();
    hashes.insert_type_name(legacy, "RuntimeName");
    hashes.extend_type_names(&[(legacy, "AZStd::string"), (AzUuid::from_u128(0x99), "ByteStream")]);

    assert_eq!(hashes.name_for_type(&legacy).map(String::as_str), Some("RuntimeName"));
    assert_eq!(hashes.name_for_type(&AzUuid::from_u128(0x99)).map(String::as_str), Some("ByteStream"));
    assert_eq!(hashes.uuid_count(), 2);
}

#[test]
fn field_names_are_keyed_by_their_case_folded_crc() {
    let mut hashes = LumberyardHashes::new();
    hashes.extend_field_names(&["DebugName", "debugName"]);
    assert_eq!(hashes.crc_count(), 1);
    assert_eq!(hashes.field_name(field_name_crc("DEBUGNAME")).map(String::as_str), Some("DebugName"));
    assert_eq!(hashes.field_name(1), None);
}

#[test]
fn inserting_a_type_name_returns_the_replaced_one() {
    let id = AzUuid::from_u128(7);
    let mut hashes = LumberyardHashes::default();
    assert_eq!(hashes.insert_type_name(id, "A"), None);
    assert_eq!(hashes.insert_type_name(id, "B"), Some("A".to_string()));
    assert_eq!(hashes.name_for_type(&id).map(String::as_str), Some("B"));
}

#[test]
fn field_name_crc_matches_the_engine_constants() {
    assert_eq!(field_name_crc("BaseClass1"), 3_566_360_373);
    assert_eq!(field_name_crc("AssetPath"), 741_691_769);
}
