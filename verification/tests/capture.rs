use az_objectstream::az_uuid::AzUuid;
use az_objectstream::capture::{
    candidate_families, canonical_generic_type_id, capacity_of, choose_canonical_generic, parse_generic_metadata,
    CaptureError, CapturedGenericRecord, GenericFamily, GenericTypeIdDerivation,
};
use az_objectstream::container::{GENERIC_ARRAY_TYPE_ID, GENERIC_MAP_TYPE_ID, GENERIC_VECTOR_TYPE_ID};

/// Answers a fixed specialized UUID for the listed families.
struct Derived(Vec<(GenericFamily, u128)>);

impl GenericTypeIdDerivation for Derived {
    fn specialized_type_id(&self, family: GenericFamily, _: &[AzUuid], _: Option<usize>) -> Option<AzUuid> {
        self.0.iter().find(|(f, _)| *f == family).map(|(_, id)| AzUuid::from_u128(*id))
    }
}

fn record(type_ids: Vec<u128>, non_type: Vec<u64>, specialized: u128) -> CapturedGenericRecord {
    CapturedGenericRecord {
        templated_argument_count: type_ids.len() + non_type.len(),
        templated_type_ids: type_ids.into_iter().map(AzUuid::from_u128).collect(),
        non_type_template_arguments: non_type,
        registered_type_ids: vec![AzUuid::from_u128(0x5)],
        class_data_id: "class-1".to_string(),
        class_name: Some("AZStd::vector<int>".to_string()),
        class_data_element_count: None,
        class_data_elements: 2,
        specialized_type_id: AzUuid::from_u128(specialized),
        generic_type_id: None,
        legacy_specialized_type_id: None,
    }
}

#[test]
fn candidate_families_follow_the_argument_count() {
    assert_eq!(candidate_families(1, None).len(), 10);
    let with_capacity = candidate_families(1, Some(4));
    assert_eq!(with_capacity.len(), 12);
    assert_eq!(with_capacity[9], GenericFamily::FixedVector);
    assert_eq!(with_capacity[10], GenericFamily::Array);
    assert_eq!(
        candidate_families(2, None),
        vec![GenericFamily::Pair, GenericFamily::OrderedMap, GenericFamily::UnorderedMap, GenericFamily::Tuple]
    );
    assert_eq!(candidate_families(3, Some(1)), vec![GenericFamily::Tuple]);
}

#[test]
fn capacity_comes_from_the_first_non_type_argument() {
    assert_eq!(capacity_of(&[8, 3]), Some(8));
    assert_eq!(capacity_of(&[]), None);
}

#[test]
fn explicit_generic_id_is_kept() {
    let g = AzUuid::from_u128(0x42);
    let derivation = Derived(vec![(GenericFamily::Vector, 0x10)]);
    assert_eq!(
        canonical_generic_type_id(&[AzUuid::from_u128(1)], &[], AzUuid::from_u128(0x10), Some(g), &derivation),
        Ok(Some(g))
    );
}

#[test]
fn single_matching_family_names_the_generic_id() {
    let derivation = Derived(vec![(GenericFamily::Vector, 0x10), (GenericFamily::List, 0x11)]);
    assert_eq!(
        canonical_generic_type_id(
            &[AzUuid::from_u128(1)],
            &[],
            AzUuid::from_u128(0x10),
            Some(AzUuid::nil()),
            &derivation
        ),
        Ok(Some(AzUuid::from_u128(GENERIC_VECTOR_TYPE_ID)))
    );
    let fixed = Derived(vec![(GenericFamily::Array, 0x20)]);
    assert_eq!(
        canonical_generic_type_id(&[AzUuid::from_u128(1)], &[4], AzUuid::from_u128(0x20), None, &fixed),
        Ok(Some(AzUuid::from_u128(GENERIC_ARRAY_TYPE_ID)))
    );
    let map = Derived(vec![(GenericFamily::OrderedMap, 0x30)]);
    assert_eq!(
        canonical_generic_type_id(
            &[AzUuid::from_u128(1), AzUuid::from_u128(2)],
            &[],
            AzUuid::from_u128(0x30),
            None,
            &map
        ),
        Ok(Some(AzUuid::from_u128(GENERIC_MAP_TYPE_ID)))
    );
}

#[test]
fn unmatched_specialization_has_no_generic_id() {
    let derivation = Derived(vec![(GenericFamily::Vector, 0x10)]);
    assert_eq!(
        canonical_generic_type_id(&[AzUuid::from_u128(1)], &[], AzUuid::from_u128(0x99), None, &derivation),
        Ok(None)
    );
    // A fixed-capacity family is not tried without a capacity.
    let fixed = Derived(vec![(GenericFamily::Array, 0x20)]);
    assert_eq!(canonical_generic_type_id(&[AzUuid::from_u128(1)], &[], AzUuid::from_u128(0x20), None, &fixed), Ok(None));
}

#[test]
fn two_matching_families_are_ambiguous() {
    let derivation = Derived(vec![(GenericFamily::Vector, 0x10), (GenericFamily::OrderedSet, 0x10)]);
    assert!(matches!(
        canonical_generic_type_id(&[AzUuid::from_u128(1)], &[], AzUuid::from_u128(0x10), None, &derivation),
        Err(CaptureError::AmbiguousGenericFamily { first, .. }) if first == AzUuid::from_u128(GENERIC_VECTOR_TYPE_ID)
    ));
}

#[test]
fn repeated_answers_for_one_family_are_not_ambiguous() {
    let derived = [
        (GenericFamily::List, Some(AzUuid::from_u128(7))),
        (GenericFamily::List, Some(AzUuid::from_u128(7))),
        (GenericFamily::Tuple, None),
    ];
    assert!(matches!(choose_canonical_generic(None, AzUuid::from_u128(7), &derived), Ok(Some(_))));
}

#[test]
fn record_with_matching_counts_lowers() {
    let derivation = Derived(vec![(GenericFamily::Vector, 0x10)]);
    let metadata = parse_generic_metadata(record(vec![1], vec![], 0x10), &derivation).unwrap();
    assert_eq!(metadata.generic_type_id, Some(AzUuid::from_u128(GENERIC_VECTOR_TYPE_ID)));
    assert_eq!(metadata.class_data_id, "class-1");
    assert_eq!(metadata.templated_type_ids, vec![AzUuid::from_u128(1)]);
    assert_eq!(metadata.registered_type_ids, vec![AzUuid::from_u128(5)]);
}

#[test]
fn templated_count_may_include_non_type_arguments() {
    let derivation = Derived(Vec::new());
    let mut only_types = record(vec![1], vec![4], 0x10);
    only_types.templated_argument_count = 1;
    assert!(parse_generic_metadata(only_types, &derivation).is_ok());
    let mut wrong = record(vec![1], vec![4], 0x10);
    wrong.templated_argument_count = 3;
    assert_eq!(
        parse_generic_metadata(wrong, &derivation).unwrap_err(),
        CaptureError::TemplatedArgumentCount { declared: 3, type_arguments: 1, non_type_arguments: 1 }
    );
}

#[test]
fn class_data_element_count_must_match() {
    let derivation = Derived(Vec::new());
    let mut r = record(vec![1], vec![], 0x10);
    r.class_data_element_count = Some(3);
    assert_eq!(
        parse_generic_metadata(r, &derivation).unwrap_err(),
        CaptureError::ClassDataElementCount { expected: 3, actual: 2 }
    );
}
