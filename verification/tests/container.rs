use az_objectstream::az_uuid::AzUuid;
use az_objectstream::container::{
    container_capacity_kind_for_class_data_uuid, container_capacity_kind_for_generic_uuid,
    container_cardinality_for_class_data_uuid, container_cardinality_for_generic_uuid,
    container_shape_for_class_data_uuid, container_shape_for_generic_uuid, ContainerCapacityKind,
    GENERIC_ARRAY_TYPE_ID, GENERIC_FIXED_VECTOR_TYPE_ID, GENERIC_FORWARD_LIST_TYPE_ID, GENERIC_INTRUSIVE_PTR_TYPE_ID,
    GENERIC_LIST_TYPE_ID, GENERIC_MAP_TYPE_ID, GENERIC_OPTIONAL_TYPE_ID, GENERIC_PAIR_TYPE_ID, GENERIC_SET_TYPE_ID,
    GENERIC_SHARED_PTR_TYPE_ID, GENERIC_TUPLE_TYPE_ID, GENERIC_UNIQUE_PTR_TYPE_ID,
    GENERIC_UNORDERED_FLAT_MAP_TYPE_ID, GENERIC_UNORDERED_MAP_TYPE_ID, GENERIC_UNORDERED_MULTIMAP_TYPE_ID,
    GENERIC_UNORDERED_MULTISET_TYPE_ID, GENERIC_UNORDERED_SET_TYPE_ID, GENERIC_VARIANT_TYPE_ID,
    GENERIC_VECTOR_TYPE_ID, RVALUE_WRAPPER_CLASS_DATA_TYPE_ID,
};
use az_objectstream::context::{ContainerCardinality, ContainerShape, ObjectStreamReadContext, ReflectedClass};
use az_objectstream::error::ObjectStreamError;

fn id(bits: u128) -> AzUuid {
    AzUuid::from_u128(bits)
}

#[test]
fn canonical_generic_ids_classify_by_native_adapter_family() {
    let families: [(&[u128], ContainerShape); 8] = [
        (
            &[
                GENERIC_VECTOR_TYPE_ID,
                GENERIC_FIXED_VECTOR_TYPE_ID,
                GENERIC_LIST_TYPE_ID,
                GENERIC_FORWARD_LIST_TYPE_ID,
                GENERIC_ARRAY_TYPE_ID,
            ],
            ContainerShape::Sequence,
        ),
        (
            &[GENERIC_SET_TYPE_ID, GENERIC_UNORDERED_SET_TYPE_ID, GENERIC_UNORDERED_MULTISET_TYPE_ID],
            ContainerShape::SetFamily,
        ),
        (
            &[
                GENERIC_MAP_TYPE_ID,
                GENERIC_UNORDERED_MAP_TYPE_ID,
                GENERIC_UNORDERED_MULTIMAP_TYPE_ID,
                GENERIC_UNORDERED_FLAT_MAP_TYPE_ID,
            ],
            ContainerShape::MapFamily,
        ),
        (&[GENERIC_PAIR_TYPE_ID], ContainerShape::Pair),
        (&[GENERIC_TUPLE_TYPE_ID], ContainerShape::Tuple),
        (
            &[GENERIC_SHARED_PTR_TYPE_ID, GENERIC_INTRUSIVE_PTR_TYPE_ID, GENERIC_UNIQUE_PTR_TYPE_ID],
            ContainerShape::SmartPointer,
        ),
        (&[GENERIC_OPTIONAL_TYPE_ID], ContainerShape::Optional),
        (&[GENERIC_VARIANT_TYPE_ID], ContainerShape::Variant),
    ];
    for (type_ids, expected) in families {
        for type_id in type_ids {
            assert_eq!(container_shape_for_generic_uuid(id(*type_id)), Some(expected));
        }
    }
}

#[test]
fn wrapper_uses_its_intentionally_distinct_class_data_id() {
    assert_eq!(
        container_shape_for_class_data_uuid(id(RVALUE_WRAPPER_CLASS_DATA_TYPE_ID)),
        Some(ContainerShape::Wrapper)
    );
    assert_eq!(container_shape_for_generic_uuid(id(RVALUE_WRAPPER_CLASS_DATA_TYPE_ID)), None);
}

#[test]
fn native_capacity_kind_preserves_fixed_vector_array_and_wrapper_distinctions() {
    assert_eq!(
        container_capacity_kind_for_generic_uuid(id(GENERIC_VECTOR_TYPE_ID)),
        Some(ContainerCapacityKind::Dynamic)
    );
    assert_eq!(
        container_capacity_kind_for_generic_uuid(id(GENERIC_FIXED_VECTOR_TYPE_ID)),
        Some(ContainerCapacityKind::FixedCapacity)
    );
    assert_eq!(
        container_capacity_kind_for_generic_uuid(id(GENERIC_ARRAY_TYPE_ID)),
        Some(ContainerCapacityKind::FixedSize)
    );
    assert_eq!(
        container_capacity_kind_for_class_data_uuid(id(RVALUE_WRAPPER_CLASS_DATA_TYPE_ID)),
        Some(ContainerCapacityKind::FixedSize)
    );
}

#[test]
fn cardinality_requires_captured_non_type_bounds() {
    assert_eq!(
        container_cardinality_for_generic_uuid(id(GENERIC_FIXED_VECTOR_TYPE_ID), Some(30), None),
        Some(ContainerCardinality::Bounded { capacity: 30 })
    );
    assert_eq!(
        container_cardinality_for_generic_uuid(id(GENERIC_ARRAY_TYPE_ID), Some(4), None),
        Some(ContainerCardinality::Fixed { size: 4 })
    );
    assert_eq!(container_cardinality_for_generic_uuid(id(GENERIC_ARRAY_TYPE_ID), None, None), None);
    assert_eq!(
        container_cardinality_for_generic_uuid(id(GENERIC_TUPLE_TYPE_ID), None, Some(3)),
        Some(ContainerCardinality::Fixed { size: 3 })
    );
    assert_eq!(
        container_cardinality_for_generic_uuid(id(GENERIC_SHARED_PTR_TYPE_ID), None, None),
        Some(ContainerCardinality::Bounded { capacity: 1 })
    );
    assert_eq!(
        container_cardinality_for_class_data_uuid(id(RVALUE_WRAPPER_CLASS_DATA_TYPE_ID)),
        Some(ContainerCardinality::Fixed { size: 1 })
    );
}

fn assert_cardinality(cardinality: ContainerCardinality, accepted: &[usize], rejected: &[usize]) {
    let type_id = AzUuid::from_u128(1);
    let mut context = ObjectStreamReadContext::default();
    let class = context
        .insert_class(type_id, ReflectedClass::new(type_id).with_container_cardinality(cardinality))
        .unwrap();

    for actual in accepted {
        assert!(
            context.validate_container_cardinality(class, *actual).is_ok(),
            "{cardinality:?} rejected {actual}"
        );
    }
    for actual in rejected {
        assert!(
            matches!(
                context.validate_container_cardinality(class, *actual),
                Err(ObjectStreamError::InvalidContainerCardinality {
                    expected: Some(expected),
                    actual: rejected_actual,
                    ..
                }) if expected == cardinality && rejected_actual == *actual
            ),
            "{cardinality:?} accepted {actual}"
        );
    }
}

#[test]
fn nullable_smart_pointer_and_optional_accept_zero_or_one_child() {
    for generic_type_id in [GENERIC_SHARED_PTR_TYPE_ID, GENERIC_OPTIONAL_TYPE_ID] {
        let cardinality = container_cardinality_for_generic_uuid(id(generic_type_id), None, None).unwrap();
        assert_cardinality(cardinality, &[0, 1], &[2]);
    }
}

#[test]
fn fixed_and_bounded_families_enforce_captured_child_counts() {
    assert_cardinality(
        container_cardinality_for_generic_uuid(id(GENERIC_PAIR_TYPE_ID), None, None).unwrap(),
        &[2],
        &[0, 1, 3],
    );
    assert_cardinality(
        container_cardinality_for_generic_uuid(id(GENERIC_TUPLE_TYPE_ID), None, Some(3)).unwrap(),
        &[3],
        &[2, 4],
    );
    assert_cardinality(
        container_cardinality_for_generic_uuid(id(GENERIC_FIXED_VECTOR_TYPE_ID), Some(3), None).unwrap(),
        &[0, 1, 3],
        &[4],
    );
    assert_cardinality(
        container_cardinality_for_generic_uuid(id(GENERIC_ARRAY_TYPE_ID), Some(3), None).unwrap(),
        &[3],
        &[2, 4],
    );
    assert_cardinality(
        container_cardinality_for_class_data_uuid(id(RVALUE_WRAPPER_CLASS_DATA_TYPE_ID)).unwrap(),
        &[1],
        &[0, 2],
    );
}

#[test]
fn specialized_registered_and_unknown_ids_are_not_guessed() {
    assert_eq!(container_shape_for_generic_uuid(id(0x2a3d1e1e_a69f_5860_8934_00c3bfe920cc)), None);
    assert_eq!(container_shape_for_generic_uuid(AzUuid::nil()), None);
    assert_eq!(container_shape_for_generic_uuid(id(u128::MAX)), None);
}

#[test]
fn variable_cardinality_admits_any_count() {
    assert_cardinality(
        container_cardinality_for_generic_uuid(id(GENERIC_VECTOR_TYPE_ID), None, None).unwrap(),
        &[0, 1, 1000],
        &[],
    );
}
