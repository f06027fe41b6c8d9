//! Canonical `SerializeContext::IDataContainer` families.
//!
//! A specialized UUID or a `uuidGenericMap` alias identifies an
//! instantiation, not its container adapter.  Resolve either through
//! `GenericClassInfo`, then classify the resulting generic type id here.
//! Unknown generic ids deliberately stay unclassified.  The ids are given as
//! their 128-bit values.
use vstd::prelude::*;

use crate::az_uuid::AzUuid;
use crate::context::{ContainerCardinality, ContainerShape};

verus! {

/// `GenericClassInfoVector`.
pub const GENERIC_VECTOR_TYPE_ID: u128 = 0x2bade35a_6f1b_4698_b2bc_3373d010020c;
/// `GenericClassInfoFixedVector`.
pub const GENERIC_FIXED_VECTOR_TYPE_ID: u128 = 0x6c6751b0_392a_4e71_8bf8_179484d7d22f;
/// `GenericClassInfoList`.
pub const GENERIC_LIST_TYPE_ID: u128 = 0xb845ad64_b5a0_4ccd_a86b_3477a36779be;
/// `GenericClassInfoForwardList`.
pub const GENERIC_FORWARD_LIST_TYPE_ID: u128 = 0xd48e20e1_d3a3_46f7_a869_927f5ef50127;
/// `GenericClassInfoArray`.
pub const GENERIC_ARRAY_TYPE_ID: u128 = 0x286e1198_0867_4198_95d3_6cc569658e07;
/// `GenericClassSet`.
pub const GENERIC_SET_TYPE_ID: u128 = 0x4a64d2a5_7265_4e3d_805c_ba2d0626f542;
/// `GenericClassUnorderedSet`.
pub const GENERIC_UNORDERED_SET_TYPE_ID: u128 = 0xb04e902e_c6f7_4212_a166_1b52f7437d3c;
/// `GenericClassUnorderedMultiSet`.
pub const GENERIC_UNORDERED_MULTISET_TYPE_ID: u128 = 0xb619da0d_f050_41aa_b092_416cacb7c710;
/// `GenericClassMap`.
pub const GENERIC_MAP_TYPE_ID: u128 = 0xdb825311_453d_45c8_b07f_b9cd9a32acb4;
/// `GenericClassUnorderedMap`.
pub const GENERIC_UNORDERED_MAP_TYPE_ID: u128 = 0x18456a80_63cc_40c5_bf16_6af94f9a9ecc;
/// `GenericClassUnorderedMultiMap`.
pub const GENERIC_UNORDERED_MULTIMAP_TYPE_ID: u128 = 0x119669b8_92bf_468f_97d9_9d45f298bcd4;
/// `GenericClassUnorderedFlatMap`: an associative pair container whose
/// elements decode like the node-based map's.
pub const GENERIC_UNORDERED_FLAT_MAP_TYPE_ID: u128 = 0x5aa0cb76_f01c_4c17_9fb0_21acee30a5d5;
/// `GenericClassPair`.
pub const GENERIC_PAIR_TYPE_ID: u128 = 0x9f3f5302_3390_407a_a6f7_2e011e3bb686;
/// `GenericClassTuple`.
pub const GENERIC_TUPLE_TYPE_ID: u128 = 0xf98df943_f870_4fe2_b6a9_3e8bc5861782;
/// `GenericClassSharedPtr`.
pub const GENERIC_SHARED_PTR_TYPE_ID: u128 = 0xd5b5aca6_a81e_410e_8151_80c97b8cd2a0;
/// `GenericClassIntrusivePtr`.
pub const GENERIC_INTRUSIVE_PTR_TYPE_ID: u128 = 0xc4b5400b_5cdc_4b14_932e_bfa30bc1de35;
/// `GenericClassUniquePtr`.
pub const GENERIC_UNIQUE_PTR_TYPE_ID: u128 = 0xd37df835_5b18_4f9e_9c8f_03b967483080;
/// `GenericClassOptional`.
pub const GENERIC_OPTIONAL_TYPE_ID: u128 = 0x2c75b779_4661_4102_9d40_b2a680b6de36;
/// `GenericClassVariant`.
pub const GENERIC_VARIANT_TYPE_ID: u128 = 0x1e8bb1e5_410a_4367_8faa_d43a4de14d4b;
/// `ClassData` id hardcoded by `GenericClassWrapper`, whose generic type id
/// is the per-`T` specialized id.
pub const RVALUE_WRAPPER_CLASS_DATA_TYPE_ID: u128 = 0x642aba5e_bb70_40ef_a986_933420d89f85;

/// Native fixed-size / fixed-capacity behavior of a container family.
#[derive(Clone, Copy, Debug, PartialEq, Eq, Structural)]
pub enum ContainerCapacityKind {
    Dynamic,
    FixedCapacity,
    FixedSize,
}

pub open spec fn spec_is_sequence_family(b: u128) -> bool {
    b == GENERIC_VECTOR_TYPE_ID || b == GENERIC_FIXED_VECTOR_TYPE_ID || b == GENERIC_LIST_TYPE_ID || b
        == GENERIC_FORWARD_LIST_TYPE_ID || b == GENERIC_ARRAY_TYPE_ID
}

pub open spec fn spec_is_set_family(b: u128) -> bool {
    b == GENERIC_SET_TYPE_ID || b == GENERIC_UNORDERED_SET_TYPE_ID || b == GENERIC_UNORDERED_MULTISET_TYPE_ID
}

pub open spec fn spec_is_map_family(b: u128) -> bool {
    b == GENERIC_MAP_TYPE_ID || b == GENERIC_UNORDERED_MAP_TYPE_ID || b == GENERIC_UNORDERED_MULTIMAP_TYPE_ID || b
        == GENERIC_UNORDERED_FLAT_MAP_TYPE_ID
}

pub open spec fn spec_is_smart_pointer_family(b: u128) -> bool {
    b == GENERIC_SHARED_PTR_TYPE_ID || b == GENERIC_INTRUSIVE_PTR_TYPE_ID || b == GENERIC_UNIQUE_PTR_TYPE_ID
}

/// Container family of a canonical generic type id.
pub open spec fn spec_container_shape_for_generic(id: AzUuid) -> Option<ContainerShape> {
    let b = id.bits;
    if spec_is_sequence_family(b) {
        Some(ContainerShape::Sequence)
    } else if spec_is_set_family(b) {
        Some(ContainerShape::SetFamily)
    } else if spec_is_map_family(b) {
        Some(ContainerShape::MapFamily)
    } else if b == GENERIC_PAIR_TYPE_ID {
        Some(ContainerShape::Pair)
    } else if b == GENERIC_TUPLE_TYPE_ID {
        Some(ContainerShape::Tuple)
    } else if spec_is_smart_pointer_family(b) {
        Some(ContainerShape::SmartPointer)
    } else if b == GENERIC_OPTIONAL_TYPE_ID {
        Some(ContainerShape::Optional)
    } else if b == GENERIC_VARIANT_TYPE_ID {
        Some(ContainerShape::Variant)
    } else {
        None
    }
}

/// Classify one native `GetGenericTypeId()` value.  Specialized ids and
/// registration aliases must be resolved to their generic info first.
pub fn container_shape_for_generic_uuid(generic_type_id: AzUuid) -> (r: Option<ContainerShape>)
    ensures
        r == spec_container_shape_for_generic(generic_type_id),
{
    let b = generic_type_id.bits;
    if b == GENERIC_VECTOR_TYPE_ID || b == GENERIC_FIXED_VECTOR_TYPE_ID || b == GENERIC_LIST_TYPE_ID || b
        == GENERIC_FORWARD_LIST_TYPE_ID || b == GENERIC_ARRAY_TYPE_ID {
        Some(ContainerShape::Sequence)
    } else if b == GENERIC_SET_TYPE_ID || b == GENERIC_UNORDERED_SET_TYPE_ID || b
        == GENERIC_UNORDERED_MULTISET_TYPE_ID {
        Some(ContainerShape::SetFamily)
    } else if b == GENERIC_MAP_TYPE_ID || b == GENERIC_UNORDERED_MAP_TYPE_ID || b
        == GENERIC_UNORDERED_MULTIMAP_TYPE_ID || b == GENERIC_UNORDERED_FLAT_MAP_TYPE_ID {
        Some(ContainerShape::MapFamily)
    } else if b == GENERIC_PAIR_TYPE_ID {
        Some(ContainerShape::Pair)
    } else if b == GENERIC_TUPLE_TYPE_ID {
        Some(ContainerShape::Tuple)
    } else if b == GENERIC_SHARED_PTR_TYPE_ID || b == GENERIC_INTRUSIVE_PTR_TYPE_ID || b
        == GENERIC_UNIQUE_PTR_TYPE_ID {
        Some(ContainerShape::SmartPointer)
    } else if b == GENERIC_OPTIONAL_TYPE_ID {
        Some(ContainerShape::Optional)
    } else if b == GENERIC_VARIANT_TYPE_ID {
        Some(ContainerShape::Variant)
    } else {
        None
    }
}

/// Classify a family whose canonical evidence is its `ClassData` id (the
/// rvalue wrapper).
pub fn container_shape_for_class_data_uuid(type_id: AzUuid) -> (r: Option<ContainerShape>)
    ensures
        r == (if type_id.bits == RVALUE_WRAPPER_CLASS_DATA_TYPE_ID {
            Some(ContainerShape::Wrapper)
        } else {
            None
        }),
{
    if type_id.bits == RVALUE_WRAPPER_CLASS_DATA_TYPE_ID {
        Some(ContainerShape::Wrapper)
    } else {
        None
    }
}

/// Native capacity behavior of a canonical generic family.
pub open spec fn spec_capacity_kind_for_generic(id: AzUuid) -> Option<ContainerCapacityKind> {
    let b = id.bits;
    if b == GENERIC_FIXED_VECTOR_TYPE_ID || b == GENERIC_OPTIONAL_TYPE_ID {
        Some(ContainerCapacityKind::FixedCapacity)
    } else if b == GENERIC_ARRAY_TYPE_ID || b == GENERIC_PAIR_TYPE_ID || b == GENERIC_TUPLE_TYPE_ID
        || spec_is_smart_pointer_family(b) || b == GENERIC_VARIANT_TYPE_ID {
        Some(ContainerCapacityKind::FixedSize)
    } else if spec_container_shape_for_generic(id) is Some {
        Some(ContainerCapacityKind::Dynamic)
    } else {
        None
    }
}

pub fn container_capacity_kind_for_generic_uuid(generic_type_id: AzUuid) -> (r: Option<ContainerCapacityKind>)
    ensures
        r == spec_capacity_kind_for_generic(generic_type_id),
{
    let b = generic_type_id.bits;
    if b == GENERIC_FIXED_VECTOR_TYPE_ID || b == GENERIC_OPTIONAL_TYPE_ID {
        Some(ContainerCapacityKind::FixedCapacity)
    } else if b == GENERIC_ARRAY_TYPE_ID || b == GENERIC_PAIR_TYPE_ID || b == GENERIC_TUPLE_TYPE_ID || b
        == GENERIC_SHARED_PTR_TYPE_ID || b == GENERIC_INTRUSIVE_PTR_TYPE_ID || b == GENERIC_UNIQUE_PTR_TYPE_ID
        || b == GENERIC_VARIANT_TYPE_ID {
        Some(ContainerCapacityKind::FixedSize)
    } else if container_shape_for_generic_uuid(generic_type_id).is_some() {
        Some(ContainerCapacityKind::Dynamic)
    } else {
        None
    }
}

pub fn container_capacity_kind_for_class_data_uuid(type_id: AzUuid) -> (r: Option<ContainerCapacityKind>)
    ensures
        r == (if type_id.bits == RVALUE_WRAPPER_CLASS_DATA_TYPE_ID {
            Some(ContainerCapacityKind::FixedSize)
        } else {
            None
        }),
{
    if type_id.bits == RVALUE_WRAPPER_CLASS_DATA_TYPE_ID {
        Some(ContainerCapacityKind::FixedSize)
    } else {
        None
    }
}

/// `ObjectStream` child cardinality of a canonical family.  `fixed_vector`
/// and `array` need the captured non-type capacity, a tuple its template
/// argument count; missing evidence gives `None` rather than a guessed
/// bound.  Nullable smart pointers and optionals hold at most one child.
pub open spec fn spec_cardinality_for_generic(
    id: AzUuid,
    non_type_capacity: Option<usize>,
    templated_argument_count: Option<usize>,
) -> Option<ContainerCardinality> {
    let b = id.bits;
    if b == GENERIC_FIXED_VECTOR_TYPE_ID {
        match non_type_capacity {
            Some(capacity) => Some(ContainerCardinality::Bounded { capacity }),
            None => None,
        }
    } else if b == GENERIC_ARRAY_TYPE_ID {
        match non_type_capacity {
            Some(size) => Some(ContainerCardinality::Fixed { size }),
            None => None,
        }
    } else if b == GENERIC_PAIR_TYPE_ID {
        Some(ContainerCardinality::Fixed { size: 2 })
    } else if b == GENERIC_TUPLE_TYPE_ID {
        match templated_argument_count {
            Some(size) => Some(ContainerCardinality::Fixed { size }),
            None => None,
        }
    } else if spec_is_smart_pointer_family(b) {
        Some(ContainerCardinality::Bounded { capacity: 1 })
    } else if b == GENERIC_VARIANT_TYPE_ID {
        Some(ContainerCardinality::Fixed { size: 1 })
    } else if b == GENERIC_OPTIONAL_TYPE_ID {
        Some(ContainerCardinality::Bounded { capacity: 1 })
    } else if spec_container_shape_for_generic(id) is Some {
        Some(ContainerCardinality::Variable)
    } else {
        None
    }
}

pub fn container_cardinality_for_generic_uuid(
    generic_type_id: AzUuid,
    non_type_capacity: Option<usize>,
    templated_argument_count: Option<usize>,
) -> (r: Option<ContainerCardinality>)
    ensures
        r == spec_cardinality_for_generic(generic_type_id, non_type_capacity, templated_argument_count),
{
    let b = generic_type_id.bits;
    if b == GENERIC_FIXED_VECTOR_TYPE_ID {
        match non_type_capacity {
            Some(capacity) => Some(ContainerCardinality::Bounded { capacity }),
            None => None,
        }
    } else if b == GENERIC_ARRAY_TYPE_ID {
        match non_type_capacity {
            Some(size) => Some(ContainerCardinality::Fixed { size }),
            None => None,
        }
    } else if b == GENERIC_PAIR_TYPE_ID {
        Some(ContainerCardinality::Fixed { size: 2 })
    } else if b == GENERIC_TUPLE_TYPE_ID {
        match templated_argument_count {
            Some(size) => Some(ContainerCardinality::Fixed { size }),
            None => None,
        }
    } else if b == GENERIC_SHARED_PTR_TYPE_ID || b == GENERIC_INTRUSIVE_PTR_TYPE_ID || b
        == GENERIC_UNIQUE_PTR_TYPE_ID {
        Some(ContainerCardinality::Bounded { capacity: 1 })
    } else if b == GENERIC_VARIANT_TYPE_ID {
        Some(ContainerCardinality::Fixed { size: 1 })
    } else if b == GENERIC_OPTIONAL_TYPE_ID {
        Some(ContainerCardinality::Bounded { capacity: 1 })
    } else if container_shape_for_generic_uuid(generic_type_id).is_some() {
        Some(ContainerCardinality::Variable)
    } else {
        None
    }
}

pub fn container_cardinality_for_class_data_uuid(type_id: AzUuid) -> (r: Option<ContainerCardinality>)
    ensures
        r == (if type_id.bits == RVALUE_WRAPPER_CLASS_DATA_TYPE_ID {
            Some(ContainerCardinality::Fixed { size: 1 })
        } else {
            None
        }),
{
    if type_id.bits == RVALUE_WRAPPER_CLASS_DATA_TYPE_ID {
        Some(ContainerCardinality::Fixed { size: 1 })
    } else {
        None
    }
}

/// A child count the cardinality contract admits: any for a variable
/// container, at most the capacity when bounded, exactly the size when fixed.
pub open spec fn spec_cardinality_admits(c: ContainerCardinality, actual: nat) -> bool {
    match c {
        ContainerCardinality::Variable => true,
        ContainerCardinality::Bounded { capacity } => actual <= capacity,
        ContainerCardinality::Fixed { size } => actual == size,
    }
}

/// Every family this registry classifies has a capacity behavior, and a
/// capacity behavior exists only for classified families.
pub proof fn lemma_capacity_kind_iff_shape(id: AzUuid)
    ensures
        spec_capacity_kind_for_generic(id) is Some <==> spec_container_shape_for_generic(id) is Some,
{
}

/// A family's cardinality is known without captured evidence exactly when
/// it is classified and is neither `fixed_vector`, `array` nor a tuple; and
/// with evidence, every classified family has one.
pub proof fn lemma_cardinality_iff_shape(id: AzUuid, capacity: usize, count: usize)
    ensures
        spec_cardinality_for_generic(id, Some(capacity), Some(count)) is Some
            <==> spec_container_shape_for_generic(id) is Some,
        spec_cardinality_for_generic(id, None, None) is Some <==> (spec_container_shape_for_generic(id) is Some
            && id.bits != GENERIC_FIXED_VECTOR_TYPE_ID && id.bits != GENERIC_ARRAY_TYPE_ID && id.bits
            != GENERIC_TUPLE_TYPE_ID),
{
}

/// A fixed-capacity family admits the empty container and at most its
/// capacity; a fixed-size family admits exactly its size.
pub proof fn lemma_capacity_kind_matches_cardinality(id: AzUuid, capacity: usize, count: usize, actual: nat)
    requires
        !spec_is_smart_pointer_family(id.bits),
    ensures
        spec_capacity_kind_for_generic(id) == Some(ContainerCapacityKind::FixedCapacity) ==> (spec_cardinality_for_generic(
            id,
            Some(capacity),
            Some(count),
        ) matches Some(c) && spec_cardinality_admits(c, 0) && (spec_cardinality_admits(c, actual) <==> actual
            <= (if id.bits == GENERIC_FIXED_VECTOR_TYPE_ID {
            capacity as nat
        } else {
            1nat
        }))),
        spec_capacity_kind_for_generic(id) == Some(ContainerCapacityKind::Dynamic) ==> spec_cardinality_for_generic(
            id,
            Some(capacity),
            Some(count),
        ) == Some(ContainerCardinality::Variable),
{
}

/// A fixed-size family other than the nullable smart pointers holds exactly
/// its size: given the captured evidence its cardinality is `Fixed`, and it
/// admits one child count only (for a variant, exactly one child, whatever
/// evidence is given; never an empty variant).  A nullable smart pointer
/// holds at most one child.
pub proof fn lemma_fixed_size_admits_one_count(
    id: AzUuid,
    non_type_capacity: Option<usize>,
    templated_argument_count: Option<usize>,
    capacity: usize,
    count: usize,
    actual: nat,
)
    ensures
        spec_capacity_kind_for_generic(id) == Some(ContainerCapacityKind::FixedSize) && !spec_is_smart_pointer_family(
            id.bits,
        ) ==> (spec_cardinality_for_generic(id, Some(capacity), Some(count)) matches Some(c) && c is Fixed
            && (spec_cardinality_admits(c, actual) <==> actual == c->size)),
        id.bits == GENERIC_VARIANT_TYPE_ID ==> (spec_cardinality_for_generic(
            id,
            non_type_capacity,
            templated_argument_count,
        ) matches Some(c) && (spec_cardinality_admits(c, actual) <==> actual == 1) && !spec_cardinality_admits(c, 0)),
        id.bits == GENERIC_PAIR_TYPE_ID ==> (spec_cardinality_for_generic(
            id,
            non_type_capacity,
            templated_argument_count,
        ) matches Some(c) && (spec_cardinality_admits(c, actual) <==> actual == 2)),
        spec_is_smart_pointer_family(id.bits) ==> (spec_cardinality_for_generic(
            id,
            non_type_capacity,
            templated_argument_count,
        ) matches Some(c) && (spec_cardinality_admits(c, actual) <==> actual <= 1)),
{
}

} // verus!
