use az_objectstream::az_uuid::AzUuid;
use az_objectstream::context::{
    ChildBinding, ChildFate, ContainerShape, ElementFate, GenericClassInfo, ObjectStreamDialect,
    ObjectStreamReadContext, ReflectedClass, ReflectedClassKey, ReflectedField, ResolveTypeInput, ResolvedType,
    SerializerRegistrationError, UnmatchedChildPolicy, UnregisteredClassPolicy, VersionConversionState,
    DYNAMIC_SERIALIZABLE_FIELD_TYPE_ID,
};
use az_objectstream::convert::ObjectStreamConverters;
use az_objectstream::crc::field_name_crc;
use az_objectstream::error::ObjectStreamError;
use az_objectstream::lookup::LumberyardHashes;
use az_objectstream::tree::Element;

const ASSET: u128 = 0x77A19D40_8731_4D3C_9041_1B43047366A4;

/// Converters that rewrite an element's type identity, by class.
#[derive(Default)]
struct ReplaceType {
    version: Vec<(ReflectedClassKey, AzUuid)>,
    data: Vec<(ReflectedClassKey, AzUuid)>,
}

impl ObjectStreamConverters for ReplaceType {
    fn convert_version(
        &self,
        class: ReflectedClassKey,
        mut element: Element,
        from: u32,
        to: u32,
    ) -> Result<Element, ObjectStreamError> {
        match self.version.iter().find(|(k, _)| *k == class) {
            Some((_, id)) => {
                element.id = *id;
                element.specialization = None;
                Ok(element)
            }
            None => Err(ObjectStreamError::UnsupportedVersionConversion {
                type_id: element.id,
                element_version: from,
                current_version: to,
            }),
        }
    }

    fn convert_data(
        &self,
        class: ReflectedClassKey,
        mut element: Element,
        source_type_id: AzUuid,
        target_type_id: AzUuid,
    ) -> Result<Element, ObjectStreamError> {
        match self.data.iter().find(|(k, _)| *k == class) {
            Some((_, id)) => {
                element.id = *id;
                element.specialization = None;
                Ok(element)
            }
            None => Err(ObjectStreamError::UnsupportedDataConversion { target_type_id, source_type_id }),
        }
    }
}

fn no_converters() -> ReplaceType {
    ReplaceType::default()
}

fn uuid(bits: u128) -> AzUuid {
    AzUuid::from_u128(bits)
}

/// The class key numbered `index`, as handed out by a context's
/// reservations (keys are numbered 0, 1, 2, ... per context).
fn key_numbered(index: u64) -> ReflectedClassKey {
    let mut scratch = ObjectStreamReadContext::default();
    let mut key = scratch.reserve_class_data();
    while key.value() < index {
        key = scratch.reserve_class_data();
    }
    key
}

fn generic(class: u128, specialized: AzUuid, generic: AzUuid, legacy: Option<AzUuid>) -> GenericClassInfo {
    GenericClassInfo::new(key_numbered(class as u64), specialized, Some(generic), legacy)
}

fn input(type_id: AzUuid) -> ResolveTypeInput {
    ResolveTypeInput {
        stream_version: 3,
        raw_type_id: type_id,
        specialization_type_id: None,
        element_version: 0,
        name_crc: None,
        parent: None,
    }
}

fn resolved(type_id: AzUuid, class: ReflectedClassKey) -> ResolvedType {
    ResolvedType {
        type_id: Some(type_id),
        class: Some(class),
        builtin_serializer: None,
        is_container: false,
        container_shape: None,
        ambiguous_generic: false,
    }
}

#[test]
fn direct_class_lookup_precedes_parent_generic() {
    let parent_id = uuid(1);
    let candidate = uuid(2);
    let generic_class = uuid(3);
    let mut context = ObjectStreamReadContext::default();
    let parent_key = context.reserve_class_data();
    let candidate_key = context.reserve_class_data();
    let generic_key = context.reserve_class_data();
    let mut parent = ReflectedClass::new(parent_id);
    parent.insert_field(
        7,
        ReflectedField::new(generic_class)
            .with_generic(GenericClassInfo::new(generic_key, candidate, Some(uuid(4)), None)),
    );
    context.define_class_data(parent_key, parent).unwrap();
    context.define_class_data(candidate_key, ReflectedClass::new(candidate)).unwrap();
    context.define_class_data(generic_key, ReflectedClass::new(generic_class)).unwrap();
    context.insert_direct_class_alias(parent_id, parent_key).unwrap();
    context.insert_direct_class_alias(candidate, candidate_key).unwrap();

    let resolved = context.resolve_type(ResolveTypeInput { parent: Some(parent_key), name_crc: Some(7), ..input(candidate) });
    assert_eq!(resolved.class, Some(candidate_key));
}

#[test]
fn generic_metadata_cannot_resolve_an_uncaptured_class() {
    let alias = uuid(5);
    let mut context = ObjectStreamReadContext::default();
    context.insert_generic(alias, generic(6, alias, uuid(7), None));

    let resolved = context.resolve_type(input(alias));

    assert_eq!(resolved.type_id, None);
    assert_eq!(resolved.class, None);
    assert!(matches!(
        context.validate_complete(),
        Err(SerializerRegistrationError::UndefinedGenericClass { map_id, class })
            if map_id == alias && class == key_numbered(6)
    ));
}

#[test]
fn absent_generic_type_id_does_not_authorize_nil_or_unrelated_aliases() {
    let class = key_numbered(8);
    let specialized = uuid(9);
    let info = GenericClassInfo::new(class, specialized, None, None);

    assert!(info.can_store_type(specialized));
    assert!(!info.can_store_type(AzUuid::nil()));
    assert!(!info.can_store_type(uuid(10)));
}

#[test]
fn generic_only_classdata_is_not_promoted_to_direct_uuid_map() {
    let class_type_id = uuid(12);
    let alias = uuid(13);
    let mut context = ObjectStreamReadContext::default();
    let generic_class = context.insert_class_data(ReflectedClass::new(class_type_id).as_container());
    context.insert_generic(alias, GenericClassInfo::new(generic_class, alias, None, None));

    assert_eq!(context.resolve_type(input(class_type_id)).class, None);
    assert_eq!(context.resolve_type(input(alias)).class, Some(generic_class));

    let direct = context.insert_class(class_type_id, ReflectedClass::new(class_type_id)).unwrap();
    assert_eq!(context.resolve_type(input(class_type_id)).class, Some(direct));
}

#[test]
fn resolver_preserves_captured_container_family() {
    let sequence = uuid(14);
    let opaque_container = uuid(15);
    let mut context = ObjectStreamReadContext::default();
    context
        .insert_class(sequence, ReflectedClass::new(sequence).with_container_shape(ContainerShape::Sequence))
        .unwrap();
    context.insert_class(opaque_container, ReflectedClass::new(opaque_container).as_container()).unwrap();

    let resolved_sequence = context.resolve_type(input(sequence));
    assert!(resolved_sequence.is_container);
    assert_eq!(resolved_sequence.container_shape, Some(ContainerShape::Sequence));

    let unresolved_family = context.resolve_type(input(opaque_container));
    assert!(unresolved_family.is_container);
    assert_eq!(unresolved_family.container_shape, None);
}

#[test]
fn class_version_defaults_to_zero_and_rejects_future_elements() {
    let type_id = uuid(16);
    let mut context = ObjectStreamReadContext::default();
    let class = context.insert_class(type_id, ReflectedClass::new(type_id)).unwrap();

    assert_eq!(context.validate_class_version(class, 0).unwrap(), VersionConversionState::Current);
    assert!(matches!(
        context.validate_class_version(class, 1),
        Err(ObjectStreamError::NewerClassVersion { element_version: 1, current_version: 0, .. })
    ));
}

#[test]
fn deprecated_class_without_native_converter_is_a_supported_discard() {
    let deprecated_id = uuid(19);
    let mut context = ObjectStreamReadContext::default();
    let deprecated = context.insert_class(deprecated_id, ReflectedClass::new(deprecated_id).deprecated()).unwrap();

    assert_eq!(context.validate_class_version(deprecated, 0).unwrap(), VersionConversionState::DeprecatedDiscard);
    assert!(
        context.executable_support_audit().is_fully_supported(),
        "native discard requires no executable converter"
    );
}

#[test]
fn container_lookup_rejects_missing_or_wrong_crc() {
    let parent_id = uuid(10);
    let child_id = uuid(11);
    let alias = uuid(12);
    let mut parent = ReflectedClass::new(parent_id).as_container();
    parent.insert_field(9, ReflectedField::new(child_id).with_generic(generic(11, alias, uuid(13), None)));
    let mut context = ObjectStreamReadContext::default();
    let parent = context.insert_class(parent_id, parent).unwrap();
    context.insert_class(child_id, ReflectedClass::new(child_id)).unwrap();

    for name_crc in [None, Some(8)] {
        let resolved = context.resolve_type(ResolveTypeInput { parent: Some(parent), name_crc, ..input(alias) });
        assert_eq!(
            resolved,
            ResolvedType {
                type_id: None,
                class: None,
                builtin_serializer: None,
                is_container: false,
                container_shape: None,
                ambiguous_generic: false,
            }
        );
    }
}

#[test]
fn can_store_uses_exact_native_triple_and_alias_map_is_separate() {
    let class_id = uuid(20);
    let specialized = uuid(21);
    let generic_id = uuid(22);
    let legacy = uuid(23);
    let registered_alias = uuid(24);
    let mut context = ObjectStreamReadContext::default();
    let class = context.insert_class(class_id, ReflectedClass::new(class_id)).unwrap();
    let info = GenericClassInfo::new(class, specialized, Some(generic_id), Some(legacy));
    assert!(info.can_store_type(specialized));
    assert!(info.can_store_type(generic_id));
    assert!(info.can_store_type(legacy));
    assert!(!info.can_store_type(registered_alias));

    context.insert_generic(registered_alias, info);
    assert_eq!(context.resolve_type(input(registered_alias)).class, Some(class));
}

#[test]
fn lumberyard_v2_asset_ignores_specialization_for_every_element_version() {
    let specialized = uuid(31);
    let mut context = ObjectStreamReadContext::default().with_dialect(ObjectStreamDialect::Lumberyard);
    let asset = context.insert_class(uuid(ASSET), ReflectedClass::new(uuid(ASSET))).unwrap();
    context.insert_class(specialized, ReflectedClass::new(specialized)).unwrap();

    let resolved = context.resolve_type(ResolveTypeInput {
        stream_version: 2,
        raw_type_id: uuid(ASSET),
        specialization_type_id: Some(specialized),
        element_version: 9,
        name_crc: None,
        parent: None,
    });

    assert_eq!(resolved.type_id, Some(uuid(ASSET)));
    assert_eq!(resolved.class, Some(asset));
}

#[test]
fn o3de_v2_asset_keeps_versioned_specialization_policy() {
    let parent_id = uuid(40);
    let serialized_specialization = uuid(41);
    let rebound_specialization = uuid(42);
    let mut parent = ReflectedClass::new(parent_id).as_container();
    parent.insert_field(
        7,
        ReflectedField::new(rebound_specialization).with_generic(generic(
            42,
            rebound_specialization,
            serialized_specialization,
            None,
        )),
    );
    let mut context = ObjectStreamReadContext::default();
    let parent = context.insert_class(parent_id, parent).unwrap();
    context.insert_class(uuid(ASSET), ReflectedClass::new(uuid(ASSET))).unwrap();
    context.insert_class(serialized_specialization, ReflectedClass::new(serialized_specialization)).unwrap();
    context.insert_class(rebound_specialization, ReflectedClass::new(rebound_specialization)).unwrap();

    let old = context.resolve_type(ResolveTypeInput {
        stream_version: 2,
        raw_type_id: uuid(ASSET),
        specialization_type_id: Some(serialized_specialization),
        element_version: 2,
        name_crc: Some(7),
        parent: Some(parent),
    });
    let current = context.resolve_type(ResolveTypeInput {
        element_version: 3,
        ..ResolveTypeInput {
            stream_version: 2,
            raw_type_id: uuid(ASSET),
            specialization_type_id: Some(serialized_specialization),
            element_version: 0,
            name_crc: Some(7),
            parent: Some(parent),
        }
    });

    assert_eq!(old.type_id, Some(serialized_specialization));
    assert_eq!(current.type_id, Some(rebound_specialization));
}

#[test]
fn captured_converter_pointer_without_implementation_fails_closed() {
    let id = uuid(51);
    let mut context = ObjectStreamReadContext::default();
    let class = context
        .insert_class(id, ReflectedClass::new(id).with_version(2).with_captured_version_converter())
        .unwrap();

    assert!(matches!(
        context.validate_class_version(class, 1),
        Err(ObjectStreamError::UnsupportedVersionConversion { element_version: 1, current_version: 2, .. })
    ));
}

#[test]
fn captured_data_converter_without_implementation_fails_closed() {
    let parent_id = uuid(52);
    let target_id = uuid(53);
    let source_id = uuid(54);
    let mut parent = ReflectedClass::new(parent_id);
    parent.insert_field(7, ReflectedField::new(target_id));
    let mut context = ObjectStreamReadContext::default();
    let parent = context.insert_class(parent_id, parent).unwrap();
    context.insert_class(target_id, ReflectedClass::new(target_id).with_captured_data_converter()).unwrap();
    let source = context.insert_class(source_id, ReflectedClass::new(source_id)).unwrap();

    assert!(matches!(
        context.validate_reachable_child(parent, Some(7), source_id, resolved(source_id, source)),
        Err(ObjectStreamError::UnsupportedDataConversion { target_type_id, source_type_id })
            if target_type_id == uuid(53) && source_type_id == uuid(54)
    ));
}

#[test]
fn child_field_name_comes_from_the_owning_class_registration() {
    let debug_name_crc = field_name_crc("debugName");
    assert_eq!(debug_name_crc, field_name_crc("DebugName"));

    let string_id = uuid(0x9001);
    let upper_parent_id = uuid(0x9002);
    let lower_parent_id = uuid(0x9003);

    let mut upper_parent = ReflectedClass::new(upper_parent_id);
    upper_parent.insert_named_field("DebugName", ReflectedField::new(string_id));
    let mut lower_parent = ReflectedClass::new(lower_parent_id);
    lower_parent.insert_named_field("debugName", ReflectedField::new(string_id));

    // The table resolves the hash to exactly one spelling.
    let mut names = LumberyardHashes::new();
    names.extend_field_names(&["DebugName"]);
    let mut context = ObjectStreamReadContext::new(names, ObjectStreamDialect::default());
    context.insert_class(string_id, ReflectedClass::new(string_id)).unwrap();
    let upper = context.insert_class(upper_parent_id, upper_parent).unwrap();
    let lower = context.insert_class(lower_parent_id, lower_parent).unwrap();

    let resolved_field_name = |parent| {
        let mut child = Element::new(string_id).with_field("DebugName".to_string());
        child.name_crc = Some(debug_name_crc);
        context.finalize_reachable_child(&no_converters(), parent, &mut child, 3).unwrap();
        child.field().map(ToString::to_string)
    };

    assert_eq!(
        resolved_field_name(upper).as_deref(),
        Some("DebugName"),
        "the class that registered `DebugName` keeps it"
    );
    assert_eq!(
        resolved_field_name(lower).as_deref(),
        Some("debugName"),
        "the class that registered `debugName` must not inherit the table's spelling"
    );
}

#[test]
fn raw_wire_id_cannot_authorize_incompatible_post_specialization_type() {
    let parent_id = uuid(65);
    let expected_id = uuid(66);
    let incompatible_id = uuid(67);
    let mut parent = ReflectedClass::new(parent_id);
    parent.insert_field(7, ReflectedField::new(expected_id));
    let mut context = ObjectStreamReadContext::default();
    let parent = context.insert_class(parent_id, parent).unwrap();
    let incompatible = context.insert_class(incompatible_id, ReflectedClass::new(incompatible_id)).unwrap();

    assert!(matches!(
        context.validate_reachable_child(parent, Some(7), expected_id, resolved(incompatible_id, incompatible)),
        Err(ObjectStreamError::UnexpectedReachableChild { .. })
    ));
}

#[test]
fn captured_unimplemented_serializer_is_distinct_from_structural_class() {
    let serializer_id = uuid(68);
    let structural_id = uuid(69);
    let mut context = ObjectStreamReadContext::default();
    let serializer =
        context.insert_class(serializer_id, ReflectedClass::new(serializer_id).with_captured_serializer()).unwrap();
    let structural = context.insert_class(structural_id, ReflectedClass::new(structural_id)).unwrap();

    assert!(matches!(
        context.validate_payload_support(serializer, true),
        Err(ObjectStreamError::UnsupportedSerializer { type_id }) if type_id == serializer_id
    ));
    assert!(matches!(
        context.validate_payload_support(serializer, false),
        Err(ObjectStreamError::UnsupportedSerializer { type_id }) if type_id == serializer_id
    ));
    assert!(matches!(
        context.validate_payload_support(structural, true),
        Err(ObjectStreamError::MissingSerializer { type_id }) if type_id == structural_id
    ));
    context.validate_payload_support(structural, false).unwrap();
}

#[test]
fn dynamic_field_preserves_resolved_dom_without_native_allocation() {
    let parent_id = uuid(55);
    let child_id = uuid(56);
    let mut parent = ReflectedClass::new(parent_id);
    parent.insert_field(7, ReflectedField::new(child_id).as_dynamic_field());
    let mut context = ObjectStreamReadContext::default();
    let parent = context.insert_class(parent_id, parent).unwrap();
    let child = context.insert_class(child_id, ReflectedClass::new(child_id)).unwrap();

    context.validate_reachable_child(parent, Some(7), child_id, resolved(child_id, child)).unwrap();
}

#[test]
fn native_dynamic_serializable_field_m_data_accepts_any_resolved_class() {
    let child_id = uuid(57);
    let dynamic_id = uuid(DYNAMIC_SERIALIZABLE_FIELD_TYPE_ID);
    let mut context = ObjectStreamReadContext::default();
    let dynamic = context.insert_class(dynamic_id, ReflectedClass::new(dynamic_id)).unwrap();
    let child_class = context.insert_class(child_id, ReflectedClass::new(child_id)).unwrap();
    let crc = field_name_crc("m_data");
    let resolved = context.resolve_type(ResolveTypeInput { parent: Some(dynamic), name_crc: Some(crc), ..input(child_id) });
    assert_eq!(resolved.class, Some(child_class));
    context.validate_reachable_child(dynamic, Some(crc), child_id, resolved).unwrap();

    let mut child = Element::new(child_id);
    child.name_crc = Some(crc);
    context.finalize_reachable_child(&no_converters(), dynamic, &mut child, 3).unwrap();
    assert_eq!(child.resolved_type_id(), Some(child_id));
}

#[test]
fn pointer_field_accepts_registered_rtti_derived_type_but_value_field_rejects_it() {
    let pointer_parent_id = uuid(71);
    let value_parent_id = uuid(72);
    let base_id = uuid(73);
    let derived_id = uuid(74);
    let mut pointer_parent = ReflectedClass::new(pointer_parent_id);
    pointer_parent.insert_field(1, ReflectedField::new(base_id).as_pointer());
    let mut value_parent = ReflectedClass::new(value_parent_id);
    value_parent.insert_field(1, ReflectedField::new(base_id));
    let mut context = ObjectStreamReadContext::default();
    let pointer_parent = context.insert_class(pointer_parent_id, pointer_parent).unwrap();
    let value_parent = context.insert_class(value_parent_id, value_parent).unwrap();
    let derived = context.insert_class(derived_id, ReflectedClass::new(derived_id)).unwrap();
    context.insert_rtti_base(derived_id, base_id);
    let child = resolved(derived_id, derived);

    context.validate_reachable_child(pointer_parent, Some(1), derived_id, child).unwrap();
    assert!(matches!(
        context.validate_reachable_child(value_parent, Some(1), derived_id, child),
        Err(ObjectStreamError::UnexpectedReachableChild { .. })
    ));
}

#[test]
fn exact_base_enum_underlying_and_generic_candidates_are_reachable() {
    let parent_id = uuid(81);
    let base_id = uuid(82);
    let enum_id = uuid(83);
    let underlying_id = uuid(84);
    let generic_class_id = uuid(85);
    let generic_alias = uuid(86);
    let generic_field_id = uuid(87);
    let mut parent = ReflectedClass::new(parent_id);
    parent.insert_field(1, ReflectedField::new(base_id).as_base_class());
    parent.insert_field(2, ReflectedField::new(enum_id));
    parent.insert_field(
        3,
        ReflectedField::new(generic_field_id).with_generic(generic(85, generic_class_id, generic_alias, None)),
    );
    let mut context = ObjectStreamReadContext::default();
    let parent = context.insert_class(parent_id, parent).unwrap();
    let base = context.insert_class(base_id, ReflectedClass::new(base_id)).unwrap();
    let underlying = context.insert_class(underlying_id, ReflectedClass::new(underlying_id)).unwrap();
    let generic_class = context.insert_class(generic_class_id, ReflectedClass::new(generic_class_id)).unwrap();
    context.insert_enum_underlying_type(enum_id, underlying_id).unwrap();

    for (crc, raw, class) in [(1, base_id, base), (2, underlying_id, underlying), (3, generic_alias, generic_class)] {
        context.validate_reachable_child(parent, Some(crc), raw, resolved(raw, class)).unwrap();
    }
}

#[test]
fn non_pointer_base_field_rejects_derived_serialized_type() {
    let parent_id = uuid(88);
    let base_id = uuid(89);
    let derived_id = uuid(90);
    let mut parent = ReflectedClass::new(parent_id);
    parent.insert_field(1, ReflectedField::new(base_id).as_base_class());
    let mut context = ObjectStreamReadContext::default();
    let parent = context.insert_class(parent_id, parent).unwrap();
    let base = context.insert_class(base_id, ReflectedClass::new(base_id)).unwrap();
    let derived = context.insert_class(derived_id, ReflectedClass::new(derived_id)).unwrap();
    context.insert_rtti_base(derived_id, base_id);

    context.validate_reachable_child(parent, Some(1), base_id, resolved(base_id, base)).unwrap();
    assert!(matches!(
        context.validate_reachable_child(parent, Some(1), derived_id, resolved(derived_id, derived)),
        Err(ObjectStreamError::UnexpectedReachableChild { .. })
    ));
}

#[test]
fn ambiguous_legacy_multimap_fails_root_but_parent_generic_disambiguates() {
    let legacy = uuid(0xa0);
    let registered_a = uuid(0xa1);
    let registered_b = uuid(0xa2);
    let specialized_a = uuid(0xa3);
    let specialized_b = uuid(0xa4);
    let parent_id = uuid(0xa5);
    let mut context = ObjectStreamReadContext::default();
    let class_a = context.insert_class_data(ReflectedClass::new(specialized_a));
    let class_b = context.insert_class_data(ReflectedClass::new(specialized_b));
    let info_a = GenericClassInfo::new(class_a, specialized_a, Some(registered_a), Some(legacy));
    let info_b = GenericClassInfo::new(class_b, specialized_b, Some(registered_b), Some(legacy));
    context.insert_generic(registered_a, info_a.clone());
    context.insert_generic(registered_b, info_b);
    context.insert_legacy_generic_redirect(legacy, registered_a).unwrap();
    context.insert_legacy_generic_redirect(legacy, registered_b).unwrap();
    context = context.with_unregistered_class_policy(UnregisteredClassPolicy::NativeSkip);

    let root = context.resolve_type(input(legacy));
    assert!(root.ambiguous_generic);
    assert!(matches!(
        context.resolved_element_fate(root, legacy),
        Err(ObjectStreamError::AmbiguousGenericType { type_id }) if type_id == legacy
    ));

    let mut parent = ReflectedClass::new(parent_id).as_container();
    parent.insert_field(7, ReflectedField::new(specialized_a).with_generic(info_a));
    let parent = context.insert_class(parent_id, parent).unwrap();
    let nested = context.resolve_type(ResolveTypeInput { parent: Some(parent), name_crc: Some(7), ..input(legacy) });
    assert!(!nested.ambiguous_generic);
    assert_eq!(nested.class, Some(class_a));
}

// --- further scenarios ---

#[test]
fn unregistered_class_policy_decides_element_fate() {
    let missing = uuid(0x300);
    let context = ObjectStreamReadContext::default();
    let unresolved = context.resolve_type(input(missing));
    assert!(matches!(
        context.resolved_element_fate(unresolved, missing),
        Err(ObjectStreamError::UnresolvedElementType { type_id }) if type_id == missing
    ));
    let skipping = ObjectStreamReadContext::default().with_unregistered_class_policy(UnregisteredClassPolicy::NativeSkip);
    assert_eq!(skipping.resolved_element_fate(unresolved, missing).unwrap(), ElementFate::Skip);
}

#[test]
fn unmatched_child_policy_decides_between_failure_and_discard() {
    let parent_id = uuid(0x310);
    let child_id = uuid(0x311);
    let mut context = ObjectStreamReadContext::default();
    let parent = context.insert_class(parent_id, ReflectedClass::new(parent_id)).unwrap();
    context.insert_class(child_id, ReflectedClass::new(child_id)).unwrap();

    let mut child = Element::new(child_id).with_name_crc(5);
    assert!(matches!(
        context.bind_reachable_child(parent, &mut child, 3),
        Err(ObjectStreamError::UnexpectedReachableChild { name_crc: Some(5), .. })
    ));
    let skipping = context.with_unmatched_child_policy(UnmatchedChildPolicy::NativeSkip);
    let mut child = Element::new(child_id).with_name_crc(5);
    assert_eq!(
        skipping.bind_reachable_child(parent, &mut child, 3).unwrap(),
        ChildBinding::Fate(ChildFate::Skip)
    );
    assert_eq!(child.resolved_type_id(), Some(child_id));
}

#[test]
fn registered_data_converter_is_requested_for_a_type_mismatch() {
    let parent_id = uuid(0x320);
    let target_id = uuid(0x321);
    let source_id = uuid(0x322);
    let mut parent = ReflectedClass::new(parent_id);
    parent.insert_field(7, ReflectedField::new(target_id));
    let mut context = ObjectStreamReadContext::default();
    let parent = context.insert_class(parent_id, parent).unwrap();
    let target = context
        .insert_class(target_id, ReflectedClass::new(target_id).with_captured_data_converter())
        .unwrap();
    context.insert_class(source_id, ReflectedClass::new(source_id)).unwrap();
    context.insert_data_converter(target).unwrap();

    let mut child = Element::new(source_id).with_name_crc(7);
    assert_eq!(
        context.bind_reachable_child(parent, &mut child, 3).unwrap(),
        ChildBinding::ConvertData { target_class: target, source_type_id: source_id, target_type_id: target_id }
    );
    let source = context.resolve_type(input(source_id));
    context.validate_reachable_child(parent, Some(7), source_id, source).unwrap();
    assert!(matches!(
        context.validate_finalized_reachable_child(parent, Some(7), source_id, source),
        Err(ObjectStreamError::UnexpectedReachableChild { .. })
    ));
}

#[test]
fn import_field_rename_rebinds_the_child_slot() {
    let parent_id = uuid(0x330);
    let child_id = uuid(0x331);
    let mut parent = ReflectedClass::new(parent_id);
    parent.insert_named_field("NewName", ReflectedField::new(child_id));
    let mut names = LumberyardHashes::new();
    names.extend_field_names(&["NewName"]);
    let mut context = ObjectStreamReadContext::new(names, ObjectStreamDialect::O3de);
    let parent = context.insert_class(parent_id, parent).unwrap();
    context.insert_class(child_id, ReflectedClass::new(child_id)).unwrap();
    context.insert_field_rename(parent_id, field_name_crc("OldName"), field_name_crc("NewName"));

    let mut child = Element::new(child_id).with_name_crc(field_name_crc("OldName"));
    context.apply_import_field_rename(parent, &mut child);
    assert_eq!(child.name_crc(), Some(field_name_crc("NewName")));
    assert_eq!(child.field().map(String::as_str), Some("NewName"));
    // A second pass changes nothing.
    context.apply_import_field_rename(parent, &mut child);
    assert_eq!(child.name_crc(), Some(field_name_crc("NewName")));

    let mut child = Element::new(child_id).with_name_crc(field_name_crc("OldName"));
    assert_eq!(
        context.bind_reachable_child(parent, &mut child, 3).unwrap(),
        ChildBinding::Fate(ChildFate::Retain)
    );
}

#[test]
fn unknown_parent_class_is_reported() {
    let child_id = uuid(0x340);
    let mut context = ObjectStreamReadContext::default();
    let child_class = context.insert_class(child_id, ReflectedClass::new(child_id)).unwrap();
    let unknown_parent = key_numbered(5);
    assert!(matches!(
        context.validate_reachable_child(unknown_parent, Some(1), child_id, resolved(child_id, child_class)),
        Err(ObjectStreamError::UnresolvedClassData { class }) if class == unknown_parent
    ));
    let unresolved = ResolvedType { type_id: None, ..resolved(child_id, child_class) };
    let parent = context.insert_class(uuid(0x341), ReflectedClass::new(uuid(0x341))).unwrap();
    assert!(matches!(
        context.validate_reachable_child(parent, Some(1), child_id, unresolved),
        Err(ObjectStreamError::UnresolvedElementType { type_id }) if type_id == child_id
    ));
}

#[test]
fn deprecated_class_uses_executable_converter_even_at_version_zero() {
    let deprecated_id = uuid(17);
    let replacement_id = uuid(18);
    let mut context = ObjectStreamReadContext::default();
    let deprecated = context
        .insert_class(deprecated_id, ReflectedClass::new(deprecated_id).deprecated().with_captured_version_converter())
        .unwrap();
    context.insert_class(replacement_id, ReflectedClass::new(replacement_id)).unwrap();
    context.insert_version_converter(deprecated).unwrap();
    let converters = ReplaceType { version: vec![(deprecated, replacement_id)], data: vec![] };
    let state = context.validate_class_version(deprecated, 0).unwrap();
    assert_eq!(state, VersionConversionState::RegisteredConverter { from: 0, to: 0 });

    let mut element = Element::new(deprecated_id);
    element.version = Some(0);
    context.convert_element(&converters, deprecated, state, &mut element, 3, None).unwrap();
    assert_eq!(element.resolved_type_id(), Some(replacement_id));
}

#[test]
fn executable_data_converter_replaces_and_reresolves_dom_identity() {
    let parent_id = uuid(57);
    let target_id = uuid(58);
    let source_id = uuid(59);
    let mut parent = ReflectedClass::new(parent_id);
    parent.insert_field(7, ReflectedField::new(target_id));
    let mut context = ObjectStreamReadContext::default();
    let parent = context.insert_class(parent_id, parent).unwrap();
    let target = context
        .insert_class(target_id, ReflectedClass::new(target_id).with_captured_data_converter())
        .unwrap();
    context.insert_class(source_id, ReflectedClass::new(source_id)).unwrap();
    context.insert_data_converter(target).unwrap();
    let converters = ReplaceType { version: vec![], data: vec![(target, target_id)] };
    let mut child = Element::new(source_id);
    child.name_crc = Some(7);

    context.finalize_reachable_child(&converters, parent, &mut child, 3).unwrap();

    assert_eq!(child.resolved_type_id(), Some(target_id));
    assert_eq!(child.resolved_class(), Some(target));
}

#[test]
fn strict_default_structural_conversion_rejects_unmapped_child() {
    let parent_id = uuid(61);
    let child_id = uuid(62);
    let mut parent = ReflectedClass::new(parent_id).with_version(1);
    parent.insert_field(7, ReflectedField::new(child_id));
    let mut context = ObjectStreamReadContext::default();
    let parent_class = context.insert_class(parent_id, parent).unwrap();
    let child_class = context.insert_class(child_id, ReflectedClass::new(child_id)).unwrap();

    assert_eq!(
        context.validate_class_version(parent_class, 0).unwrap(),
        VersionConversionState::StrictDefaultStructural { from: 0, to: 1 }
    );
    assert!(matches!(
        context.validate_reachable_child(parent_class, Some(8), child_id, resolved(child_id, child_class)),
        Err(ObjectStreamError::UnexpectedReachableChild { name_crc: Some(8), .. })
    ));
}

#[test]
fn strict_default_structural_conversion_advances_after_lossless_validation() {
    let parent_id = uuid(63);
    let child_id = uuid(64);
    let mut parent = ReflectedClass::new(parent_id).with_version(2);
    parent.insert_field(7, ReflectedField::new(child_id));
    let mut context = ObjectStreamReadContext::default();
    let parent_class = context.insert_class(parent_id, parent).unwrap();
    context.insert_class(child_id, ReflectedClass::new(child_id)).unwrap();
    let mut element = Element::new(parent_id);
    element.version = Some(1);
    let mut child = Element::new(child_id);
    child.name_crc = Some(7);
    element.elements.push(child);
    let state = context.validate_class_version(parent_class, 1).unwrap();

    context.convert_element(&no_converters(), parent_class, state, &mut element, 3, None).unwrap();

    assert_eq!(element.version, Some(2));
    assert_eq!(element.version_state, VersionConversionState::Current);
    assert_eq!(element.elements[0].resolved_type_id(), Some(child_id));
}

#[test]
fn executable_converter_re_resolves_replacement_class_identity() {
    let old_id = uuid(91);
    let replacement_id = uuid(92);
    let mut context = ObjectStreamReadContext::default();
    let old_class = context
        .insert_class(old_id, ReflectedClass::new(old_id).with_version(1).with_captured_version_converter())
        .unwrap();
    let replacement_class =
        context.insert_class(replacement_id, ReflectedClass::new(replacement_id).with_version(2)).unwrap();
    context.insert_version_converter(old_class).unwrap();
    let converters = ReplaceType { version: vec![(old_class, replacement_id)], data: vec![] };
    let mut element = Element::new(old_id);
    element.version = Some(0);
    let state = context.validate_class_version(old_class, 0).unwrap();

    let resolved = context.convert_element(&converters, old_class, state, &mut element, 3, None).unwrap();

    assert_eq!(resolved, replacement_class);
    assert_eq!(element.resolved_type_id(), Some(replacement_id));
    assert_eq!(element.resolved_class(), Some(replacement_class));
    assert_eq!(element.version, Some(2));
    assert_eq!(element.version_state, VersionConversionState::Current);
}

#[test]
fn resolve_element_tree_binds_root_and_children() {
    let parent_id = uuid(0x400);
    let child_id = uuid(0x401);
    let stale_id = uuid(0x402);
    let mut parent = ReflectedClass::new(parent_id);
    parent.insert_field(7, ReflectedField::new(child_id));
    let mut context = ObjectStreamReadContext::default();
    let parent_class = context.insert_class(parent_id, parent).unwrap();
    let child_class = context.insert_class(child_id, ReflectedClass::new(child_id)).unwrap();
    context.insert_class(stale_id, ReflectedClass::new(stale_id)).unwrap();

    let mut root = Element::new(parent_id).with_children(vec![Element::new(child_id).with_name_crc(7)]);
    context.resolve_element_tree(&no_converters(), 3, &mut root).unwrap();
    assert_eq!(root.resolved_class(), Some(parent_class));
    assert_eq!(root.children()[0].resolved_class(), Some(child_class));

    let mut unmatched = Element::new(parent_id).with_children(vec![Element::new(stale_id).with_name_crc(8)]);
    assert!(matches!(
        context.resolve_element_tree(&no_converters(), 3, &mut unmatched),
        Err(ObjectStreamError::UnexpectedReachableChild { name_crc: Some(8), .. })
    ));
    let skipping = context.with_unmatched_child_policy(UnmatchedChildPolicy::NativeSkip);
    let mut unmatched = Element::new(parent_id).with_children(vec![Element::new(stale_id).with_name_crc(8)]);
    skipping.resolve_element_tree(&no_converters(), 3, &mut unmatched).unwrap();
    assert!(unmatched.is_leaf());
}

#[test]
fn resolve_element_tree_checks_the_stream_header_first() {
    let id = uuid(0x410);
    let mut context = ObjectStreamReadContext::default();
    context.insert_class(id, ReflectedClass::new(id)).unwrap();
    let mut e = Element::new(id);
    assert!(matches!(
        context.resolve_element_tree(&no_converters(), 4, &mut e),
        Err(ObjectStreamError::UnsupportedVersion(4))
    ));
    assert!(matches!(
        context.resolve_element_tree(&no_converters(), 2, &mut e),
        Err(ObjectStreamError::MissingV2Specialization { type_id }) if type_id == id
    ));
    let mut unknown = Element::new(uuid(0x411));
    assert!(matches!(
        context.resolve_element_tree(&no_converters(), 3, &mut unknown),
        Err(ObjectStreamError::UnresolvedElementType { .. })
    ));
    assert_eq!(unknown.type_resolution(), az_objectstream::stream::TypeResolutionState::Unresolved);
    let _reserved = context.reserve_class_data();
    assert!(matches!(
        context.resolve_element_tree(&no_converters(), 3, &mut e),
        Err(ObjectStreamError::IncompleteReadContext(SerializerRegistrationError::UndefinedReservedClassData { .. }))
    ));
}

#[test]
fn deprecated_children_are_discarded_during_reresolution() {
    let parent_id = uuid(0x420);
    let old_id = uuid(0x421);
    let mut parent = ReflectedClass::new(parent_id);
    parent.insert_field(7, ReflectedField::new(old_id));
    let mut context = ObjectStreamReadContext::default();
    context.insert_class(parent_id, parent).unwrap();
    context.insert_class(old_id, ReflectedClass::new(old_id).deprecated()).unwrap();
    let mut root = Element::new(parent_id).with_children(vec![Element::new(old_id).with_name_crc(7)]);
    context.resolve_element_tree(&no_converters(), 3, &mut root).unwrap();
    assert!(root.is_leaf());
}

#[test]
fn reserved_class_data_is_defined_exactly_once() {
    let mut context = ObjectStreamReadContext::default();
    let key = context.reserve_class_data();
    let id = AzUuid::from_u128(71);
    assert_eq!(context.define_class_data(key, ReflectedClass::new(id)), Ok(()));
    assert_eq!(
        context.define_class_data(key, ReflectedClass::new(id)),
        Err(SerializerRegistrationError::DuplicateClassDataDefinition { class: key })
    );
}

#[test]
fn field_name_crc_ignores_ascii_case() {
    assert_eq!(field_name_crc("m_Data"), field_name_crc("M_DATA"));
    assert_ne!(field_name_crc("m_data"), field_name_crc("m_date"));
}

#[test]
fn reserved_keys_are_fresh_and_incomplete_until_defined() {
    let mut context = ObjectStreamReadContext::default();
    let k1 = context.reserve_class_data();
    let k2 = context.reserve_class_data();
    assert_ne!(k1, k2);
    assert!(context.class(k1).is_none());
    assert!(matches!(
        context.validate_complete(),
        Err(SerializerRegistrationError::UndefinedReservedClassData { .. })
    ));
    context.define_class_data(k1, ReflectedClass::new(AzUuid::from_u128(0x501))).unwrap();
    assert!(context.validate_complete().is_err());
    context.define_class_data(k2, ReflectedClass::new(AzUuid::from_u128(0x502))).unwrap();
    assert!(context.validate_complete().is_ok());
}
