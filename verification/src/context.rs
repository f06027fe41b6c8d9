//! Reflection and serializer context for legacy `ObjectStream`s.
//!
//! Resolution mirrors the native `SerializeContext`: choose the v2 lookup
//! candidate, find the `ClassData` (direct `uuidMap` first, then the parent
//! field's generic info, then `uuidGenericMap`, then enum underlying types),
//! and apply the registered class' `GenericClassInfo`.  A UUID alone never
//! proves that `ClassData` or a serializer exists.
use vstd::prelude::*;

use crate::az_uuid::AzUuid;
use crate::codec::{BuiltinSerializerDescriptor, BuiltinSerializerKind};
use crate::container::{spec_container_shape_for_generic, container_shape_for_generic_uuid};

verus! {

/// Engine generation whose v2 asset specialization rules apply.
#[derive(Clone, Copy, Debug, PartialEq, Eq, Structural)]
pub enum ObjectStreamDialect {
    /// Lumberyard: asset lookups always use the raw asset UUID.
    Lumberyard,
    /// O3DE: the element-version-dependent specialization policy.
    O3de,
}

impl Default for ObjectStreamDialect {
    fn default() -> (r: Self)
        ensures
            r == ObjectStreamDialect::O3de,
    {
        ObjectStreamDialect::O3de
    }
}

/// Opaque identity of one `ClassData` record in a read context.
#[derive(Clone, Copy, Debug, PartialEq, Eq, PartialOrd, Ord, Hash, Structural)]
pub struct ReflectedClassKey(u64);

impl ReflectedClassKey {
    pub closed spec fn index(self) -> u64 {
        self.0
    }

    /// The numeric identity (keys are handed out 0, 1, 2, ...).
    pub fn value(&self) -> (r: u64)
        ensures
            r == self.index(),
    {
        self.0
    }
}

/// Captured behavioral family of a native `IDataContainer`.
#[derive(Clone, Copy, Debug, PartialEq, Eq, Structural)]
pub enum ContainerShape {
    Sequence,
    SetFamily,
    MapFamily,
    Pair,
    Tuple,
    SmartPointer,
    Optional,
    Variant,
    Wrapper,
}

/// Captured native container size contract.
#[derive(Clone, Copy, Debug, PartialEq, Eq, Structural)]
pub enum ContainerCardinality {
    Variable,
    Bounded { capacity: usize },
    Fixed { size: usize },
}

/// Native `GenericClassInfo` identity: the `ClassData` it owns and the type
/// identities its `CanStoreType` accepts.
#[derive(Clone, Debug, PartialEq, Eq)]
pub struct GenericClassInfo {
    class: ReflectedClassKey,
    specialized_type_id: AzUuid,
    generic_type_id: Option<AzUuid>,
    legacy_specialized_type_id: Option<AzUuid>,
    smart_pointer_pointee_type_id: Option<AzUuid>,
    templated_type_ids: Vec<AzUuid>,
    non_type_template_arguments: Vec<u64>,
}

/// Everything a `GenericClassInfo` holds: owning class, specialized,
/// generic, legacy-specialized and smart-pointer pointee identities, type
/// template arguments and non-type template arguments.
pub type GenericClassInfoModel = (
    ReflectedClassKey,
    AzUuid,
    Option<AzUuid>,
    Option<AzUuid>,
    Option<AzUuid>,
    Seq<AzUuid>,
    Seq<u64>,
);

impl View for GenericClassInfo {
    type V = GenericClassInfoModel;

    closed spec fn view(&self) -> GenericClassInfoModel {
        (
            self.class,
            self.specialized_type_id,
            self.generic_type_id,
            self.legacy_specialized_type_id,
            self.smart_pointer_pointee_type_id,
            self.templated_type_ids@,
            self.non_type_template_arguments@,
        )
    }
}

/// Error attaching a smart-pointer pointee to a non-smart-pointer family.
#[derive(Clone, Copy, Debug, PartialEq, Eq, Structural)]
pub enum GenericClassInfoError {
    NotSmartPointer { generic_type_id: Option<AzUuid> },
}

/// Native `CanStoreType`: the specialized, generic, legacy-specialized or
/// smart-pointer pointee identity.
pub open spec fn spec_can_store(info: GenericClassInfoModel, type_id: AzUuid) -> bool {
    ||| type_id == info.1
    ||| info.2 == Some(type_id)
    ||| info.3 == Some(type_id)
    ||| info.4 == Some(type_id)
}

/// The `AZ::Data::Asset` type id.
pub open spec fn spec_asset_type_id() -> AzUuid {
    AzUuid { bits: 0x77A19D40_8731_4D3C_9041_1B43047366A4 }
}

/// The `AZ::Data::Asset` type id.
pub fn asset_type_id_constant() -> (r: AzUuid)
    ensures
        r == spec_asset_type_id(),
{
    AzUuid { bits: 0x77A19D40_8731_4D3C_9041_1B43047366A4 }
}

fn same_uuid_option(a: Option<AzUuid>, b: Option<AzUuid>) -> (r: bool)
    ensures
        r == (a == b),
{
    match (a, b) {
        (Some(x), Some(y)) => x.bits == y.bits,
        (None, None) => true,
        _ => false,
    }
}

fn same_uuids(a: &Vec<AzUuid>, b: &Vec<AzUuid>) -> (r: bool)
    ensures
        r == (a@ == b@),
{
    if a.len() != b.len() {
        return false;
    }
    let mut i: usize = 0;
    while i < a.len()
        invariant
            a@.len() == b@.len(),
            i <= a@.len(),
            forall|j: int| 0 <= j < i ==> a@[j] == b@[j],
        decreases a.len() - i,
    {
        if a[i].bits != b[i].bits {
            return false;
        }
        i = i + 1;
    }
    assert(a@ =~= b@);
    true
}

fn same_u64s(a: &Vec<u64>, b: &Vec<u64>) -> (r: bool)
    ensures
        r == (a@ == b@),
{
    if a.len() != b.len() {
        return false;
    }
    let mut i: usize = 0;
    while i < a.len()
        invariant
            a@.len() == b@.len(),
            i <= a@.len(),
            forall|j: int| 0 <= j < i ==> a@[j] == b@[j],
        decreases a.len() - i,
    {
        if a[i] != b[i] {
            return false;
        }
        i = i + 1;
    }
    assert(a@ =~= b@);
    true
}

fn copy_uuids(a: &Vec<AzUuid>) -> (r: Vec<AzUuid>)
    ensures
        r@ == a@,
{
    let mut r: Vec<AzUuid> = Vec::new();
    let mut i: usize = 0;
    while i < a.len()
        invariant
            i <= a@.len(),
            r@ =~= a@.subrange(0, i as int),
        decreases a.len() - i,
    {
        r.push(a[i]);
        i = i + 1;
    }
    assert(a@.subrange(0, a@.len() as int) =~= a@);
    r
}

fn copy_u64s(a: &Vec<u64>) -> (r: Vec<u64>)
    ensures
        r@ == a@,
{
    let mut r: Vec<u64> = Vec::new();
    let mut i: usize = 0;
    while i < a.len()
        invariant
            i <= a@.len(),
            r@ =~= a@.subrange(0, i as int),
        decreases a.len() - i,
    {
        r.push(a[i]);
        i = i + 1;
    }
    assert(a@.subrange(0, a@.len() as int) =~= a@);
    r
}

impl GenericClassInfo {
    pub fn new(
        class: ReflectedClassKey,
        specialized_type_id: AzUuid,
        generic_type_id: Option<AzUuid>,
        legacy_specialized_type_id: Option<AzUuid>,
    ) -> (r: Self)
        ensures
            r@ == (class, specialized_type_id, generic_type_id, legacy_specialized_type_id, None::<AzUuid>, Seq::<
                AzUuid,
            >::empty(), Seq::<u64>::empty()),
    {
        let r = GenericClassInfo {
            class,
            specialized_type_id,
            generic_type_id,
            legacy_specialized_type_id,
            smart_pointer_pointee_type_id: None,
            templated_type_ids: Vec::new(),
            non_type_template_arguments: Vec::new(),
        };
        assert(r.templated_type_ids@ =~= Seq::<AzUuid>::empty());
        r
    }

    /// Keep the captured type template arguments in declaration order.
    pub fn with_templated_type_ids(self, type_ids: Vec<AzUuid>) -> (r: Self)
        ensures
            r@ == (self@.0, self@.1, self@.2, self@.3, self@.4, type_ids@, self@.6),
    {
        GenericClassInfo { templated_type_ids: type_ids, ..self }
    }

    /// Keep the captured non-type template arguments (such as a
    /// `fixed_vector` capacity or an `array` size).
    pub fn with_non_type_template_arguments(self, arguments: Vec<u64>) -> (r: Self)
        ensures
            r@ == (self@.0, self@.1, self@.2, self@.3, self@.4, self@.5, arguments@),
    {
        GenericClassInfo { non_type_template_arguments: arguments, ..self }
    }

    /// Record the pointee the native smart-pointer `CanStoreType` overrides
    /// also accept.  Only the three smart-pointer families take one.
    pub fn with_smart_pointer_pointee(self, pointee_type_id: AzUuid) -> (r: Result<Self, GenericClassInfoError>)
        ensures
            (match self@.2 {
                Some(g) => spec_container_shape_for_generic(g) == Some(ContainerShape::SmartPointer),
                None => false,
            }) ==> (r matches Ok(v) && v@ == (self@.0, self@.1, self@.2, self@.3, Some(pointee_type_id), self@.5, self@.6)),
            !(match self@.2 {
                Some(g) => spec_container_shape_for_generic(g) == Some(ContainerShape::SmartPointer),
                None => false,
            }) ==> (r matches Err(GenericClassInfoError::NotSmartPointer { generic_type_id }) && generic_type_id
                == self@.2),
    {
        let is_smart = match self.generic_type_id {
            Some(g) => match container_shape_for_generic_uuid(g) {
                Some(ContainerShape::SmartPointer) => true,
                _ => false,
            },
            None => false,
        };
        if !is_smart {
            return Err(GenericClassInfoError::NotSmartPointer { generic_type_id: self.generic_type_id });
        }
        Ok(GenericClassInfo { smart_pointer_pointee_type_id: Some(pointee_type_id), ..self })
    }

    pub fn class(&self) -> (r: ReflectedClassKey)
        ensures
            r == self@.0,
    {
        self.class
    }

    pub fn specialized_type_id(&self) -> (r: AzUuid)
        ensures
            r == self@.1,
    {
        self.specialized_type_id
    }

    pub fn generic_type_id(&self) -> (r: Option<AzUuid>)
        ensures
            r == self@.2,
    {
        self.generic_type_id
    }

    pub fn legacy_specialized_type_id(&self) -> (r: Option<AzUuid>)
        ensures
            r == self@.3,
    {
        self.legacy_specialized_type_id
    }

    /// The asset class carried by native `Asset<T>` metadata: the single
    /// type template argument of an asset generic.
    pub fn asset_type_id(&self) -> (r: Option<AzUuid>)
        ensures
            r == spec_generic_asset_type(self@),
    {
        let asset = asset_type_id_constant();
        let is_asset = self.specialized_type_id.bits == asset.bits || match self.generic_type_id {
            Some(g) => g.bits == asset.bits,
            None => false,
        };
        if is_asset && self.templated_type_ids.len() == 1 {
            Some(self.templated_type_ids[0])
        } else {
            None
        }
    }

    pub fn non_type_template_arguments(&self) -> (r: &[u64])
        ensures
            r@ == self@.6,
    {
        self.non_type_template_arguments.as_slice()
    }

    pub fn can_store_type(&self, type_id: AzUuid) -> (r: bool)
        ensures
            r == spec_can_store(self@, type_id),
    {
        type_id.bits == self.specialized_type_id.bits || same_uuid_option(self.generic_type_id, Some(type_id))
            || same_uuid_option(self.legacy_specialized_type_id, Some(type_id)) || same_uuid_option(
            self.smart_pointer_pointee_type_id,
            Some(type_id),
        )
    }

    /// Field-by-field equality.
    pub fn same_as(&self, other: &GenericClassInfo) -> (r: bool)
        ensures
            r == (self@ == other@),
    {
        self.class.0 == other.class.0 && self.specialized_type_id.bits == other.specialized_type_id.bits
            && same_uuid_option(self.generic_type_id, other.generic_type_id) && same_uuid_option(
            self.legacy_specialized_type_id,
            other.legacy_specialized_type_id,
        ) && same_uuid_option(self.smart_pointer_pointee_type_id, other.smart_pointer_pointee_type_id)
            && same_uuids(&self.templated_type_ids, &other.templated_type_ids) && same_u64s(
            &self.non_type_template_arguments,
            &other.non_type_template_arguments,
        )
    }

    /// A copy with the same contents.
    pub fn duplicate(&self) -> (r: GenericClassInfo)
        ensures
            r@ == self@,
    {
        GenericClassInfo {
            class: self.class,
            specialized_type_id: self.specialized_type_id,
            generic_type_id: self.generic_type_id,
            legacy_specialized_type_id: self.legacy_specialized_type_id,
            smart_pointer_pointee_type_id: self.smart_pointer_pointee_type_id,
            templated_type_ids: copy_uuids(&self.templated_type_ids),
            non_type_template_arguments: copy_u64s(&self.non_type_template_arguments),
        }
    }
}

/// Asset class of `Asset<T>` metadata: the single type template argument of
/// a generic whose specialized or generic identity is the asset type.
pub open spec fn spec_generic_asset_type(info: GenericClassInfoModel) -> Option<AzUuid> {
    if (info.1 == spec_asset_type_id() || info.2 == Some(spec_asset_type_id())) && info.5.len() == 1 {
        Some(info.5[0])
    } else {
        None
    }
}

/// A `ClassElement` of reflected `ClassData`.
#[derive(Clone, Debug, PartialEq, Eq)]
pub struct ReflectedField {
    /// Exact `ClassElement::m_name` spelling this class registered for the
    /// slot; the name CRC folds ASCII case and so cannot supply it.
    pub name: Option<String>,
    pub type_id: AzUuid,
    /// Enum identity from the field's captured `EnumType` attribute.
    pub enum_type_id: Option<AzUuid>,
    pub generic: Option<GenericClassInfo>,
    pub is_base_class: bool,
    pub is_pointer: bool,
    pub is_dynamic_field: bool,
}

/// Edge facts a resolved child carries from its parent's field.
#[derive(Clone, Copy, Debug, PartialEq, Eq, Structural)]
pub struct ReflectedEdge {
    pub is_base_class: bool,
    pub is_pointer: bool,
    pub is_dynamic_field: bool,
    pub asset_type_id: Option<AzUuid>,
}

impl ReflectedField {
    pub fn new(type_id: AzUuid) -> (r: Self)
        ensures
            r.name is None,
            r.type_id == type_id,
            r.enum_type_id is None,
            r.generic is None,
            !r.is_base_class && !r.is_pointer && !r.is_dynamic_field,
    {
        ReflectedField {
            name: None,
            type_id,
            enum_type_id: None,
            generic: None,
            is_base_class: false,
            is_pointer: false,
            is_dynamic_field: false,
        }
    }

    /// Record the exact registration spelling of this slot.
    pub fn with_field_name(self, name: String) -> (r: Self)
        ensures
            r.name matches Some(n) && n@ == name@,
            r.type_id == self.type_id && r.enum_type_id == self.enum_type_id && r.generic == self.generic,
            r.is_base_class == self.is_base_class && r.is_pointer == self.is_pointer && r.is_dynamic_field
                == self.is_dynamic_field,
    {
        ReflectedField { name: Some(name), ..self }
    }

    pub fn with_enum_type(self, enum_type_id: AzUuid) -> (r: Self)
        ensures
            r.enum_type_id == Some(enum_type_id),
            r.name == self.name && r.type_id == self.type_id && r.generic == self.generic,
            r.is_base_class == self.is_base_class && r.is_pointer == self.is_pointer && r.is_dynamic_field
                == self.is_dynamic_field,
    {
        ReflectedField { enum_type_id: Some(enum_type_id), ..self }
    }

    pub fn with_generic(self, generic: GenericClassInfo) -> (r: Self)
        ensures
            r.generic == Some(generic),
            r.name == self.name && r.type_id == self.type_id && r.enum_type_id == self.enum_type_id,
            r.is_base_class == self.is_base_class && r.is_pointer == self.is_pointer && r.is_dynamic_field
                == self.is_dynamic_field,
    {
        ReflectedField { generic: Some(generic), ..self }
    }

    pub fn as_base_class(self) -> (r: Self)
        ensures
            r == (ReflectedField { is_base_class: true, ..self }),
    {
        ReflectedField { is_base_class: true, ..self }
    }

    pub fn as_pointer(self) -> (r: Self)
        ensures
            r == (ReflectedField { is_pointer: true, ..self }),
    {
        ReflectedField { is_pointer: true, ..self }
    }

    pub fn as_dynamic_field(self) -> (r: Self)
        ensures
            r == (ReflectedField { is_dynamic_field: true, ..self }),
    {
        ReflectedField { is_dynamic_field: true, ..self }
    }
}

/// Captured native `ClassData`.
#[derive(Clone, Debug, PartialEq, Eq)]
pub struct ReflectedClass {
    /// `ClassData::m_typeId`, which can differ from the `uuidMap` key.
    pub type_id: AzUuid,
    pub name: Option<String>,
    pub is_container: bool,
    /// Captured container family; `None` means only that a container
    /// exists is known.
    pub container_shape: Option<ContainerShape>,
    pub container_cardinality: Option<ContainerCardinality>,
    pub current_version: u32,
    pub deprecated: bool,
    /// A native version converter was captured (evidence only).
    pub captured_version_converter: bool,
    /// A native data converter was captured (evidence only).
    pub captured_data_converter: bool,
    /// A native serializer was captured (evidence only).
    pub captured_serializer: bool,
    /// Fields by name CRC; a later binding of a CRC replaces an earlier one.
    pub fields: Vec<(u32, ReflectedField)>,
}

/// The field bound last to `crc` in `fields`.
pub open spec fn spec_field_binding(fields: Seq<(u32, ReflectedField)>, crc: u32) -> Option<ReflectedField>
    decreases fields.len(),
{
    if fields.len() == 0 {
        None
    } else if fields.last().0 == crc {
        Some(fields.last().1)
    } else {
        spec_field_binding(fields.drop_last(), crc)
    }
}

/// The field a class binds to an element's name CRC (none without a CRC).
pub open spec fn spec_find_field(class: ReflectedClass, name_crc: Option<u32>) -> Option<ReflectedField> {
    match name_crc {
        Some(crc) => spec_field_binding(class.fields@, crc),
        None => None,
    }
}

/// Edge facts of the field a class binds to `name_crc`.
pub open spec fn spec_edge(class: ReflectedClass, name_crc: Option<u32>) -> Option<ReflectedEdge> {
    match spec_find_field(class, name_crc) {
        Some(f) => Some(
            ReflectedEdge {
                is_base_class: f.is_base_class,
                is_pointer: f.is_pointer,
                is_dynamic_field: f.is_dynamic_field,
                asset_type_id: match f.generic {
                    Some(g) => spec_generic_asset_type(g@),
                    None => None,
                },
            },
        ),
        None => None,
    }
}

impl ReflectedClass {
    pub fn new(type_id: AzUuid) -> (r: Self)
        ensures
            r.type_id == type_id,
            r.name is None,
            !r.is_container,
            r.container_shape is None,
            r.container_cardinality is None,
            r.current_version == 0,
            !r.deprecated,
            !r.captured_version_converter && !r.captured_data_converter && !r.captured_serializer,
            r.fields@.len() == 0,
    {
        ReflectedClass {
            type_id,
            name: None,
            is_container: false,
            container_shape: None,
            container_cardinality: None,
            current_version: 0,
            deprecated: false,
            captured_version_converter: false,
            captured_data_converter: false,
            captured_serializer: false,
            fields: Vec::new(),
        }
    }

    pub fn as_container(self) -> (r: Self)
        ensures
            r == (ReflectedClass { is_container: true, ..self }),
    {
        ReflectedClass { is_container: true, ..self }
    }

    pub fn with_container_shape(self, shape: ContainerShape) -> (r: Self)
        ensures
            r == (ReflectedClass { is_container: true, container_shape: Some(shape), ..self }),
    {
        ReflectedClass { is_container: true, container_shape: Some(shape), ..self }
    }

    pub fn with_container_cardinality(self, cardinality: ContainerCardinality) -> (r: Self)
        ensures
            r == (ReflectedClass { is_container: true, container_cardinality: Some(cardinality), ..self }),
    {
        ReflectedClass { is_container: true, container_cardinality: Some(cardinality), ..self }
    }

    pub fn with_name(self, name: String) -> (r: Self)
        ensures
            r.name matches Some(n) && n@ == name@,
            r.type_id == self.type_id && r.fields == self.fields && r.current_version == self.current_version,
    {
        ReflectedClass { name: Some(name), ..self }
    }

    pub fn with_version(self, version: u32) -> (r: Self)
        ensures
            r == (ReflectedClass { current_version: version, ..self }),
    {
        ReflectedClass { current_version: version, ..self }
    }

    pub fn deprecated(self) -> (r: Self)
        ensures
            r == (ReflectedClass { deprecated: true, ..self }),
    {
        ReflectedClass { deprecated: true, ..self }
    }

    pub fn with_captured_version_converter(self) -> (r: Self)
        ensures
            r == (ReflectedClass { captured_version_converter: true, ..self }),
    {
        ReflectedClass { captured_version_converter: true, ..self }
    }

    pub fn with_captured_data_converter(self) -> (r: Self)
        ensures
            r == (ReflectedClass { captured_data_converter: true, ..self }),
    {
        ReflectedClass { captured_data_converter: true, ..self }
    }

    pub fn with_captured_serializer(self) -> (r: Self)
        ensures
            r == (ReflectedClass { captured_serializer: true, ..self }),
    {
        ReflectedClass { captured_serializer: true, ..self }
    }

    /// Bind `field` to `name_crc`, replacing an earlier binding.
    pub fn insert_field(&mut self, name_crc: u32, field: ReflectedField)
        ensures
            final(self).fields@ == old(self).fields@.push((name_crc, field)),
            spec_field_binding(final(self).fields@, name_crc) == Some(field),
            forall|c: u32| c != name_crc ==> spec_field_binding(final(self).fields@, c) == spec_field_binding(
                old(self).fields@,
                c,
            ),
    {
        self.fields.push((name_crc, field));
        proof {
            assert(self.fields@.drop_last() =~= old(self).fields@);
        }
    }

    /// Bind `field` to the CRC of `name`, recording `name` as its spelling.
    pub fn insert_named_field(&mut self, name: &str, field: ReflectedField)
        ensures
            final(self).fields@.len() == old(self).fields@.len() + 1,
            final(self).fields@.drop_last() == old(self).fields@,
            final(self).fields@.last().0 == crate::crc::spec_field_name_crc(name@),
            final(self).fields@.last().1.name matches Some(n) && n@ == name@,
            final(self).fields@.last().1.type_id == field.type_id,
            final(self).fields@.last().1.generic == field.generic,
            final(self).fields@.last().1.enum_type_id == field.enum_type_id,
    {
        let crc = crate::crc::field_name_crc(name);
        let named = field.with_field_name(name.to_owned());
        self.insert_field(crc, named);
        proof {
            assert(self.fields@.drop_last() =~= old(self).fields@);
        }
    }

    /// The field bound to an element's exact name CRC.  A sole container
    /// slot is never inferred without one.
    pub fn find_field(&self, name_crc: Option<u32>) -> (r: Option<&ReflectedField>)
        ensures
            match r {
                Some(f) => spec_find_field(*self, name_crc) == Some(*f),
                None => spec_find_field(*self, name_crc) is None,
            },
    {
        let crc = match name_crc {
            Some(crc) => crc,
            None => {
                return None;
            },
        };
        let mut i = self.fields.len();
        assert(self.fields@.subrange(0, i as int) =~= self.fields@);
        while i > 0
            invariant
                i <= self.fields@.len(),
                name_crc == Some(crc),
                spec_field_binding(self.fields@, crc) == spec_field_binding(self.fields@.subrange(0, i as int), crc),
            decreases i,
        {
            let ghost prefix = self.fields@.subrange(0, i as int);
            assert(prefix.drop_last() =~= self.fields@.subrange(0, i - 1));
            assert(prefix.last() == self.fields@[i - 1]);
            let entry = &self.fields[i - 1];
            if entry.0 == crc {
                assert(spec_field_binding(prefix, crc) == Some(entry.1));
                return Some(&entry.1);
            }
            i = i - 1;
        }
        None
    }

    pub fn edge(&self, name_crc: Option<u32>) -> (r: Option<ReflectedEdge>)
        ensures
            r == spec_edge(*self, name_crc),
    {
        match self.find_field(name_crc) {
            Some(field) => Some(
                ReflectedEdge {
                    is_base_class: field.is_base_class,
                    is_pointer: field.is_pointer,
                    is_dynamic_field: field.is_dynamic_field,
                    asset_type_id: match &field.generic {
                        Some(g) => g.asset_type_id(),
                        None => None,
                    },
                },
            ),
            None => None,
        }
    }
}

/// What a type lookup is given.
#[derive(Clone, Copy, Debug)]
pub struct ResolveTypeInput {
    pub stream_version: u32,
    pub raw_type_id: AzUuid,
    pub specialization_type_id: Option<AzUuid>,
    pub element_version: u32,
    pub name_crc: Option<u32>,
    pub parent: Option<ReflectedClassKey>,
}

/// What a type lookup found.
#[derive(Clone, Copy, Debug, PartialEq, Eq, Structural)]
pub struct ResolvedType {
    /// Semantic id; present only when `ClassData` was found.
    pub type_id: Option<AzUuid>,
    pub class: Option<ReflectedClassKey>,
    pub builtin_serializer: Option<BuiltinSerializerDescriptor>,
    pub is_container: bool,
    pub container_shape: Option<ContainerShape>,
    /// Several distinct generic targets matched; callers must fail rather
    /// than pick one.
    pub ambiguous_generic: bool,
}

/// How a serialized element version reaches its class's current version.
#[derive(Clone, Copy, Debug, PartialEq, Eq, Structural)]
pub enum VersionConversionState {
    Current,
    /// A deprecated class with no converter: its whole subtree is discarded.
    DeprecatedDiscard,
    /// The serializer loads the older version itself.
    SerializerCompatibleOld { from: u32, to: u32 },
    RegisteredConverter { from: u32, to: u32 },
    /// Structural loading that must not drop a reachable child.
    StrictDefaultStructural { from: u32, to: u32 },
}

impl Default for VersionConversionState {
    fn default() -> (r: Self)
        ensures
            r == VersionConversionState::Current,
    {
        VersionConversionState::Current
    }
}

impl VersionConversionState {
    pub fn requires_dom_converter(self) -> (r: bool)
        ensures
            r == (self is RegisteredConverter),
    {
        match self {
            VersionConversionState::RegisteredConverter { .. } => true,
            _ => false,
        }
    }

    pub fn discards_subtree(self) -> (r: bool)
        ensures
            r == (self is DeprecatedDiscard),
    {
        match self {
            VersionConversionState::DeprecatedDiscard => true,
            _ => false,
        }
    }
}

/// Registration and completeness failures of a read context.
#[derive(Clone, Copy, Debug, PartialEq, Eq, Structural)]
pub enum SerializerRegistrationError {
    UnknownClass { class: ReflectedClassKey },
    DeprecatedClass { class: ReflectedClassKey },
    UnsupportedSerializer { type_id: AzUuid },
    DescriptorKindMismatch { type_id: AzUuid, expected: BuiltinSerializerKind, actual: BuiltinSerializerKind },
    UnsupportedAssetVersion { version: u32 },
    DataConverterNotCaptured { class: ReflectedClassKey },
    DuplicateDirectClassAlias { map_id: AzUuid, class: ReflectedClassKey },
    ConflictingDirectClassAlias { map_id: AzUuid, existing: ReflectedClassKey, requested: ReflectedClassKey },
    UnknownGenericRedirectTarget { legacy_id: AzUuid, target_id: AzUuid },
    UnreservedClassData { class: ReflectedClassKey },
    DuplicateClassDataDefinition { class: ReflectedClassKey },
    ConflictingGenericAlias { map_id: AzUuid, existing: ReflectedClassKey, requested: ReflectedClassKey },
    ConflictingLegacyGenericRedirect { legacy_id: AzUuid, existing: AzUuid, requested: AzUuid },
    UndefinedReservedClassData { class: ReflectedClassKey },
    UndefinedDirectClassAlias { map_id: AzUuid, class: ReflectedClassKey },
    UndefinedGenericClass { map_id: AzUuid, class: ReflectedClassKey },
    UndefinedFieldGenericClass { owner: ReflectedClassKey, name_crc: u32, class: ReflectedClassKey },
    ConflictingEnumUnderlyingType { enum_id: AzUuid, existing: AzUuid, requested: AzUuid },
    UndefinedEnumUnderlyingType { enum_id: AzUuid, underlying_id: AzUuid },
}

/// Captured native behavior a context cannot execute.
#[derive(Clone, Copy, Debug, PartialEq, Eq, Structural)]
pub enum ExecutableSupportIssue {
    CapturedSerializerMissingCodec { class: ReflectedClassKey, type_id: AzUuid },
    CapturedVersionConverterMissingImplementation { class: ReflectedClassKey, type_id: AzUuid, deprecated: bool },
    CapturedDataConverterMissingImplementation { class: ReflectedClassKey, type_id: AzUuid },
    UnclassifiedContainer { class: ReflectedClassKey, type_id: AzUuid },
    MissingContainerCardinality { class: ReflectedClassKey, type_id: AzUuid },
}

impl ExecutableSupportIssue {
    pub open spec fn spec_class(self) -> ReflectedClassKey {
        match self {
            ExecutableSupportIssue::CapturedSerializerMissingCodec { class, .. } => class,
            ExecutableSupportIssue::CapturedVersionConverterMissingImplementation { class, .. } => class,
            ExecutableSupportIssue::CapturedDataConverterMissingImplementation { class, .. } => class,
            ExecutableSupportIssue::UnclassifiedContainer { class, .. } => class,
            ExecutableSupportIssue::MissingContainerCardinality { class, .. } => class,
        }
    }

    pub fn class(&self) -> (r: ReflectedClassKey)
        ensures
            r == self.spec_class(),
    {
        match *self {
            ExecutableSupportIssue::CapturedSerializerMissingCodec { class, .. } => class,
            ExecutableSupportIssue::CapturedVersionConverterMissingImplementation { class, .. } => class,
            ExecutableSupportIssue::CapturedDataConverterMissingImplementation { class, .. } => class,
            ExecutableSupportIssue::UnclassifiedContainer { class, .. } => class,
            ExecutableSupportIssue::MissingContainerCardinality { class, .. } => class,
        }
    }
}

/// Inventory of captured behavior with no executable implementation.
#[derive(Clone, Debug, PartialEq, Eq)]
pub struct ExecutableSupportAudit {
    pub issues: Vec<ExecutableSupportIssue>,
}

impl ExecutableSupportAudit {
    pub fn is_fully_supported(&self) -> (r: bool)
        ensures
            r == (self.issues@.len() == 0),
    {
        self.issues.len() == 0
    }
}

/// What happens to a child that binds to no native `ClassElement`.
#[derive(Clone, Copy, Debug, PartialEq, Eq, Structural)]
pub enum UnmatchedChildPolicy {
    /// Strict filter: the load fails.
    Fail,
    /// Default filter: the subtree is discarded and loading continues.
    NativeSkip,
}

impl Default for UnmatchedChildPolicy {
    fn default() -> (r: Self)
        ensures
            r == UnmatchedChildPolicy::Fail,
    {
        UnmatchedChildPolicy::Fail
    }
}

/// What happens to an element whose type has no registered `ClassData`.
#[derive(Clone, Copy, Debug, PartialEq, Eq, Structural)]
pub enum UnregisteredClassPolicy {
    /// The load fails.
    Fail,
    /// Default filter: the subtree is discarded and loading continues.
    NativeSkip,
}

impl Default for UnregisteredClassPolicy {
    fn default() -> (r: Self)
        ensures
            r == UnregisteredClassPolicy::Fail,
    {
        UnregisteredClassPolicy::Fail
    }
}

/// Outcome of resolving one reached element.
#[derive(Clone, Copy, Debug, PartialEq, Eq, Structural)]
pub enum ElementFate {
    /// `ClassData` resolved; typed decoding proceeds.
    Retain,
    /// Unregistered class under the skipping policy: discard the subtree.
    Skip,
}

/// Outcome of finalizing one reachable child against its parent.
#[derive(Clone, Copy, Debug, PartialEq, Eq, Structural)]
pub enum ChildFate {
    /// The child bound to a field (or converter) and stays.
    Retain,
    /// No field bound the child; the default filter discards it.
    Skip,
}

/// How a reached child binds to its parent's field.
#[derive(Clone, Copy, Debug, PartialEq, Eq, Structural)]
pub enum ChildBinding {
    /// The child's fate is decided.
    Fate(ChildFate),
    /// Only the data converter registered for `target_class` can make the
    /// child fit its field; its owner runs it on the child (from
    /// `source_type_id` to `target_type_id`) and then rebinds the result.
    ConvertData { target_class: ReflectedClassKey, source_type_id: AzUuid, target_type_id: AzUuid },
}

// === the read context ===

/// Value bound last to `k` in an association list.
pub open spec fn spec_last<K, V>(s: Seq<(K, V)>, k: K) -> Option<V>
    decreases s.len(),
{
    if s.len() == 0 {
        None
    } else if s.last().0 == k {
        Some(s.last().1)
    } else {
        spec_last(s.drop_last(), k)
    }
}

proof fn lemma_last_update<K, V>(s: Seq<(K, V)>, i: int, v: V, q: K)
    requires
        0 <= i < s.len(),
        spec_last(s, s[i].0) == Some(s[i].1),
        forall|j: int| i < j < s.len() ==> s[j].0 != s[i].0,
    ensures
        spec_last(s.update(i, (s[i].0, v)), q) == (if q == s[i].0 {
            Some(v)
        } else {
            spec_last(s, q)
        }),
    decreases s.len(),
{
    let t = s.update(i, (s[i].0, v));
    if i == s.len() - 1 {
        assert(t.drop_last() =~= s.drop_last());
    } else {
        assert(t.drop_last() =~= s.drop_last().update(i, (s[i].0, v)));
        assert(s.last().0 != s[i].0);
        assert(s.drop_last()[i] == s[i]);
        lemma_last_update(s.drop_last(), i, v, q);
    }
}

/// Index of the last binding of `id`.
fn last_index_of<V>(s: &Vec<(AzUuid, V)>, id: AzUuid) -> (r: Option<usize>)
    ensures
        r matches Some(i) ==> i < s@.len() && s@[i as int].0 == id && spec_last(s@, id) == Some(s@[i as int].1)
            && forall|j: int| i < j < s@.len() ==> s@[j].0 != id,
        r is None ==> spec_last(s@, id) is None,
{
    let mut i = s.len();
    assert(s@.subrange(0, i as int) =~= s@);
    while i > 0
        invariant
            i <= s@.len(),
            spec_last(s@, id) == spec_last(s@.subrange(0, i as int), id),
            forall|j: int| i <= j < s@.len() ==> s@[j].0 != id,
        decreases i,
    {
        let ghost prefix = s@.subrange(0, i as int);
        assert(prefix.drop_last() =~= s@.subrange(0, i - 1));
        assert(prefix.last() == s@[i - 1]);
        if s[i - 1].0.bits == id.bits {
            return Some(i - 1);
        }
        i = i - 1;
    }
    None
}

/// Registration state of one reserved `ClassData` key: its definition
/// (once defined) and which executable implementations are registered.
#[derive(Debug)]
pub struct ClassSlot {
    pub class: Option<ReflectedClass>,
    pub has_codec: bool,
    pub builtin: Option<BuiltinSerializerDescriptor>,
    pub has_converter: bool,
    pub has_data_converter: bool,
}

/// Executable serializer registered for a class.
#[derive(Clone, Copy, Debug, PartialEq, Eq, Structural)]
pub enum RegisteredCodec {
    /// A builtin serializer with this captured descriptor.
    Builtin(BuiltinSerializerDescriptor),
    /// A codec implemented outside the library.
    External,
}

/// Captured native reflection and serializer metadata used for typed
/// import.  Executable converters, codecs and overlay providers are held by
/// their owner; the context records which classes have them.
#[derive(Debug)]
pub struct ObjectStreamReadContext {
    names: crate::lookup::LumberyardHashes,
    dialect: ObjectStreamDialect,
    slots: Vec<ClassSlot>,
    direct_classes: Vec<(AzUuid, ReflectedClassKey)>,
    generic_infos: Vec<(AzUuid, Vec<GenericClassInfo>)>,
    legacy_generic_redirects: Vec<(AzUuid, Vec<AzUuid>)>,
    enum_underlying_types: Vec<(AzUuid, AzUuid)>,
    overlay_providers: Vec<u32>,
    rtti_bases: Vec<(AzUuid, AzUuid)>,
    field_renames: Vec<(AzUuid, (u32, u32))>,
    unregistered_class_policy: UnregisteredClassPolicy,
    unmatched_child_policy: UnmatchedChildPolicy,
}

/// Views of a generic-info list.
pub open spec fn spec_info_views(v: Seq<GenericClassInfo>) -> Seq<GenericClassInfoModel> {
    v.map_values(|g: GenericClassInfo| g@)
}

impl ObjectStreamReadContext {
    pub closed spec fn spec_slots(&self) -> Seq<ClassSlot> {
        self.slots@
    }

    /// Number of reserved `ClassData` keys.
    pub open spec fn spec_class_count(&self) -> nat {
        self.spec_slots().len()
    }

    /// `key` was reserved by this context.
    pub open spec fn spec_reserved(&self, key: ReflectedClassKey) -> bool {
        key.index() < self.spec_class_count()
    }

    /// The `ClassData` defined under `key`.
    pub open spec fn spec_class(&self, key: ReflectedClassKey) -> Option<ReflectedClass> {
        if self.spec_reserved(key) {
            self.spec_slots()[key.index() as int].class
        } else {
            None
        }
    }

    pub open spec fn spec_has_codec(&self, key: ReflectedClassKey) -> bool {
        self.spec_reserved(key) && self.spec_slots()[key.index() as int].has_codec
    }

    pub open spec fn spec_builtin(&self, key: ReflectedClassKey) -> Option<BuiltinSerializerDescriptor> {
        if self.spec_reserved(key) {
            self.spec_slots()[key.index() as int].builtin
        } else {
            None
        }
    }

    pub open spec fn spec_has_converter(&self, key: ReflectedClassKey) -> bool {
        self.spec_reserved(key) && self.spec_slots()[key.index() as int].has_converter
    }

    pub open spec fn spec_has_data_converter(&self, key: ReflectedClassKey) -> bool {
        self.spec_reserved(key) && self.spec_slots()[key.index() as int].has_data_converter
    }

    /// Native `uuidMap` entries, in registration order.
    pub closed spec fn spec_direct(&self) -> Seq<(AzUuid, ReflectedClassKey)> {
        self.direct_classes@
    }

    /// `uuidGenericMap` entries with their generic infos.
    pub closed spec fn spec_generics(&self) -> Seq<(AzUuid, Seq<GenericClassInfoModel>)> {
        Seq::new(
            self.generic_infos@.len(),
            |i: int| (self.generic_infos@[i].0, spec_info_views(self.generic_infos@[i].1@)),
        )
    }

    /// Legacy specialized id redirects to `uuidGenericMap` keys.
    pub closed spec fn spec_redirects(&self) -> Seq<(AzUuid, Seq<AzUuid>)> {
        Seq::new(
            self.legacy_generic_redirects@.len(),
            |i: int| (self.legacy_generic_redirects@[i].0, self.legacy_generic_redirects@[i].1@),
        )
    }

    /// Enum type id to underlying type id entries.
    pub closed spec fn spec_enums(&self) -> Seq<(AzUuid, AzUuid)> {
        self.enum_underlying_types@
    }

    /// RTTI `(derived, base)` edges.
    pub closed spec fn spec_rtti(&self) -> Seq<(AzUuid, AzUuid)> {
        self.rtti_bases@
    }

    /// Field-CRC renames `(class type, (from, to))`.
    pub closed spec fn spec_renames(&self) -> Seq<(AzUuid, (u32, u32))> {
        self.field_renames@
    }

    pub closed spec fn spec_overlay_providers(&self) -> Seq<u32> {
        self.overlay_providers@
    }

    pub closed spec fn spec_dialect(&self) -> ObjectStreamDialect {
        self.dialect
    }

    pub closed spec fn spec_unregistered_policy(&self) -> UnregisteredClassPolicy {
        self.unregistered_class_policy
    }

    pub closed spec fn spec_unmatched_policy(&self) -> UnmatchedChildPolicy {
        self.unmatched_child_policy
    }

    pub closed spec fn spec_names(&self) -> crate::lookup::LumberyardHashes {
        self.names
    }

    /// `uuidMap` lookup.
    pub open spec fn spec_direct_class(&self, id: AzUuid) -> Option<ReflectedClassKey> {
        spec_last(self.spec_direct(), id)
    }

    /// `uuidGenericMap` lookup.
    pub open spec fn spec_generic_list(&self, id: AzUuid) -> Option<Seq<GenericClassInfoModel>> {
        spec_last(self.spec_generics(), id)
    }

    pub open spec fn spec_redirect_list(&self, id: AzUuid) -> Option<Seq<AzUuid>> {
        spec_last(self.spec_redirects(), id)
    }

    pub open spec fn spec_enum_underlying(&self, id: AzUuid) -> Option<AzUuid> {
        spec_last(self.spec_enums(), id)
    }

    /// Everything but the `ClassData` slots is as in `other`.
    pub open spec fn spec_same_tables(&self, other: &Self) -> bool {
        &&& self.spec_direct() == other.spec_direct()
        &&& self.spec_generics() == other.spec_generics()
        &&& self.spec_redirects() == other.spec_redirects()
        &&& self.spec_enums() == other.spec_enums()
        &&& self.spec_rtti() == other.spec_rtti()
        &&& self.spec_renames() == other.spec_renames()
        &&& self.spec_overlay_providers() == other.spec_overlay_providers()
        &&& self.spec_dialect() == other.spec_dialect()
        &&& self.spec_unregistered_policy() == other.spec_unregistered_policy()
        &&& self.spec_unmatched_policy() == other.spec_unmatched_policy()
    }

    /// An empty context for the given name tables and dialect; unregistered
    /// classes and unmatched children fail the load.
    pub fn new(names: crate::lookup::LumberyardHashes, dialect: ObjectStreamDialect) -> (r: Self)
        ensures
            r.spec_class_count() == 0,
            r.spec_direct().len() == 0,
            r.spec_generics().len() == 0,
            r.spec_redirects().len() == 0,
            r.spec_enums().len() == 0,
            r.spec_rtti().len() == 0,
            r.spec_renames().len() == 0,
            r.spec_overlay_providers().len() == 0,
            r.spec_dialect() == dialect,
            r.spec_unregistered_policy() == UnregisteredClassPolicy::Fail,
            r.spec_unmatched_policy() == UnmatchedChildPolicy::Fail,
            r.spec_names() == names,
    {
        ObjectStreamReadContext {
            names,
            dialect,
            slots: Vec::new(),
            direct_classes: Vec::new(),
            generic_infos: Vec::new(),
            legacy_generic_redirects: Vec::new(),
            enum_underlying_types: Vec::new(),
            overlay_providers: Vec::new(),
            rtti_bases: Vec::new(),
            field_renames: Vec::new(),
            unregistered_class_policy: UnregisteredClassPolicy::Fail,
            unmatched_child_policy: UnmatchedChildPolicy::Fail,
        }
    }

}

impl Default for ObjectStreamReadContext {
    /// An empty O3DE context with empty name tables.
    fn default() -> (r: Self)
        ensures
            r.spec_class_count() == 0,
            r.spec_direct().len() == 0,
            r.spec_generics().len() == 0,
            r.spec_redirects().len() == 0,
            r.spec_enums().len() == 0,
            r.spec_rtti().len() == 0,
            r.spec_renames().len() == 0,
            r.spec_overlay_providers().len() == 0,
            r.spec_dialect() == ObjectStreamDialect::O3de,
            r.spec_unregistered_policy() == UnregisteredClassPolicy::Fail,
            r.spec_unmatched_policy() == UnmatchedChildPolicy::Fail,
            r.spec_names().spec_uuid_count() == 0,
            r.spec_names().spec_crc_count() == 0,
    {
        ObjectStreamReadContext::new(crate::lookup::LumberyardHashes::new(), ObjectStreamDialect::O3de)
    }
}

impl ObjectStreamReadContext {
    pub fn names(&self) -> (r: &crate::lookup::LumberyardHashes)
        ensures
            *r == self.spec_names(),
    {
        &self.names
    }

    pub fn dialect(&self) -> (r: ObjectStreamDialect)
        ensures
            r == self.spec_dialect(),
    {
        self.dialect
    }

    pub fn with_dialect(self, dialect: ObjectStreamDialect) -> (r: Self)
        ensures
            r.spec_dialect() == dialect,
            r.spec_slots() == self.spec_slots(),
            r.spec_direct() == self.spec_direct() && r.spec_generics() == self.spec_generics(),
            r.spec_redirects() == self.spec_redirects() && r.spec_enums() == self.spec_enums(),
            r.spec_rtti() == self.spec_rtti() && r.spec_renames() == self.spec_renames(),
            r.spec_overlay_providers() == self.spec_overlay_providers(),
            r.spec_unregistered_policy() == self.spec_unregistered_policy(),
            r.spec_unmatched_policy() == self.spec_unmatched_policy(),
    {
        ObjectStreamReadContext { dialect, ..self }
    }

    /// Select how a reached element with no registered `ClassData` is handled.
    pub fn with_unregistered_class_policy(self, policy: UnregisteredClassPolicy) -> (r: Self)
        ensures
            r.spec_unregistered_policy() == policy,
            r.spec_slots() == self.spec_slots(),
            r.spec_direct() == self.spec_direct() && r.spec_generics() == self.spec_generics(),
            r.spec_redirects() == self.spec_redirects() && r.spec_enums() == self.spec_enums(),
            r.spec_rtti() == self.spec_rtti() && r.spec_renames() == self.spec_renames(),
            r.spec_overlay_providers() == self.spec_overlay_providers(),
            r.spec_dialect() == self.spec_dialect(),
            r.spec_unmatched_policy() == self.spec_unmatched_policy(),
    {
        ObjectStreamReadContext { unregistered_class_policy: policy, ..self }
    }

    pub fn unregistered_class_policy(&self) -> (r: UnregisteredClassPolicy)
        ensures
            r == self.spec_unregistered_policy(),
    {
        self.unregistered_class_policy
    }

    /// Select how a reached child that binds to no field is handled.
    pub fn with_unmatched_child_policy(self, policy: UnmatchedChildPolicy) -> (r: Self)
        ensures
            r.spec_unmatched_policy() == policy,
            r.spec_slots() == self.spec_slots(),
            r.spec_direct() == self.spec_direct() && r.spec_generics() == self.spec_generics(),
            r.spec_redirects() == self.spec_redirects() && r.spec_enums() == self.spec_enums(),
            r.spec_rtti() == self.spec_rtti() && r.spec_renames() == self.spec_renames(),
            r.spec_overlay_providers() == self.spec_overlay_providers(),
            r.spec_dialect() == self.spec_dialect(),
            r.spec_unregistered_policy() == self.spec_unregistered_policy(),
    {
        ObjectStreamReadContext { unmatched_child_policy: policy, ..self }
    }

    pub fn unmatched_child_policy(&self) -> (r: UnmatchedChildPolicy)
        ensures
            r == self.spec_unmatched_policy(),
    {
        self.unmatched_child_policy
    }

    /// The `ClassData` defined under `key`.
    pub fn class(&self, key: ReflectedClassKey) -> (r: Option<&ReflectedClass>)
        ensures
            match r {
                Some(c) => self.spec_class(key) == Some(*c),
                None => self.spec_class(key) is None,
            },
    {
        let i = key.0;
        if i >= self.slots.len() as u64 {
            return None;
        }
        match &self.slots[i as usize].class {
            Some(c) => Some(c),
            None => None,
        }
    }

    /// Allocate the next `ClassData` key before its definition, so that
    /// recursive and cyclic reflection graphs can be lowered.
    pub fn reserve_class_data(&mut self) -> (r: ReflectedClassKey)
        requires
            old(self).spec_class_count() < usize::MAX,
        ensures
            r.index() == old(self).spec_class_count(),
            final(self).spec_slots() == old(self).spec_slots().push(
                ClassSlot { class: None, has_codec: false, builtin: None, has_converter: false, has_data_converter: false },
            ),
            final(self).spec_same_tables(old(self)),
            final(self).spec_names() == old(self).spec_names(),
            !old(self).spec_reserved(r),
            final(self).spec_reserved(r),
            final(self).spec_class(r) is None,
            forall|k: ReflectedClassKey| old(self).spec_reserved(k) ==> final(self).spec_reserved(k) && k != r,
            !final(self).spec_complete(),
    {
        let key = ReflectedClassKey(self.slots.len() as u64);
        self.slots.push(
            ClassSlot { class: None, has_codec: false, builtin: None, has_converter: false, has_data_converter: false },
        );
        proof {
            assert(self.spec_slots()[key.index() as int].class is None);
        }
        key
    }

    /// Define a reserved key's `ClassData`, exactly once.
    pub fn define_class_data(&mut self, key: ReflectedClassKey, class: ReflectedClass) -> (r: Result<(), SerializerRegistrationError>)
        ensures
            !old(self).spec_reserved(key) ==> (r == Err::<(), SerializerRegistrationError>(
                SerializerRegistrationError::UnreservedClassData { class: key },
            ) && final(self).spec_slots() == old(self).spec_slots()),
            old(self).spec_reserved(key) && old(self).spec_class(key) is Some ==> (r == Err::<
                (),
                SerializerRegistrationError,
            >(SerializerRegistrationError::DuplicateClassDataDefinition { class: key }) && final(self).spec_slots()
                == old(self).spec_slots()),
            old(self).spec_reserved(key) && old(self).spec_class(key) is None ==> (r is Ok && final(self).spec_slots()
                == old(self).spec_slots().update(
                key.index() as int,
                ClassSlot { class: Some(class), ..old(self).spec_slots()[key.index() as int] },
            )),
            final(self).spec_same_tables(old(self)),
            final(self).spec_names() == old(self).spec_names(),
    {
        let i = key.0;
        if i >= self.slots.len() as u64 {
            return Err(SerializerRegistrationError::UnreservedClassData { class: key });
        }
        let i = i as usize;
        if self.slots[i].class.is_some() {
            return Err(SerializerRegistrationError::DuplicateClassDataDefinition { class: key });
        }
        let slot = self.slots.remove(i);
        self.slots.insert(i, ClassSlot { class: Some(class), ..slot });
        proof {
            assert(self.slots@ =~= old(self).slots@.update(
                i as int,
                ClassSlot { class: Some(class), ..old(self).slots@[i as int] },
            ));
        }
        Ok(())
    }

    /// Store `ClassData` under a fresh key without a `uuidMap` alias.
    pub fn insert_class_data(&mut self, class: ReflectedClass) -> (r: ReflectedClassKey)
        requires
            old(self).spec_class_count() < usize::MAX,
        ensures
            r.index() == old(self).spec_class_count(),
            final(self).spec_slots() == old(self).spec_slots().push(
                ClassSlot {
                    class: Some(class),
                    has_codec: false,
                    builtin: None,
                    has_converter: false,
                    has_data_converter: false,
                },
            ),
            final(self).spec_same_tables(old(self)),
            final(self).spec_names() == old(self).spec_names(),
    {
        let key = self.reserve_class_data();
        let defined = self.define_class_data(key, class);
        proof {
            assert(self.spec_slots() =~= old(self).spec_slots().push(
                ClassSlot {
                    class: Some(class),
                    has_codec: false,
                    builtin: None,
                    has_converter: false,
                    has_data_converter: false,
                },
            ));
        }
        key
    }

    /// Bind one more `uuidMap` key to defined `ClassData`.
    pub fn insert_direct_class_alias(&mut self, map_id: AzUuid, class: ReflectedClassKey) -> (r: Result<(), SerializerRegistrationError>)
        ensures
            old(self).spec_class(class) is None ==> r == Err::<(), SerializerRegistrationError>(
                SerializerRegistrationError::UnknownClass { class },
            ),
            old(self).spec_class(class) is Some && old(self).spec_direct_class(map_id) == Some(class) ==> r == Err::<
                (),
                SerializerRegistrationError,
            >(SerializerRegistrationError::DuplicateDirectClassAlias { map_id, class }),
            old(self).spec_class(class) is Some && old(self).spec_direct_class(map_id) is Some && old(
                self,
            ).spec_direct_class(map_id) != Some(class) ==> r == Err::<(), SerializerRegistrationError>(
                SerializerRegistrationError::ConflictingDirectClassAlias {
                    map_id,
                    existing: old(self).spec_direct_class(map_id)->0,
                    requested: class,
                },
            ),
            old(self).spec_class(class) is Some && old(self).spec_direct_class(map_id) is None ==> r is Ok,
            r is Ok ==> final(self).spec_direct() == old(self).spec_direct().push((map_id, class)),
            r is Err ==> final(self).spec_direct() == old(self).spec_direct(),
            final(self).spec_slots() == old(self).spec_slots(),
            final(self).spec_generics() == old(self).spec_generics(),
            final(self).spec_redirects() == old(self).spec_redirects(),
            final(self).spec_enums() == old(self).spec_enums(),
            final(self).spec_rtti() == old(self).spec_rtti(),
            final(self).spec_renames() == old(self).spec_renames(),
            final(self).spec_overlay_providers() == old(self).spec_overlay_providers(),
            final(self).spec_dialect() == old(self).spec_dialect(),
            final(self).spec_unregistered_policy() == old(self).spec_unregistered_policy(),
            final(self).spec_unmatched_policy() == old(self).spec_unmatched_policy(),
            final(self).spec_names() == old(self).spec_names(),
    {
        if self.class(class).is_none() {
            return Err(SerializerRegistrationError::UnknownClass { class });
        }
        match last_index_of(&self.direct_classes, map_id) {
            Some(i) => {
                let existing = self.direct_classes[i].1;
                if existing.0 == class.0 {
                    Err(SerializerRegistrationError::DuplicateDirectClassAlias { map_id, class })
                } else {
                    Err(SerializerRegistrationError::ConflictingDirectClassAlias { map_id, existing, requested: class })
                }
            },
            None => {
                self.direct_classes.push((map_id, class));
                Ok(())
            },
        }
    }

    /// Register captured `ClassData` under one `uuidMap` key.  A key that is
    /// already bound is refused and the context is left unchanged.
    pub fn insert_class(&mut self, map_id: AzUuid, class: ReflectedClass) -> (r: Result<ReflectedClassKey, SerializerRegistrationError>)
        requires
            old(self).spec_class_count() < usize::MAX,
        ensures
            old(self).spec_direct_class(map_id) matches Some(existing) ==> (r == Err::<
                ReflectedClassKey,
                SerializerRegistrationError,
            >(SerializerRegistrationError::DuplicateDirectClassAlias { map_id, class: existing })
                && final(self).spec_slots() == old(self).spec_slots() && final(self).spec_direct() == old(
                self,
            ).spec_direct()),
            old(self).spec_direct_class(map_id) is None ==> (r matches Ok(key) && key.index()
                == old(self).spec_class_count() && final(self).spec_slots() == old(self).spec_slots().push(
                ClassSlot {
                    class: Some(class),
                    has_codec: false,
                    builtin: None,
                    has_converter: false,
                    has_data_converter: false,
                },
            ) && final(self).spec_direct() == old(self).spec_direct().push((map_id, key))),
            final(self).spec_generics() == old(self).spec_generics(),
            final(self).spec_redirects() == old(self).spec_redirects(),
            final(self).spec_enums() == old(self).spec_enums(),
            final(self).spec_rtti() == old(self).spec_rtti(),
            final(self).spec_renames() == old(self).spec_renames(),
            final(self).spec_overlay_providers() == old(self).spec_overlay_providers(),
            final(self).spec_dialect() == old(self).spec_dialect(),
            final(self).spec_unregistered_policy() == old(self).spec_unregistered_policy(),
            final(self).spec_unmatched_policy() == old(self).spec_unmatched_policy(),
            final(self).spec_names() == old(self).spec_names(),
    {
        if let Some(i) = last_index_of(&self.direct_classes, map_id) {
            return Err(SerializerRegistrationError::DuplicateDirectClassAlias { map_id, class: self.direct_classes[i].1 });
        }
        let key = self.insert_class_data(class);
        let aliased = self.insert_direct_class_alias(map_id, key);
        Ok(key)
    }

    /// Builder form of `insert_class`.
    pub fn with_class(self, map_id: AzUuid, class: ReflectedClass) -> (r: Result<Self, SerializerRegistrationError>)
        requires
            self.spec_class_count() < usize::MAX,
        ensures
            self.spec_direct_class(map_id) matches Some(existing) ==> (r matches Err(e) && e
                == (SerializerRegistrationError::DuplicateDirectClassAlias { map_id, class: existing })),
            self.spec_direct_class(map_id) is None ==> (r matches Ok(c) && c.spec_slots() == self.spec_slots().push(
                (ClassSlot {
                    class: Some(class),
                    has_codec: false,
                    builtin: None,
                    has_converter: false,
                    has_data_converter: false,
                }),
            ) && c.spec_direct() == self.spec_direct().push(
                (map_id, c.spec_direct().last().1),
            ) && c.spec_direct().last().1.index() == self.spec_class_count() && c.spec_generics()
                == self.spec_generics() && c.spec_enums() == self.spec_enums()),
    {
        let mut context = self;
        match context.insert_class(map_id, class) {
            Ok(_) => Ok(context),
            Err(e) => Err(e),
        }
    }
}

proof fn lemma_last_at<K, V>(s: Seq<(K, V)>, i: int)
    requires
        0 <= i < s.len(),
        forall|j: int| i < j < s.len() ==> s[j].0 != s[i].0,
    ensures
        spec_last(s, s[i].0) == Some(s[i].1),
    decreases s.len(),
{
    if i < s.len() - 1 {
        assert(s.drop_last()[i] == s[i]);
        lemma_last_at(s.drop_last(), i);
    }
}

/// The key of the `i`-th reserved slot.
pub closed spec fn spec_key(i: int) -> ReflectedClassKey {
    ReflectedClassKey(i as u64)
}

proof fn lemma_key_index(i: int)
    requires
        0 <= i <= u64::MAX,
    ensures
        spec_key(i).index() == i,
{
}

/// Issues one slot contributes to the executable-support audit, in the
/// order serializer, version converter, data converter, container family,
/// container cardinality.
pub open spec fn spec_slot_issues(key: ReflectedClassKey, slot: ClassSlot) -> Seq<ExecutableSupportIssue> {
    match slot.class {
        None => Seq::empty(),
        Some(c) => {
            let serializer = if c.captured_serializer && !slot.has_codec && slot.builtin is None {
                seq![ExecutableSupportIssue::CapturedSerializerMissingCodec { class: key, type_id: c.type_id }]
            } else {
                Seq::empty()
            };
            let converter = if c.captured_version_converter && !slot.has_converter {
                seq![
                    ExecutableSupportIssue::CapturedVersionConverterMissingImplementation {
                        class: key,
                        type_id: c.type_id,
                        deprecated: c.deprecated,
                    },
                ]
            } else {
                Seq::empty()
            };
            let data_converter = if c.captured_data_converter && !slot.has_data_converter {
                seq![ExecutableSupportIssue::CapturedDataConverterMissingImplementation { class: key, type_id: c.type_id }]
            } else {
                Seq::empty()
            };
            let shape = if c.is_container && c.container_shape is None {
                seq![ExecutableSupportIssue::UnclassifiedContainer { class: key, type_id: c.type_id }]
            } else {
                Seq::empty()
            };
            let cardinality = if c.is_container && c.container_cardinality is None {
                seq![ExecutableSupportIssue::MissingContainerCardinality { class: key, type_id: c.type_id }]
            } else {
                Seq::empty()
            };
            serializer + converter + data_converter + shape + cardinality
        },
    }
}

/// The audit of the first `n` slots, in key order.
pub open spec fn spec_audit(slots: Seq<ClassSlot>, n: nat) -> Seq<ExecutableSupportIssue>
    decreases n,
{
    if n == 0 || n > slots.len() {
        Seq::empty()
    } else {
        spec_audit(slots, (n - 1) as nat) + spec_slot_issues(spec_key(n - 1), slots[n - 1])
    }
}

/// The binding of `name_crc` that entry `j` of `fields` makes is current:
/// no later entry rebinds that CRC.
pub open spec fn spec_current_binding(fields: Seq<(u32, ReflectedField)>, j: int) -> bool {
    forall|t: int| j < t < fields.len() ==> fields[t].0 != fields[j].0
}

/// Field rename bound last to `(parent, from)`.
pub open spec fn spec_rename(renames: Seq<(AzUuid, (u32, u32))>, parent: AzUuid, from: u32) -> Option<u32>
    decreases renames.len(),
{
    if renames.len() == 0 {
        None
    } else if renames.last().0 == parent && renames.last().1.0 == from {
        Some(renames.last().1.1)
    } else {
        spec_rename(renames.drop_last(), parent, from)
    }
}

fn slot_issues(key: ReflectedClassKey, slot: &ClassSlot) -> (r: Vec<ExecutableSupportIssue>)
    ensures
        r@ == spec_slot_issues(key, *slot),
{
    let mut issues: Vec<ExecutableSupportIssue> = Vec::new();
    if let Some(c) = &slot.class {
        let serializer = c.captured_serializer && !slot.has_codec && slot.builtin.is_none();
        if serializer {
            issues.push(ExecutableSupportIssue::CapturedSerializerMissingCodec { class: key, type_id: c.type_id });
        }
        let ghost a = issues@;
        if c.captured_version_converter && !slot.has_converter {
            issues.push(
                ExecutableSupportIssue::CapturedVersionConverterMissingImplementation {
                    class: key,
                    type_id: c.type_id,
                    deprecated: c.deprecated,
                },
            );
        }
        let ghost b = issues@;
        if c.captured_data_converter && !slot.has_data_converter {
            issues.push(ExecutableSupportIssue::CapturedDataConverterMissingImplementation { class: key, type_id: c.type_id });
        }
        let ghost d = issues@;
        if c.is_container && c.container_shape.is_none() {
            issues.push(ExecutableSupportIssue::UnclassifiedContainer { class: key, type_id: c.type_id });
        }
        let ghost e = issues@;
        if c.is_container && c.container_cardinality.is_none() {
            issues.push(ExecutableSupportIssue::MissingContainerCardinality { class: key, type_id: c.type_id });
        }
        proof {
            let parts = spec_slot_issues(key, *slot);
            assert(issues@ =~= parts);
        }
    }
    issues
}

impl ObjectStreamReadContext {
    /// Some reserved key was never defined.
    pub open spec fn spec_undefined_reserved(&self) -> bool {
        exists|i: int| 0 <= i < self.spec_class_count() && (#[trigger] self.spec_slots()[i]).class is None
    }

    /// Some `uuidMap` entry names an undefined class.
    pub open spec fn spec_dangling_alias(&self) -> bool {
        exists|j: int| 0 <= j < self.spec_direct().len() && self.spec_class(#[trigger] self.spec_direct()[j].1) is None
    }

    /// Some `uuidGenericMap` info owns an undefined class.
    pub open spec fn spec_dangling_generic(&self) -> bool {
        exists|j: int, m: int|
            0 <= j < self.spec_generics().len() && 0 <= m < self.spec_generics()[j].1.len() && self.spec_class(
                #[trigger] self.spec_generics()[j].1[m].0,
            ) is None
    }

    /// Entry `j` of defined class `i` is a current field binding whose
    /// generic info owns an undefined class.
    pub open spec fn spec_dangling_field_at(&self, i: int, j: int) -> bool {
        &&& 0 <= i < self.spec_class_count()
        &&& self.spec_slots()[i].class matches Some(c)
        &&& 0 <= j < c.fields@.len()
        &&& spec_current_binding(c.fields@, j)
        &&& c.fields@[j].1.generic matches Some(g)
        &&& self.spec_class(g@.0) is None
    }

    pub open spec fn spec_dangling_field(&self) -> bool {
        exists|i: int, j: int| #[trigger] self.spec_dangling_field_at(i, j)
    }

    /// Some enum's underlying type has no `uuidMap` registration.
    pub open spec fn spec_dangling_enum(&self) -> bool {
        exists|j: int| 0 <= j < self.spec_enums().len() && self.spec_direct_class(#[trigger] self.spec_enums()[j].1) is None
    }

    /// Lowering of the captured registry is complete.
    pub open spec fn spec_complete(&self) -> bool {
        !self.spec_undefined_reserved() && !self.spec_dangling_alias() && !self.spec_dangling_generic()
            && !self.spec_dangling_field() && !self.spec_dangling_enum()
    }

    /// `e` reports a completeness violation of the first failing kind
    /// (reserved keys, aliases, generic infos, fields, enums).
    pub open spec fn spec_completeness_error(&self, e: SerializerRegistrationError) -> bool {
        if self.spec_undefined_reserved() {
            e matches SerializerRegistrationError::UndefinedReservedClassData { class } && self.spec_reserved(class)
                && self.spec_class(class) is None
        } else if self.spec_dangling_alias() {
            e matches SerializerRegistrationError::UndefinedDirectClassAlias { map_id, class } && self.spec_direct().contains(
                (map_id, class),
            ) && self.spec_class(class) is None
        } else if self.spec_dangling_generic() {
            e matches SerializerRegistrationError::UndefinedGenericClass { map_id, class } && self.spec_class(class) is None
                && exists|j: int, m: int|
                0 <= j < self.spec_generics().len() && 0 <= m < self.spec_generics()[j].1.len()
                    && self.spec_generics()[j].0 == map_id && (#[trigger] self.spec_generics()[j].1[m]).0 == class
        } else if self.spec_dangling_field() {
            e matches SerializerRegistrationError::UndefinedFieldGenericClass { owner, name_crc, class }
                && exists|i: int, j: int|
                #[trigger] self.spec_dangling_field_at(i, j) && owner == spec_key(i) && (self.spec_slots()[i].class->0).fields@[j].0
                    == name_crc && (self.spec_slots()[i].class->0).fields@[j].1.generic->0@.0 == class
        } else {
            e matches SerializerRegistrationError::UndefinedEnumUnderlyingType { enum_id, underlying_id }
                && self.spec_enums().contains((enum_id, underlying_id)) && self.spec_direct_class(underlying_id) is None
        }
    }

    fn first_undefined_slot(&self) -> (r: Option<usize>)
        ensures
            r matches Some(i) ==> i < self.spec_class_count() && self.spec_slots()[i as int].class is None,
            r is None ==> !self.spec_undefined_reserved(),
    {
        let mut i: usize = 0;
        while i < self.slots.len()
            invariant
                i <= self.slots@.len(),
                forall|k: int| 0 <= k < i ==> (#[trigger] self.slots@[k]).class is Some,
            decreases self.slots.len() - i,
        {
            if self.slots[i].class.is_none() {
                return Some(i);
            }
            i = i + 1;
        }
        None
    }

    fn is_defined(&self, key: ReflectedClassKey) -> (r: bool)
        ensures
            r == (self.spec_class(key) is Some),
    {
        self.class(key).is_some()
    }

    /// Check that the two-pass `ClassData` lowering is complete: every
    /// reserved key defined, and every alias, generic info, field generic
    /// and enum underlying type pointing at defined registrations.
    pub fn validate_complete(&self) -> (r: Result<(), SerializerRegistrationError>)
        ensures
            r is Ok <==> self.spec_complete(),
            r matches Err(e) ==> self.spec_completeness_error(e),
    {
        if let Some(i) = self.first_undefined_slot() {
            proof {
                lemma_key_index(i as int);
            }
            return Err(SerializerRegistrationError::UndefinedReservedClassData { class: ReflectedClassKey(i as u64) });
        }
        let mut j: usize = 0;
        while j < self.direct_classes.len()
            invariant
                j <= self.direct_classes@.len(),
                !self.spec_undefined_reserved(),
                forall|k: int| 0 <= k < j ==> self.spec_class(#[trigger] self.direct_classes@[k].1) is Some,
            decreases self.direct_classes.len() - j,
        {
            let (map_id, class) = self.direct_classes[j];
            if !self.is_defined(class) {
                assert(self.spec_direct()[j as int] == (map_id, class));
                return Err(SerializerRegistrationError::UndefinedDirectClassAlias { map_id, class });
            }
            j = j + 1;
        }
        let mut j: usize = 0;
        while j < self.generic_infos.len()
            invariant
                j <= self.generic_infos@.len(),
                !self.spec_undefined_reserved(),
                !self.spec_dangling_alias(),
                forall|a: int, m: int|
                    0 <= a < j && 0 <= m < self.spec_generics()[a].1.len() ==> self.spec_class(
                        #[trigger] self.spec_generics()[a].1[m].0,
                    ) is Some,
            decreases self.generic_infos.len() - j,
        {
            let infos = &self.generic_infos[j].1;
            let mut m: usize = 0;
            while m < infos.len()
                invariant
                    j < self.generic_infos@.len(),
                    !self.spec_undefined_reserved(),
                    !self.spec_dangling_alias(),
                    *infos == self.generic_infos@[j as int].1,
                    m <= infos@.len(),
                    forall|t: int| 0 <= t < m ==> self.spec_class(#[trigger] infos@[t]@.0) is Some,
                decreases infos.len() - m,
            {
                let class = infos[m].class();
                if !self.is_defined(class) {
                    proof {
                        assert(self.spec_generics()[j as int].1[m as int] == infos@[m as int]@);
                        assert(self.spec_generics()[j as int].0 == self.generic_infos@[j as int].0);
                        assert(self.spec_dangling_generic());
                    }
                    return Err(SerializerRegistrationError::UndefinedGenericClass { map_id: self.generic_infos[j].0, class });
                }
                m = m + 1;
            }
            proof {
                assert forall|a: int, t: int|
                    0 <= a < j + 1 && 0 <= t < self.spec_generics()[a].1.len() implies self.spec_class(
                    #[trigger] self.spec_generics()[a].1[t].0,
                ) is Some by {
                    if a == j {
                        assert(self.spec_generics()[a].1[t] == infos@[t]@);
                    }
                }
            }
            j = j + 1;
        }
        let mut i: usize = 0;
        while i < self.slots.len()
            invariant
                i <= self.slots@.len(),
                !self.spec_undefined_reserved(),
                !self.spec_dangling_alias(),
                !self.spec_dangling_generic(),
                forall|a: int, t: int| 0 <= a < i ==> !#[trigger] self.spec_dangling_field_at(a, t),
            decreases self.slots.len() - i,
        {
            if let Some(c) = &self.slots[i].class {
                let mut t: usize = 0;
                while t < c.fields.len()
                    invariant
                        i < self.slots@.len(),
                        !self.spec_undefined_reserved(),
                        !self.spec_dangling_alias(),
                        !self.spec_dangling_generic(),
                        self.slots@[i as int].class == Some(*c),
                        t <= c.fields@.len(),
                        forall|a: int| 0 <= a < t ==> !#[trigger] self.spec_dangling_field_at(i as int, a),
                    decreases c.fields.len() - t,
                {
                    let crc = c.fields[t].0;
                    let mut later = t + 1;
                    let mut current = true;
                    while later < c.fields.len()
                        invariant
                            t < later <= c.fields@.len(),
                            current == forall|q: int| t < q < later ==> c.fields@[q].0 != c.fields@[t as int].0,
                            crc == c.fields@[t as int].0,
                        decreases c.fields.len() - later,
                    {
                        if c.fields[later].0 == crc {
                            current = false;
                        }
                        later = later + 1;
                    }
                    if current {
                        if let Some(g) = &c.fields[t].1.generic {
                            let owned = g.class();
                            if !self.is_defined(owned) {
                                proof {
                                    lemma_key_index(i as int);
                                    assert(self.spec_dangling_field_at(i as int, t as int));
                                    assert(self.spec_dangling_field());
                                    assert(ReflectedClassKey(i as u64) == spec_key(i as int));
                                }
                                return Err(SerializerRegistrationError::UndefinedFieldGenericClass {
                                    owner: ReflectedClassKey(i as u64),
                                    name_crc: crc,
                                    class: owned,
                                });
                            }
                        }
                    }
                    t = t + 1;
                }
                proof {
                    assert forall|a: int| !#[trigger] self.spec_dangling_field_at(i as int, a) by {
                        if 0 <= a < c.fields@.len() {
                        }
                    }
                }
            }
            i = i + 1;
        }
        let mut j: usize = 0;
        while j < self.enum_underlying_types.len()
            invariant
                j <= self.enum_underlying_types@.len(),
                !self.spec_undefined_reserved(),
                !self.spec_dangling_alias(),
                !self.spec_dangling_generic(),
                !self.spec_dangling_field(),
                forall|k: int| 0 <= k < j ==> self.spec_direct_class(#[trigger] self.enum_underlying_types@[k].1) is Some,
            decreases self.enum_underlying_types.len() - j,
        {
            let (enum_id, underlying_id) = self.enum_underlying_types[j];
            if self.direct_class_key(underlying_id).is_none() {
                assert(self.spec_enums()[j as int] == (enum_id, underlying_id));
                return Err(SerializerRegistrationError::UndefinedEnumUnderlyingType { enum_id, underlying_id });
            }
            j = j + 1;
        }
        Ok(())
    }

    /// Consume and return the context only when it is complete.
    pub fn into_complete(self) -> (r: Result<Self, SerializerRegistrationError>)
        ensures
            r is Ok <==> self.spec_complete(),
            r matches Err(e) ==> self.spec_completeness_error(e),
    {
        match self.validate_complete() {
            Ok(()) => Ok(self),
            Err(e) => Err(e),
        }
    }

    /// `uuidMap` lookup of a type id.
    pub fn direct_class_key(&self, type_id: AzUuid) -> (r: Option<ReflectedClassKey>)
        ensures
            r == self.spec_direct_class(type_id),
    {
        match last_index_of(&self.direct_classes, type_id) {
            Some(i) => Some(self.direct_classes[i].1),
            None => None,
        }
    }

    /// Every captured capability without an executable implementation, by
    /// class key.
    pub fn executable_support_audit(&self) -> (r: ExecutableSupportAudit)
        ensures
            r.issues@ == spec_audit(self.spec_slots(), self.spec_class_count()),
    {
        let mut issues: Vec<ExecutableSupportIssue> = Vec::new();
        let mut i: usize = 0;
        while i < self.slots.len()
            invariant
                i <= self.slots@.len(),
                issues@ == spec_audit(self.slots@, i as nat),
            decreases self.slots.len() - i,
        {
            let slot = &self.slots[i];
            let key = ReflectedClassKey(i as u64);
            proof {
                lemma_key_index(i as int);
                assert(key == spec_key(i as int));
            }
            let ghost before = issues@;
            let extra = slot_issues(key, slot);
            let mut k: usize = 0;
            while k < extra.len()
                invariant
                    k <= extra@.len(),
                    issues@ == before + extra@.subrange(0, k as int),
                decreases extra.len() - k,
            {
                issues.push(extra[k]);
                proof {
                    assert(before + extra@.subrange(0, k + 1) =~= (before + extra@.subrange(0, k as int)).push(extra@[k as int]));
                }
                k = k + 1;
            }
            proof {
                assert(extra@.subrange(0, extra@.len() as int) =~= extra@);
            }
            i = i + 1;
        }
        ExecutableSupportAudit { issues }
    }
}

impl ObjectStreamReadContext {
    /// Everything but the `uuidGenericMap` is as in `other`.
    pub open spec fn spec_same_except_generics(&self, other: &Self) -> bool {
        &&& self.spec_slots() == other.spec_slots()
        &&& self.spec_direct() == other.spec_direct()
        &&& self.spec_redirects() == other.spec_redirects()
        &&& self.spec_enums() == other.spec_enums()
        &&& self.spec_rtti() == other.spec_rtti()
        &&& self.spec_renames() == other.spec_renames()
        &&& self.spec_overlay_providers() == other.spec_overlay_providers()
        &&& self.spec_dialect() == other.spec_dialect()
        &&& self.spec_unregistered_policy() == other.spec_unregistered_policy()
        &&& self.spec_unmatched_policy() == other.spec_unmatched_policy()
        &&& self.spec_names() == other.spec_names()
    }

    /// Everything but the legacy redirects is as in `other`.
    pub open spec fn spec_same_except_redirects(&self, other: &Self) -> bool {
        &&& self.spec_slots() == other.spec_slots()
        &&& self.spec_direct() == other.spec_direct()
        &&& self.spec_generics() == other.spec_generics()
        &&& self.spec_enums() == other.spec_enums()
        &&& self.spec_rtti() == other.spec_rtti()
        &&& self.spec_renames() == other.spec_renames()
        &&& self.spec_overlay_providers() == other.spec_overlay_providers()
        &&& self.spec_dialect() == other.spec_dialect()
        &&& self.spec_unregistered_policy() == other.spec_unregistered_policy()
        &&& self.spec_unmatched_policy() == other.spec_unmatched_policy()
        &&& self.spec_names() == other.spec_names()
    }

    /// Everything but the slots is as in `other`.
    pub open spec fn spec_same_except_slots(&self, other: &Self) -> bool {
        self.spec_same_tables(other) && self.spec_names() == other.spec_names()
    }

    /// Insert one `uuidGenericMap` key; an identical info already under the
    /// key is not added twice.  Aliases never widen `CanStoreType`.
    pub fn insert_generic(&mut self, map_id: AzUuid, info: GenericClassInfo)
        ensures
            old(self).spec_generic_list(map_id) is None ==> final(self).spec_generics() == old(self).spec_generics().push(
                (map_id, seq![info@]),
            ),
            old(self).spec_generic_list(map_id) is Some && old(self).spec_generic_list(map_id)->0.contains(info@)
                ==> final(self).spec_generics() == old(self).spec_generics(),
            old(self).spec_generic_list(map_id) is Some && !old(self).spec_generic_list(map_id)->0.contains(info@) ==> {
                &&& final(self).spec_generic_list(map_id) == Some(old(self).spec_generic_list(map_id)->0.push(info@))
                &&& forall|id: AzUuid| id != map_id ==> final(self).spec_generic_list(id) == old(self).spec_generic_list(id)
            },
            final(self).spec_same_except_generics(old(self)),
    {
        let ghost before = self.spec_generics();
        match last_index_of(&self.generic_infos, map_id) {
            Some(i) => {
                proof {
                    assert(before[i as int].0 == map_id);
                    assert forall|j: int| i < j < before.len() implies before[j].0 != before[i as int].0 by {
                        assert(before[j].0 == self.generic_infos@[j].0);
                    }
                    lemma_last_at(before, i as int);
                }
                assert(before[i as int].1 == spec_info_views(self.generic_infos@[i as int].1@));
                if infos_contain(&self.generic_infos[i].1, &info) {
                    return;
                }
                let ghost raw = self.generic_infos@;
                let (key, mut infos) = self.generic_infos.remove(i);
                let ghost old_list = infos@;
                infos.push(info);
                proof {
                    assert(spec_info_views(infos@) =~= spec_info_views(old_list).push(info@));
                }
                self.generic_infos.insert(i, (key, infos));
                proof {
                    assert(self.generic_infos@ =~= raw.update(i as int, (key, infos)));
                    assert(old_list == raw[i as int].1@);
                    assert(self.spec_generics() =~= before.update(i as int, (map_id, before[i as int].1.push(info@))));
                    assert forall|id: AzUuid| #[trigger] self.spec_generic_list(id) == (if id == map_id {
                        Some(before[i as int].1.push(info@))
                    } else {
                        spec_last(before, id)
                    }) by {
                        lemma_last_update(before, i as int, before[i as int].1.push(info@), id);
                    }
                }
            },
            None => {
                proof {
                    assert forall|j: int| 0 <= j < before.len() implies before[j].0 == self.generic_infos@[j].0 by {
                    }
                    lemma_last_keys_agree(before, self.generic_infos@, map_id);
                }
                let mut infos: Vec<GenericClassInfo> = Vec::new();
                infos.push(info);
                self.generic_infos.push((map_id, infos));
                proof {
                    assert(spec_info_views(infos@) =~= seq![info@]);
                    assert(self.spec_generics() =~= before.push((map_id, seq![info@])));
                }
            },
        }
    }

    /// Record a legacy specialized id redirect to a registered
    /// `uuidGenericMap` key; repeating one is a no-op.
    pub fn insert_legacy_generic_redirect(&mut self, legacy_id: AzUuid, target_id: AzUuid) -> (r: Result<(), SerializerRegistrationError>)
        ensures
            old(self).spec_generic_list(target_id) is None ==> (r == Err::<(), SerializerRegistrationError>(
                SerializerRegistrationError::UnknownGenericRedirectTarget { legacy_id, target_id },
            ) && final(self).spec_redirects() == old(self).spec_redirects()),
            old(self).spec_generic_list(target_id) is Some ==> r is Ok,
            old(self).spec_generic_list(target_id) is Some && old(self).spec_redirect_list(legacy_id) is None
                ==> final(self).spec_redirects() == old(self).spec_redirects().push((legacy_id, seq![target_id])),
            old(self).spec_generic_list(target_id) is Some && old(self).spec_redirect_list(legacy_id) is Some && old(
                self,
            ).spec_redirect_list(legacy_id)->0.contains(target_id) ==> final(self).spec_redirects() == old(
                self,
            ).spec_redirects(),
            old(self).spec_generic_list(target_id) is Some && old(self).spec_redirect_list(legacy_id) is Some && !old(
                self,
            ).spec_redirect_list(legacy_id)->0.contains(target_id) ==> {
                &&& final(self).spec_redirect_list(legacy_id) == Some(
                    old(self).spec_redirect_list(legacy_id)->0.push(target_id),
                )
                &&& forall|id: AzUuid| id != legacy_id ==> final(self).spec_redirect_list(id) == old(self).spec_redirect_list(id)
            },
            final(self).spec_same_except_redirects(old(self)),
    {
        let ghost before = self.spec_redirects();
        match last_index_of(&self.generic_infos, target_id) {
            None => {
                proof {
                    assert forall|j: int| 0 <= j < self.spec_generics().len() implies self.spec_generics()[j].0
                        == self.generic_infos@[j].0 by {}
                    lemma_last_keys_agree(self.spec_generics(), self.generic_infos@, target_id);
                }
                return Err(SerializerRegistrationError::UnknownGenericRedirectTarget { legacy_id, target_id });
            },
            Some(g) => {
                proof {
                    assert forall|j: int| g < j < self.spec_generics().len() implies self.spec_generics()[j].0
                        != self.spec_generics()[g as int].0 by {
                        assert(self.spec_generics()[j].0 == self.generic_infos@[j].0);
                    }
                    lemma_last_at(self.spec_generics(), g as int);
                }
            },
        }
        match last_index_of(&self.legacy_generic_redirects, legacy_id) {
            Some(i) => {
                proof {
                    assert(before[i as int].0 == legacy_id);
                    assert forall|j: int| i < j < before.len() implies before[j].0 != before[i as int].0 by {
                        assert(before[j].0 == self.legacy_generic_redirects@[j].0);
                    }
                    lemma_last_at(before, i as int);
                }
                assert(before[i as int].1 == self.legacy_generic_redirects@[i as int].1@);
                if uuids_contain(&self.legacy_generic_redirects[i].1, target_id) {
                    return Ok(());
                }
                let ghost raw = self.legacy_generic_redirects@;
                let (key, mut list) = self.legacy_generic_redirects.remove(i);
                list.push(target_id);
                self.legacy_generic_redirects.insert(i, (key, list));
                proof {
                    assert(self.legacy_generic_redirects@ =~= raw.update(i as int, (key, list)));
                    assert(self.spec_redirects() =~= before.update(i as int, (legacy_id, before[i as int].1.push(target_id))));
                    assert forall|id: AzUuid| #[trigger] self.spec_redirect_list(id) == (if id == legacy_id {
                        Some(before[i as int].1.push(target_id))
                    } else {
                        spec_last(before, id)
                    }) by {
                        lemma_last_update(before, i as int, before[i as int].1.push(target_id), id);
                    }
                }
                Ok(())
            },
            None => {
                proof {
                    assert forall|j: int| 0 <= j < before.len() implies before[j].0
                        == self.legacy_generic_redirects@[j].0 by {}
                    lemma_last_keys_agree(before, self.legacy_generic_redirects@, legacy_id);
                }
                let mut list: Vec<AzUuid> = Vec::new();
                list.push(target_id);
                self.legacy_generic_redirects.push((legacy_id, list));
                proof {
                    assert(list@ =~= seq![target_id]);
                    assert(self.spec_redirects() =~= before.push((legacy_id, seq![target_id])));
                }
                Ok(())
            },
        }
    }

    /// Record an enum's underlying type; repeating the same mapping is a
    /// no-op and a different one is refused.
    pub fn insert_enum_underlying_type(&mut self, enum_id: AzUuid, underlying_id: AzUuid) -> (r: Result<(), SerializerRegistrationError>)
        ensures
            old(self).spec_enum_underlying(enum_id) is None ==> (r is Ok && final(self).spec_enums() == old(
                self,
            ).spec_enums().push((enum_id, underlying_id))),
            old(self).spec_enum_underlying(enum_id) == Some(underlying_id) ==> (r is Ok && final(self).spec_enums()
                == old(self).spec_enums()),
            old(self).spec_enum_underlying(enum_id) is Some && old(self).spec_enum_underlying(enum_id) != Some(
                underlying_id,
            ) ==> (r == Err::<
                (),
                SerializerRegistrationError,
            >(
                SerializerRegistrationError::ConflictingEnumUnderlyingType {
                    enum_id,
                    existing: old(self).spec_enum_underlying(enum_id)->0,
                    requested: underlying_id,
                },
            ) && final(self).spec_enums() == old(self).spec_enums()),
            final(self).spec_slots() == old(self).spec_slots(),
            final(self).spec_direct() == old(self).spec_direct(),
            final(self).spec_generics() == old(self).spec_generics(),
            final(self).spec_redirects() == old(self).spec_redirects(),
            final(self).spec_rtti() == old(self).spec_rtti(),
            final(self).spec_renames() == old(self).spec_renames(),
            final(self).spec_overlay_providers() == old(self).spec_overlay_providers(),
            final(self).spec_dialect() == old(self).spec_dialect(),
            final(self).spec_names() == old(self).spec_names(),
    {
        match last_index_of(&self.enum_underlying_types, enum_id) {
            Some(i) => {
                let existing = self.enum_underlying_types[i].1;
                if existing.bits == underlying_id.bits {
                    Ok(())
                } else {
                    Err(SerializerRegistrationError::ConflictingEnumUnderlyingType {
                        enum_id,
                        existing,
                        requested: underlying_id,
                    })
                }
            },
            None => {
                self.enum_underlying_types.push((enum_id, underlying_id));
                Ok(())
            },
        }
    }

    /// Record that `derived` has RTTI base `base`.
    pub fn insert_rtti_base(&mut self, derived: AzUuid, base: AzUuid)
        ensures
            final(self).spec_rtti() == old(self).spec_rtti().push((derived, base)),
            final(self).spec_slots() == old(self).spec_slots(),
            final(self).spec_direct() == old(self).spec_direct(),
            final(self).spec_generics() == old(self).spec_generics(),
            final(self).spec_redirects() == old(self).spec_redirects(),
            final(self).spec_enums() == old(self).spec_enums(),
            final(self).spec_renames() == old(self).spec_renames(),
    {
        self.rtti_bases.push((derived, base));
    }

    /// The class registered for `type_id` binds a field with `name_crc`.
    pub fn class_field_exists(&self, type_id: AzUuid, name_crc: u32) -> (r: bool)
        ensures
            r == (match self.spec_direct_class(type_id) {
                Some(key) => match self.spec_class(key) {
                    Some(c) => spec_field_binding(c.fields@, name_crc) is Some,
                    None => false,
                },
                None => false,
            }),
    {
        match self.direct_class_key(type_id) {
            Some(key) => match self.class(key) {
                Some(c) => c.find_field(Some(name_crc)).is_some(),
                None => false,
            },
            None => false,
        }
    }

    /// Rebind children of `parent_type_id` named `from` to `to`.
    pub fn insert_field_rename(&mut self, parent_type_id: AzUuid, from: u32, to: u32)
        ensures
            final(self).spec_renames() == old(self).spec_renames().push((parent_type_id, (from, to))),
            final(self).spec_slots() == old(self).spec_slots(),
            final(self).spec_direct() == old(self).spec_direct(),
            final(self).spec_generics() == old(self).spec_generics(),
            final(self).spec_enums() == old(self).spec_enums(),
            final(self).spec_rtti() == old(self).spec_rtti(),
    {
        self.field_renames.push((parent_type_id, (from, to)));
    }

    /// The name CRC a child of `parent_type_id` named `child_name_crc` is
    /// rebound to.
    pub fn renamed_child_name_crc(&self, parent_type_id: AzUuid, child_name_crc: u32) -> (r: Option<u32>)
        ensures
            r == spec_rename(self.spec_renames(), parent_type_id, child_name_crc),
    {
        let mut i = self.field_renames.len();
        let ghost s = self.field_renames@;
        assert(s.subrange(0, i as int) =~= s);
        while i > 0
            invariant
                i <= s.len(),
                s == self.field_renames@,
                spec_rename(s, parent_type_id, child_name_crc) == spec_rename(
                    s.subrange(0, i as int),
                    parent_type_id,
                    child_name_crc,
                ),
            decreases i,
        {
            let ghost prefix = s.subrange(0, i as int);
            assert(prefix.drop_last() =~= s.subrange(0, i - 1));
            assert(prefix.last() == s[i - 1]);
            let (parent, (from, to)) = self.field_renames[i - 1];
            if parent.bits == parent_type_id.bits && from == child_name_crc {
                return Some(to);
            }
            i = i - 1;
        }
        None
    }
}

fn infos_contain(list: &Vec<GenericClassInfo>, info: &GenericClassInfo) -> (r: bool)
    ensures
        r == spec_info_views(list@).contains(info@),
{
    let mut m: usize = 0;
    while m < list.len()
        invariant
            m <= list@.len(),
            forall|t: int| 0 <= t < m ==> list@[t]@ != info@,
        decreases list.len() - m,
    {
        if list[m].same_as(info) {
            assert(spec_info_views(list@)[m as int] == info@);
            return true;
        }
        m = m + 1;
    }
    proof {
        if spec_info_views(list@).contains(info@) {
            let t = choose|t: int| 0 <= t < spec_info_views(list@).len() && spec_info_views(list@)[t] == info@;
            assert(list@[t]@ == info@);
        }
    }
    false
}

fn uuids_contain(list: &Vec<AzUuid>, id: AzUuid) -> (r: bool)
    ensures
        r == list@.contains(id),
{
    let mut m: usize = 0;
    while m < list.len()
        invariant
            m <= list@.len(),
            forall|t: int| 0 <= t < m ==> list@[t] != id,
        decreases list.len() - m,
    {
        if list[m].bits == id.bits {
            assert(list@[m as int] == id);
            return true;
        }
        m = m + 1;
    }
    false
}

proof fn lemma_last_keys_agree<V, W>(a: Seq<(AzUuid, V)>, b: Seq<(AzUuid, W)>, k: AzUuid)
    requires
        a.len() == b.len(),
        forall|j: int| 0 <= j < a.len() ==> a[j].0 == b[j].0,
        spec_last(b, k) is None,
    ensures
        spec_last(a, k) is None,
    decreases a.len(),
{
    if a.len() > 0 {
        assert(a.last().0 == b.last().0);
        lemma_last_keys_agree(a.drop_last(), b.drop_last(), k);
    }
}

impl ObjectStreamReadContext {
    fn replace_slot(&mut self, i: usize, slot: ClassSlot) -> (previous: ClassSlot)
        requires
            i < old(self).spec_class_count(),
        ensures
            previous == old(self).spec_slots()[i as int],
            final(self).spec_slots() == old(self).spec_slots().update(i as int, slot),
            final(self).spec_same_except_slots(old(self)),
    {
        let ghost raw = self.slots@;
        let previous = self.slots.remove(i);
        self.slots.insert(i, slot);
        assert(self.slots@ =~= raw.update(i as int, slot));
        previous
    }

    /// Record that the executable counterpart of a captured version
    /// converter is registered.  A deprecated class without captured
    /// converter evidence is discarded natively, so it is refused.
    pub fn insert_version_converter(&mut self, class: ReflectedClassKey) -> (r: Result<(), SerializerRegistrationError>)
        ensures
            old(self).spec_class(class) is None ==> r == Err::<(), SerializerRegistrationError>(
                SerializerRegistrationError::UnknownClass { class },
            ),
            old(self).spec_class(class) matches Some(c) && c.deprecated && !c.captured_version_converter ==> r == Err::<
                (),
                SerializerRegistrationError,
            >(SerializerRegistrationError::DeprecatedClass { class }),
            r is Err ==> final(self).spec_slots() == old(self).spec_slots(),
            old(self).spec_class(class) is Some && !(old(self).spec_class(class)->0.deprecated && !old(self).spec_class(
                class,
            )->0.captured_version_converter) ==> (r is Ok && final(self).spec_slots() == old(self).spec_slots().update(
                class.index() as int,
                ClassSlot { has_converter: true, ..old(self).spec_slots()[class.index() as int] },
            )),
            final(self).spec_same_except_slots(old(self)),
    {
        let (deprecated, captured) = match self.class(class) {
            Some(c) => (c.deprecated, c.captured_version_converter),
            None => {
                return Err(SerializerRegistrationError::UnknownClass { class });
            },
        };
        if deprecated && !captured {
            return Err(SerializerRegistrationError::DeprecatedClass { class });
        }
        let n = self.slots.len();
        assert(class.index() < n);
        let i = class.0 as usize;
        assert(i as int == class.index());
        let slot = self.replace_slot(
            i,
            ClassSlot { class: None, has_codec: false, builtin: None, has_converter: false, has_data_converter: false },
        );
        self.replace_slot(i, ClassSlot { has_converter: true, ..slot });
        proof {
            assert(self.spec_slots() =~= old(self).spec_slots().update(
                class.index() as int,
                ClassSlot { has_converter: true, ..old(self).spec_slots()[class.index() as int] },
            ));
        }
        Ok(())
    }

    /// Record that the executable counterpart of a captured data converter
    /// is registered; a class with no captured data converter is refused.
    pub fn insert_data_converter(&mut self, class: ReflectedClassKey) -> (r: Result<(), SerializerRegistrationError>)
        ensures
            old(self).spec_class(class) is None ==> r == Err::<(), SerializerRegistrationError>(
                SerializerRegistrationError::UnknownClass { class },
            ),
            old(self).spec_class(class) matches Some(c) && !c.captured_data_converter ==> r == Err::<
                (),
                SerializerRegistrationError,
            >(SerializerRegistrationError::DataConverterNotCaptured { class }),
            r is Err ==> final(self).spec_slots() == old(self).spec_slots(),
            old(self).spec_class(class) is Some && old(self).spec_class(class)->0.captured_data_converter ==> (r is Ok
                && final(self).spec_slots() == old(self).spec_slots().update(
                class.index() as int,
                ClassSlot { has_data_converter: true, ..old(self).spec_slots()[class.index() as int] },
            )),
            final(self).spec_same_except_slots(old(self)),
    {
        let captured = match self.class(class) {
            Some(c) => c.captured_data_converter,
            None => {
                return Err(SerializerRegistrationError::UnknownClass { class });
            },
        };
        if !captured {
            return Err(SerializerRegistrationError::DataConverterNotCaptured { class });
        }
        let n = self.slots.len();
        assert(class.index() < n);
        let i = class.0 as usize;
        assert(i as int == class.index());
        let slot = self.replace_slot(
            i,
            ClassSlot { class: None, has_codec: false, builtin: None, has_converter: false, has_data_converter: false },
        );
        self.replace_slot(i, ClassSlot { has_data_converter: true, ..slot });
        proof {
            assert(self.spec_slots() =~= old(self).spec_slots().update(
                class.index() as int,
                ClassSlot { has_data_converter: true, ..old(self).spec_slots()[class.index() as int] },
            ));
        }
        Ok(())
    }

    /// Record an executable data-overlay provider; returns whether one was
    /// already registered under `provider_id`.
    pub fn insert_data_overlay_provider(&mut self, provider_id: u32) -> (r: bool)
        ensures
            r == old(self).spec_overlay_providers().contains(provider_id),
            r ==> final(self).spec_overlay_providers() == old(self).spec_overlay_providers(),
            !r ==> final(self).spec_overlay_providers() == old(self).spec_overlay_providers().push(provider_id),
            final(self).spec_slots() == old(self).spec_slots(),
            final(self).spec_direct() == old(self).spec_direct(),
            final(self).spec_generics() == old(self).spec_generics(),
            final(self).spec_enums() == old(self).spec_enums(),
    {
        let mut k: usize = 0;
        while k < self.overlay_providers.len()
            invariant
                k <= self.overlay_providers@.len(),
                forall|t: int| 0 <= t < k ==> self.overlay_providers@[t] != provider_id,
            decreases self.overlay_providers.len() - k,
        {
            if self.overlay_providers[k] == provider_id {
                assert(self.overlay_providers@[k as int] == provider_id);
                return true;
            }
            k = k + 1;
        }
        self.overlay_providers.push(provider_id);
        false
    }

    /// Does `provider_id` have a registered overlay provider?
    pub fn has_data_overlay_provider(&self, provider_id: u32) -> (r: bool)
        ensures
            r == self.spec_overlay_providers().contains(provider_id),
    {
        let mut k: usize = 0;
        while k < self.overlay_providers.len()
            invariant
                k <= self.overlay_providers@.len(),
                forall|t: int| 0 <= t < k ==> self.overlay_providers@[t] != provider_id,
            decreases self.overlay_providers.len() - k,
        {
            if self.overlay_providers[k] == provider_id {
                assert(self.overlay_providers@[k as int] == provider_id);
                return true;
            }
            k = k + 1;
        }
        false
    }

    /// Record that an executable codec implements a class's serializer.
    /// This marks the serializer as captured and clears any builtin
    /// descriptor; a deprecated class is refused.
    pub fn insert_codec(&mut self, class: ReflectedClassKey) -> (r: Result<(), SerializerRegistrationError>)
        ensures
            old(self).spec_class(class) is None ==> r == Err::<(), SerializerRegistrationError>(
                SerializerRegistrationError::UnknownClass { class },
            ),
            old(self).spec_class(class) matches Some(c) && c.deprecated ==> r == Err::<(), SerializerRegistrationError>(
                SerializerRegistrationError::DeprecatedClass { class },
            ),
            r is Err ==> final(self).spec_slots() == old(self).spec_slots(),
            old(self).spec_class(class) is Some && !old(self).spec_class(class)->0.deprecated ==> (r is Ok && final(self).spec_slots() == old(self).spec_slots().update(
                class.index() as int,
                ClassSlot {
                    class: Some(ReflectedClass { captured_serializer: true, ..old(self).spec_class(class)->0 }),
                    has_codec: true,
                    builtin: None,
                    ..old(self).spec_slots()[class.index() as int]
                },
            )),
            final(self).spec_same_except_slots(old(self)),
    {
        let deprecated = match self.class(class) {
            Some(c) => c.deprecated,
            None => {
                return Err(SerializerRegistrationError::UnknownClass { class });
            },
        };
        if deprecated {
            return Err(SerializerRegistrationError::DeprecatedClass { class });
        }
        let n = self.slots.len();
        assert(class.index() < n);
        let i = class.0 as usize;
        assert(i as int == class.index());
        let slot = self.replace_slot(
            i,
            ClassSlot { class: None, has_codec: false, builtin: None, has_converter: false, has_data_converter: false },
        );
        let data = match slot.class {
            Some(c) => c,
            None => {
                assert(false);
                return Ok(());
            },
        };
        self.replace_slot(
            i,
            ClassSlot {
                class: Some(ReflectedClass { captured_serializer: true, ..data }),
                has_codec: true,
                builtin: None,
                has_converter: slot.has_converter,
                has_data_converter: slot.has_data_converter,
            },
        );
        proof {
            assert(self.spec_slots() =~= old(self).spec_slots().update(
                class.index() as int,
                ClassSlot {
                    class: Some(ReflectedClass { captured_serializer: true, ..old(self).spec_class(class)->0 }),
                    has_codec: true,
                    builtin: None,
                    ..old(self).spec_slots()[class.index() as int]
                },
            ));
        }
        Ok(())
    }

    /// What registering builtin `descriptor` for `class`, whose AZ builtin
    /// type UUID is `type_id`, does to the class slots, given the table of
    /// builtin type UUIDs and their serializers: `type_id` must be one of
    /// them, `class` registered and not deprecated, `descriptor` of the
    /// kind `type_id` implies, and an asset serializer no newer than
    /// version 2.
    pub open spec fn spec_builtin_registration(
        &self,
        class: ReflectedClassKey,
        type_id: AzUuid,
        descriptor: BuiltinSerializerDescriptor,
        builtin_types: Seq<(AzUuid, crate::codec::BuiltinSerializerKind)>,
    ) -> Result<Seq<ClassSlot>, SerializerRegistrationError> {
        match crate::codec::spec_builtin_lookup(builtin_types, type_id) {
            None => Err(SerializerRegistrationError::UnsupportedSerializer { type_id }),
            Some(k) => match self.spec_class(class) {
                None => Err(SerializerRegistrationError::UnknownClass { class }),
                Some(c) => if c.deprecated {
                    Err(SerializerRegistrationError::DeprecatedClass { class })
                } else if descriptor.kind != k {
                    Err(SerializerRegistrationError::DescriptorKindMismatch { type_id, expected: k, actual: descriptor.kind })
                } else if k is Asset && descriptor.current_version > 2 {
                    Err(SerializerRegistrationError::UnsupportedAssetVersion { version: descriptor.current_version })
                } else {
                    Ok(
                        self.spec_slots().update(
                            class.index() as int,
                            ClassSlot {
                                class: Some(ReflectedClass { captured_serializer: true, ..c }),
                                has_codec: true,
                                builtin: Some(descriptor),
                                ..self.spec_slots()[class.index() as int]
                            },
                        ),
                    )
                },
            },
        }
    }

    /// Register the builtin serializer of AZ builtin type `type_id` (looked
    /// up in `builtin_types`) at `serializer_version`, on Lumberyard's
    /// platform, as `class`'s codec.
    pub fn insert_builtin_codec(
        &mut self,
        class: ReflectedClassKey,
        type_id: AzUuid,
        serializer_version: u32,
        builtin_types: &[(AzUuid, crate::codec::BuiltinSerializerKind)],
    ) -> (r: Result<(), SerializerRegistrationError>)
        ensures
            crate::codec::spec_builtin_lookup(builtin_types@, type_id) is None ==> (r == Err::<
                (),
                SerializerRegistrationError,
            >(SerializerRegistrationError::UnsupportedSerializer { type_id }) && final(self).spec_slots() == old(
                self,
            ).spec_slots()),
            crate::codec::spec_builtin_lookup(builtin_types@, type_id) matches Some(k) ==> match old(
                self,
            ).spec_builtin_registration(
                class,
                type_id,
                BuiltinSerializerDescriptor {
                    kind: k,
                    native_abi: crate::codec::NativeAbi::Llp64,
                    native_endian: crate::codec::NativeEndian::Little,
                    current_version: serializer_version,
                },
                builtin_types@,
            ) {
                Ok(slots) => r is Ok && final(self).spec_slots() == slots,
                Err(e) => r == Err::<(), SerializerRegistrationError>(e) && final(self).spec_slots() == old(
                    self,
                ).spec_slots(),
            },
            final(self).spec_same_except_slots(old(self)),
    {
        let kind = match crate::codec::builtin_kind_of(builtin_types, type_id) {
            Some(k) => k,
            None => {
                return Err(SerializerRegistrationError::UnsupportedSerializer { type_id });
            },
        };
        self.insert_builtin_codec_descriptor(
            class,
            type_id,
            BuiltinSerializerDescriptor::new(kind, serializer_version),
            builtin_types,
        )
    }

    /// Register builtin `descriptor` for `class` (see
    /// `spec_builtin_registration`).
    pub fn insert_builtin_codec_descriptor(
        &mut self,
        class: ReflectedClassKey,
        type_id: AzUuid,
        descriptor: BuiltinSerializerDescriptor,
        builtin_types: &[(AzUuid, crate::codec::BuiltinSerializerKind)],
    ) -> (r: Result<(), SerializerRegistrationError>)
        ensures
            match old(self).spec_builtin_registration(class, type_id, descriptor, builtin_types@) {
                Ok(slots) => r is Ok && final(self).spec_slots() == slots,
                Err(e) => r == Err::<(), SerializerRegistrationError>(e) && final(self).spec_slots() == old(
                    self,
                ).spec_slots(),
            },
            final(self).spec_same_except_slots(old(self)),
    {
        let kind = match crate::codec::builtin_kind_of(builtin_types, type_id) {
            Some(k) => k,
            None => {
                return Err(SerializerRegistrationError::UnsupportedSerializer { type_id });
            },
        };
        let deprecated = match self.class(class) {
            Some(c) => c.deprecated,
            None => {
                return Err(SerializerRegistrationError::UnknownClass { class });
            },
        };
        if deprecated {
            return Err(SerializerRegistrationError::DeprecatedClass { class });
        }
        if descriptor.kind != kind {
            return Err(
                SerializerRegistrationError::DescriptorKindMismatch { type_id, expected: kind, actual: descriptor.kind },
            );
        }
        let is_asset = match kind {
            crate::codec::BuiltinSerializerKind::Asset => true,
            _ => false,
        };
        if is_asset && descriptor.current_version > 2 {
            return Err(SerializerRegistrationError::UnsupportedAssetVersion { version: descriptor.current_version });
        }
        let registered = self.insert_codec(class);
        let n = self.slots.len();
        assert(class.index() < n);
        let i = class.0 as usize;
        assert(i as int == class.index());
        let slot = self.replace_slot(
            i,
            ClassSlot { class: None, has_codec: false, builtin: None, has_converter: false, has_data_converter: false },
        );
        self.replace_slot(i, ClassSlot { builtin: Some(descriptor), ..slot });
        proof {
            assert(self.spec_slots() =~= old(self).spec_slots().update(
                class.index() as int,
                ClassSlot {
                    class: Some(ReflectedClass { captured_serializer: true, ..old(self).spec_class(class)->0 }),
                    has_codec: true,
                    builtin: Some(descriptor),
                    ..old(self).spec_slots()[class.index() as int]
                },
            ));
        }
        Ok(())
    }

    /// Register a builtin descriptor for a captured serializer whose class
    /// id is not a primitive one.  Needs captured serializer evidence.
    pub fn insert_captured_serializer_descriptor(
        &mut self,
        class: ReflectedClassKey,
        descriptor: BuiltinSerializerDescriptor,
    ) -> (r: Result<(), SerializerRegistrationError>)
        ensures
            old(self).spec_class(class) is None ==> r == Err::<(), SerializerRegistrationError>(
                SerializerRegistrationError::UnknownClass { class },
            ),
            old(self).spec_class(class) matches Some(c) && c.deprecated ==> r == Err::<(), SerializerRegistrationError>(
                SerializerRegistrationError::DeprecatedClass { class },
            ),
            old(self).spec_class(class) matches Some(c) && !c.deprecated && !c.captured_serializer ==> r == Err::<
                (),
                SerializerRegistrationError,
            >(SerializerRegistrationError::UnsupportedSerializer { type_id: old(self).spec_class(class)->0.type_id }),
            r is Err ==> final(self).spec_slots() == old(self).spec_slots(),
            old(self).spec_class(class) is Some && !old(self).spec_class(class)->0.deprecated && old(self).spec_class(
                class,
            )->0.captured_serializer ==> (r is Ok && final(self).spec_slots() == old(self).spec_slots().update(
                class.index() as int,
                ClassSlot { has_codec: true, builtin: Some(descriptor), ..old(self).spec_slots()[class.index() as int] },
            )),
            final(self).spec_same_except_slots(old(self)),
    {
        let (deprecated, captured, type_id) = match self.class(class) {
            Some(c) => (c.deprecated, c.captured_serializer, c.type_id),
            None => {
                return Err(SerializerRegistrationError::UnknownClass { class });
            },
        };
        if deprecated {
            return Err(SerializerRegistrationError::DeprecatedClass { class });
        }
        if !captured {
            return Err(SerializerRegistrationError::UnsupportedSerializer { type_id });
        }
        let registered = self.insert_codec(class);
        let n = self.slots.len();
        assert(class.index() < n);
        let i = class.0 as usize;
        assert(i as int == class.index());
        let slot = self.replace_slot(
            i,
            ClassSlot { class: None, has_codec: false, builtin: None, has_converter: false, has_data_converter: false },
        );
        self.replace_slot(i, ClassSlot { builtin: Some(descriptor), ..slot });
        proof {
            let old_class = old(self).spec_class(class)->0;
            assert(ReflectedClass { captured_serializer: true, ..old_class } == old_class);
            assert(self.spec_slots() =~= old(self).spec_slots().update(
                class.index() as int,
                ClassSlot { has_codec: true, builtin: Some(descriptor), ..old(self).spec_slots()[class.index() as int] },
            ));
        }
        Ok(())
    }

    /// The executable serializer registered for a non-deprecated class.
    /// The serializer `class` registers for its payloads.
    pub open spec fn spec_codec(&self, class: ReflectedClassKey) -> Option<RegisteredCodec> {
        match self.spec_class(class) {
            Some(c) => if !c.deprecated && self.spec_has_codec(class) {
                match self.spec_builtin(class) {
                    Some(d) => Some(RegisteredCodec::Builtin(d)),
                    None => Some(RegisteredCodec::External),
                }
            } else {
                None
            },
            None => None,
        }
    }

    pub fn codec(&self, class: ReflectedClassKey) -> (r: Option<RegisteredCodec>)
        ensures
            r == self.spec_codec(class),
            r == (match self.spec_class(class) {
                Some(c) => if !c.deprecated && self.spec_has_codec(class) {
                    match self.spec_builtin(class) {
                        Some(d) => Some(RegisteredCodec::Builtin(d)),
                        None => Some(RegisteredCodec::External),
                    }
                } else {
                    None
                },
                None => None,
            }),
    {
        match self.class(class) {
            Some(c) => {
                let n = self.slots.len();
                assert(class.index() < n);
                let slot = &self.slots[class.0 as usize];
                if !c.deprecated && slot.has_codec {
                    match slot.builtin {
                        Some(d) => Some(RegisteredCodec::Builtin(d)),
                        None => Some(RegisteredCodec::External),
                    }
                } else {
                    None
                }
            },
            None => None,
        }
    }

    /// Fail on an ambiguous generic resolution.
    pub fn ensure_unambiguous(resolved: ResolvedType, raw_type_id: AzUuid) -> (r: Result<(), crate::error::ObjectStreamError>)
        ensures
            resolved.ambiguous_generic ==> (r matches Err(crate::error::ObjectStreamError::AmbiguousGenericType {
                type_id,
            }) && type_id == raw_type_id),
            !resolved.ambiguous_generic ==> r is Ok,
    {
        if resolved.ambiguous_generic {
            Err(crate::error::ObjectStreamError::AmbiguousGenericType { type_id: raw_type_id })
        } else {
            Ok(())
        }
    }

    /// What `resolved_element_fate` reports for a resolution of `raw_type_id`.
    pub open spec fn spec_fate_check(&self, resolved: ResolvedType, raw_type_id: AzUuid) -> Result<ElementFate, crate::error::ObjectStreamError> {
        if resolved.ambiguous_generic {
            Err(crate::error::ObjectStreamError::AmbiguousGenericType { type_id: raw_type_id })
        } else if resolved.type_id is None || resolved.class is None {
            match self.spec_unregistered_policy() {
                UnregisteredClassPolicy::NativeSkip => Ok(ElementFate::Skip),
                UnregisteredClassPolicy::Fail => Err(crate::error::ObjectStreamError::UnresolvedElementType { type_id: raw_type_id }),
            }
        } else {
            Ok(ElementFate::Retain)
        }
    }

    /// What `validate_payload_support` reports for an element of `class`.
    pub open spec fn spec_payload_check(&self, class: ReflectedClassKey, has_payload: bool) -> Result<(), crate::error::ObjectStreamError> {
        match self.spec_class(class) {
            None => Err(crate::error::ObjectStreamError::UnresolvedClassData { class }),
            Some(cd) => if cd.is_container && cd.container_shape is None {
                Err(crate::error::ObjectStreamError::UnsupportedContainerSemantics { type_id: cd.type_id })
            } else if cd.is_container && cd.container_cardinality is None {
                Err(crate::error::ObjectStreamError::MissingContainerCardinality { type_id: cd.type_id })
            } else if cd.captured_serializer {
                if self.spec_has_codec(class) {
                    Ok(())
                } else {
                    Err(crate::error::ObjectStreamError::UnsupportedSerializer { type_id: cd.type_id })
                }
            } else if has_payload {
                Err(crate::error::ObjectStreamError::MissingSerializer { type_id: cd.type_id })
            } else {
                Ok(())
            },
        }
    }

    /// What `validate_container_cardinality` reports for `actual` children.
    pub open spec fn spec_cardinality_check(&self, class: ReflectedClassKey, actual: usize) -> Result<(), crate::error::ObjectStreamError> {
        match self.spec_class(class) {
            None => Err(crate::error::ObjectStreamError::UnresolvedClassData { class }),
            Some(cd) => if match cd.container_cardinality {
                Some(c) => crate::container::spec_cardinality_admits(c, actual as nat),
                None => true,
            } {
                Ok(())
            } else {
                Err(crate::error::ObjectStreamError::InvalidContainerCardinality { type_id: cd.type_id, expected: cd.container_cardinality, actual })
            },
        }
    }

    /// What `validate_class_version` reports for an element of `version`.
    pub open spec fn spec_version_check(&self, class: ReflectedClassKey, version: u32) -> Result<VersionConversionState, crate::error::ObjectStreamError> {
        match self.spec_class(class) {
            None => Err(crate::error::ObjectStreamError::UnresolvedClassData { class }),
            Some(cd) => {
                let cur = cd.current_version;
                if cd.deprecated && !self.spec_has_converter(class) {
                    Ok(VersionConversionState::DeprecatedDiscard)
                } else if version > cur {
                    Err(crate::error::ObjectStreamError::NewerClassVersion { type_id: cd.type_id, element_version: version, current_version: cur })
                } else if cd.deprecated {
                    Ok(VersionConversionState::RegisteredConverter { from: version, to: cur })
                } else if version < cur {
                    if self.spec_has_codec(class) {
                        Ok(VersionConversionState::SerializerCompatibleOld { from: version, to: cur })
                    } else if self.spec_has_converter(class) {
                        Ok(VersionConversionState::RegisteredConverter { from: version, to: cur })
                    } else if cd.captured_version_converter {
                        Err(crate::error::ObjectStreamError::UnsupportedVersionConversion {
                            type_id: cd.type_id,
                            element_version: version,
                            current_version: cur,
                        })
                    } else {
                        Ok(VersionConversionState::StrictDefaultStructural { from: version, to: cur })
                    }
                } else {
                    Ok(VersionConversionState::Current)
                }
            },
        }
    }

    /// Whether a reached element has executable `ClassData` or, under the
    /// skipping policy, is an unregistered class to discard.  Ambiguous
    /// generic identity is never skippable.
    pub fn resolved_element_fate(&self, resolved: ResolvedType, raw_type_id: AzUuid) -> (r: Result<ElementFate, crate::error::ObjectStreamError>)
        ensures
            r == self.spec_fate_check(resolved, raw_type_id),
            resolved.ambiguous_generic ==> (r matches Err(crate::error::ObjectStreamError::AmbiguousGenericType {
                type_id,
            }) && type_id == raw_type_id),
            !resolved.ambiguous_generic && (resolved.type_id is None || resolved.class is None) ==> match self.spec_unregistered_policy() {
                UnregisteredClassPolicy::NativeSkip => r matches Ok(ElementFate::Skip),
                UnregisteredClassPolicy::Fail => r matches Err(crate::error::ObjectStreamError::UnresolvedElementType {
                    type_id,
                }) && type_id == raw_type_id,
            },
            !resolved.ambiguous_generic && resolved.type_id is Some && resolved.class is Some ==> r matches Ok(
                ElementFate::Retain,
            ),
    {
        if let Err(e) = Self::ensure_unambiguous(resolved, raw_type_id) {
            return Err(e);
        }
        if resolved.type_id.is_none() || resolved.class.is_none() {
            return match self.unregistered_class_policy {
                UnregisteredClassPolicy::NativeSkip => Ok(ElementFate::Skip),
                UnregisteredClassPolicy::Fail => Err(crate::error::ObjectStreamError::UnresolvedElementType {
                    type_id: raw_type_id,
                }),
            };
        }
        Ok(ElementFate::Retain)
    }

    /// The fate of a reached child that bound to no field: fail under the
    /// strict filter, discard under the default one.
    pub fn unmatched_child_fate(
        &self,
        parent_type_id: AzUuid,
        child_type_id: AzUuid,
        name_crc: Option<u32>,
    ) -> (r: Result<ChildFate, crate::error::ObjectStreamError>)
        ensures
            self.spec_unmatched_policy() is NativeSkip ==> r matches Ok(ChildFate::Skip),
            self.spec_unmatched_policy() is Fail ==> (r matches Err(
                crate::error::ObjectStreamError::UnexpectedReachableChild { parent_type_id: p, child_type_id: c, name_crc: n },
            ) && p == parent_type_id && c == child_type_id && n == name_crc),
    {
        match self.unmatched_child_policy {
            UnmatchedChildPolicy::NativeSkip => Ok(ChildFate::Skip),
            UnmatchedChildPolicy::Fail => Err(crate::error::ObjectStreamError::UnexpectedReachableChild {
                parent_type_id,
                child_type_id,
                name_crc,
            }),
        }
    }
}

// === resolution ===

/// The single distinct info of a list: its first, when every entry equals
/// it.
pub open spec fn spec_unique_info(list: Seq<GenericClassInfoModel>) -> Option<GenericClassInfoModel> {
    if list.len() > 0 && forall|i: int| 0 <= i < list.len() ==> #[trigger] list[i] == list[0] {
        Some(list[0])
    } else {
        None
    }
}

/// Fold infos into a scan state (see `spec_select`).
pub open spec fn spec_fold_infos(
    state: (u8, Option<GenericClassInfoModel>),
    list: Seq<GenericClassInfoModel>,
) -> (u8, Option<GenericClassInfoModel>)
    decreases list.len(),
{
    if list.len() == 0 {
        state
    } else {
        let prev = spec_fold_infos(state, list.drop_last());
        let x = list.last();
        if prev.0 == 0 {
            (1u8, Some(x))
        } else if prev.0 == 1 {
            if prev.1 == Some(x) {
                prev
            } else {
                (2u8, None)
            }
        } else {
            prev
        }
    }
}

/// The list holds two distinct infos.
pub open spec fn spec_has_distinct(list: Seq<GenericClassInfoModel>) -> bool {
    list.len() > 0 && exists|i: int| 0 <= i < list.len() && #[trigger] list[i] != list[0]
}

impl ObjectStreamReadContext {
    /// Scan the generic infos of redirect targets in order: state
    /// `(0, None)` nothing seen, `(1, Some(g))` every info seen equals `g`,
    /// `(2, None)` two distinct infos seen, `(3, None)` a target is not a
    /// `uuidGenericMap` key (unless missing targets are skipped).  The last
    /// two are final.
    pub open spec fn spec_select(&self, targets: Seq<AzUuid>, skip_missing: bool) -> (u8, Option<GenericClassInfoModel>)
        decreases targets.len(),
    {
        if targets.len() == 0 {
            (0u8, None)
        } else {
            let prev = self.spec_select(targets.drop_last(), skip_missing);
            if prev.0 >= 2 {
                prev
            } else {
                match self.spec_generic_list(targets.last()) {
                    None => if skip_missing {
                        prev
                    } else {
                        (3u8, None)
                    },
                    Some(list) => spec_fold_infos(prev, list),
                }
            }
        }
    }

    /// The generic info `type_id` names: the unique info of its
    /// `uuidGenericMap` entry, else the single info shared by all its legacy
    /// redirect targets (none when a target is missing or two differ).
    pub open spec fn spec_find_generic_info(&self, type_id: AzUuid) -> Option<GenericClassInfoModel> {
        match self.spec_generic_list(type_id) {
            Some(list) => spec_unique_info(list),
            None => match self.spec_redirect_list(type_id) {
                None => None,
                Some(targets) => {
                    let sel = self.spec_select(targets, false);
                    if sel.0 == 1 {
                        sel.1
                    } else {
                        None
                    }
                },
            },
        }
    }

    /// `type_id` has several distinct generic targets (missing redirect
    /// targets are skipped).
    pub open spec fn spec_is_ambiguous_generic(&self, type_id: AzUuid) -> bool {
        match self.spec_generic_list(type_id) {
            Some(list) => spec_has_distinct(list),
            None => match self.spec_redirect_list(type_id) {
                None => false,
                Some(targets) => self.spec_select(targets, true).0 == 2,
            },
        }
    }

    /// Native `FindClassData`: the `uuidMap` first, then the parent field's
    /// generic info, then `uuidGenericMap`, then an enum's underlying type.
    pub open spec fn spec_find_class_data(
        &self,
        candidate: AzUuid,
        parent: Option<ReflectedClassKey>,
        name_crc: Option<u32>,
    ) -> Option<ReflectedClassKey> {
        match self.spec_direct_class(candidate) {
            Some(k) => Some(k),
            None => {
                let from_parent = match parent {
                    Some(p) => match self.spec_class(p) {
                        Some(pc) => match spec_find_field(pc, name_crc) {
                            Some(f) => match f.generic {
                                Some(g) => if spec_can_store(g@, candidate) {
                                    Some(g@.0)
                                } else {
                                    None
                                },
                                None => None,
                            },
                            None => None,
                        },
                        None => None,
                    },
                    None => None,
                };
                match from_parent {
                    Some(k) => Some(k),
                    None => match self.spec_find_generic_info(candidate) {
                        Some(g) => Some(g.0),
                        None => match self.spec_enum_underlying(candidate) {
                            Some(u) => self.spec_direct_class(u),
                            None => None,
                        },
                    },
                }
            },
        }
    }

    /// Whether the v2 specialization lookup applies to `raw`.
    pub open spec fn spec_lookup_specialization(&self, raw: AzUuid, element_version: u32) -> bool {
        match self.spec_dialect() {
            ObjectStreamDialect::Lumberyard => raw != spec_asset_type_id(),
            ObjectStreamDialect::O3de => !(raw == spec_asset_type_id() && element_version <= 2),
        }
    }

    /// The candidate id a lookup starts from, after a container parent's
    /// generic info replaces it by its specialized id.
    pub open spec fn spec_candidate(&self, input: ResolveTypeInput) -> AzUuid {
        let lumberyard_asset = self.spec_dialect() is Lumberyard && input.raw_type_id == spec_asset_type_id();
        let first = if input.stream_version == 2 && !lumberyard_asset {
            match input.specialization_type_id {
                Some(s) => s,
                None => input.raw_type_id,
            }
        } else {
            input.raw_type_id
        };
        let replaced = if input.stream_version == 2 && self.spec_lookup_specialization(
            input.raw_type_id,
            input.element_version,
        ) {
            match input.parent {
                Some(p) => match self.spec_class(p) {
                    Some(pc) => if pc.is_container {
                        match spec_find_field(pc, input.name_crc) {
                            Some(f) => match f.generic {
                                Some(g) => if spec_can_store(g@, first) {
                                    Some(g@.1)
                                } else {
                                    None
                                },
                                None => None,
                            },
                            None => None,
                        }
                    } else {
                        None
                    },
                    None => None,
                },
                None => None,
            }
        } else {
            None
        };
        match replaced {
            Some(c) => c,
            None => first,
        }
    }

    /// What a type lookup resolves `input` to.
    pub open spec fn spec_resolve(&self, input: ResolveTypeInput) -> ResolvedType {
        let candidate = self.spec_candidate(input);
        let found = self.spec_find_class_data(candidate, input.parent, input.name_crc);
        let class = match found {
            Some(k) => if self.spec_class(k) is Some {
                Some(k)
            } else {
                None
            },
            None => None,
        };
        let ambiguous = class is None && self.spec_is_ambiguous_generic(candidate);
        let lookup = self.spec_lookup_specialization(input.raw_type_id, input.element_version);
        let (final_candidate, final_ambiguous) = match class {
            Some(k) => if lookup {
                let cd = self.spec_class(k)->0;
                match self.spec_find_generic_info(cd.type_id) {
                    Some(g) => (g.1, ambiguous),
                    None => (candidate, ambiguous || self.spec_is_ambiguous_generic(cd.type_id)),
                }
            } else {
                (candidate, ambiguous)
            },
            None => (candidate, ambiguous),
        };
        ResolvedType {
            type_id: match class {
                Some(_) => Some(final_candidate),
                None => None,
            },
            class,
            builtin_serializer: match class {
                Some(k) => self.spec_builtin(k),
                None => None,
            },
            is_container: match class {
                Some(k) => self.spec_class(k)->0.is_container,
                None => false,
            },
            container_shape: match class {
                Some(k) => self.spec_class(k)->0.container_shape,
                None => None,
            },
            ambiguous_generic: final_ambiguous,
        }
    }
}

fn unique_info(list: &Vec<GenericClassInfo>) -> (r: Option<&GenericClassInfo>)
    ensures
        match r {
            Some(g) => spec_unique_info(spec_info_views(list@)) == Some(g@),
            None => spec_unique_info(spec_info_views(list@)) is None,
        },
{
    if list.len() == 0 {
        return None;
    }
    let first = &list[0];
    let mut i: usize = 1;
    while i < list.len()
        invariant
            1 <= i <= list@.len(),
            *first == list@[0],
            forall|j: int| 0 <= j < i ==> (#[trigger] list@[j])@ == list@[0]@,
        decreases list.len() - i,
    {
        if !list[i].same_as(first) {
            assert(spec_info_views(list@)[i as int] != spec_info_views(list@)[0]);
            return None;
        }
        i = i + 1;
    }
    assert forall|j: int| 0 <= j < spec_info_views(list@).len() implies #[trigger] spec_info_views(list@)[j]
        == spec_info_views(list@)[0] by {
        assert(list@[j]@ == list@[0]@);
    }
    Some(first)
}

fn has_distinct_info(list: &Vec<GenericClassInfo>) -> (r: bool)
    ensures
        r == spec_has_distinct(spec_info_views(list@)),
{
    if list.len() == 0 {
        return false;
    }
    let mut i: usize = 1;
    while i < list.len()
        invariant
            1 <= i <= list@.len(),
            forall|j: int| 0 <= j < i ==> (#[trigger] list@[j])@ == list@[0]@,
        decreases list.len() - i,
    {
        if !list[i].same_as(&list[0]) {
            assert(spec_info_views(list@)[i as int] != spec_info_views(list@)[0]);
            return true;
        }
        i = i + 1;
    }
    proof {
        if spec_has_distinct(spec_info_views(list@)) {
            let j = choose|j: int| 0 <= j < spec_info_views(list@).len() && #[trigger] spec_info_views(list@)[j]
                != spec_info_views(list@)[0];
            assert(list@[j]@ == list@[0]@);
        }
    }
    false
}

proof fn lemma_fold_sticky(state: (u8, Option<GenericClassInfoModel>), list: Seq<GenericClassInfoModel>)
    requires
        state.0 >= 2,
    ensures
        spec_fold_infos(state, list) == state,
    decreases list.len(),
{
    if list.len() > 0 {
        lemma_fold_sticky(state, list.drop_last());
    }
}

proof fn lemma_fold_step(state: (u8, Option<GenericClassInfoModel>), list: Seq<GenericClassInfoModel>, m: int)
    requires
        0 <= m < list.len(),
    ensures
        spec_fold_infos(state, list.take(m + 1)) == {
            let prev = spec_fold_infos(state, list.take(m));
            let x = list[m];
            if prev.0 == 0 {
                (1u8, Some(x))
            } else if prev.0 == 1 {
                if prev.1 == Some(x) {
                    prev
                } else {
                    (2u8, None)
                }
            } else {
                prev
            }
        },
{
    assert(list.take(m + 1).drop_last() =~= list.take(m));
}

/// Once the fold reaches a final state, the rest of the list keeps it.
proof fn lemma_fold_prefix_final(state: (u8, Option<GenericClassInfoModel>), list: Seq<GenericClassInfoModel>, m: int)
    requires
        0 <= m <= list.len(),
        spec_fold_infos(state, list.take(m)).0 >= 2,
    ensures
        spec_fold_infos(state, list) == spec_fold_infos(state, list.take(m)),
    decreases list.len() - m,
{
    if m == list.len() {
        assert(list.take(m) =~= list);
    } else {
        lemma_fold_step(state, list, m);
        lemma_fold_prefix_final(state, list, m + 1);
    }
}

impl ObjectStreamReadContext {
    proof fn lemma_select_step(&self, targets: Seq<AzUuid>, skip: bool, k: int)
        requires
            0 <= k < targets.len(),
        ensures
            self.spec_select(targets.take(k + 1), skip) == {
                let prev = self.spec_select(targets.take(k), skip);
                if prev.0 >= 2 {
                    prev
                } else {
                    match self.spec_generic_list(targets[k]) {
                        None => if skip {
                            prev
                        } else {
                            (3u8, None)
                        },
                        Some(list) => spec_fold_infos(prev, list),
                    }
                }
            },
    {
        assert(targets.take(k + 1).drop_last() =~= targets.take(k));
    }

    /// Once the scan reaches a final state, later targets keep it.
    proof fn lemma_select_prefix_final(&self, targets: Seq<AzUuid>, skip: bool, k: int)
        requires
            0 <= k <= targets.len(),
            self.spec_select(targets.take(k), skip).0 >= 2,
        ensures
            self.spec_select(targets, skip) == self.spec_select(targets.take(k), skip),
        decreases targets.len() - k,
    {
        if k == targets.len() {
            assert(targets.take(k) =~= targets);
        } else {
            self.lemma_select_step(targets, skip, k);
            self.lemma_select_prefix_final(targets, skip, k + 1);
        }
    }

    fn generic_index(&self, id: AzUuid) -> (r: Option<usize>)
        ensures
            r matches Some(i) ==> i < self.generic_infos@.len() && self.spec_generic_list(id) == Some(
                spec_info_views(self.generic_infos@[i as int].1@),
            ),
            r is None ==> self.spec_generic_list(id) is None,
    {
        let r = last_index_of(&self.generic_infos, id);
        proof {
            let v = self.spec_generics();
            assert forall|j: int| 0 <= j < v.len() implies v[j].0 == self.generic_infos@[j].0 by {}
            match r {
                Some(i) => {
                    assert forall|j: int| i < j < v.len() implies v[j].0 != v[i as int].0 by {}
                    lemma_last_at(v, i as int);
                },
                None => {
                    lemma_last_keys_agree(v, self.generic_infos@, id);
                },
            }
        }
        r
    }

    fn redirect_index(&self, id: AzUuid) -> (r: Option<usize>)
        ensures
            r matches Some(i) ==> i < self.legacy_generic_redirects@.len() && self.spec_redirect_list(id) == Some(
                self.legacy_generic_redirects@[i as int].1@,
            ),
            r is None ==> self.spec_redirect_list(id) is None,
    {
        let r = last_index_of(&self.legacy_generic_redirects, id);
        proof {
            let v = self.spec_redirects();
            assert forall|j: int| 0 <= j < v.len() implies v[j].0 == self.legacy_generic_redirects@[j].0 by {}
            match r {
                Some(i) => {
                    assert forall|j: int| i < j < v.len() implies v[j].0 != v[i as int].0 by {}
                    lemma_last_at(v, i as int);
                },
                None => {
                    lemma_last_keys_agree(v, self.legacy_generic_redirects@, id);
                },
            }
        }
        r
    }

    /// The generic info `type_id` names (see `spec_find_generic_info`).
    pub fn find_generic_info(&self, type_id: AzUuid) -> (r: Option<&GenericClassInfo>)
        ensures
            match r {
                Some(g) => self.spec_find_generic_info(type_id) == Some(g@),
                None => self.spec_find_generic_info(type_id) is None,
            },
    {
        if let Some(i) = self.generic_index(type_id) {
            return unique_info(&self.generic_infos[i].1);
        }
        let j = match self.redirect_index(type_id) {
            Some(j) => j,
            None => {
                return None;
            },
        };
        let targets = &self.legacy_generic_redirects[j].1;
        let mut selected: Option<&GenericClassInfo> = None;
        let mut k: usize = 0;
        assert(targets@.take(0) =~= Seq::<AzUuid>::empty());
        while k < targets.len()
            invariant
                k <= targets@.len(),
                self.spec_generic_list(type_id) is None,
                self.spec_redirect_list(type_id) == Some(targets@),
                self.spec_select(targets@.take(k as int), false) == (match selected {
                    Some(g) => (1u8, Some(g@)),
                    None => (0u8, None),
                }),
            decreases targets.len() - k,
        {
            let t = targets[k];
            proof {
                self.lemma_select_step(targets@, false, k as int);
            }
            let g = match self.generic_index(t) {
                Some(g) => g,
                None => {
                    proof {
                        self.lemma_select_prefix_final(targets@, false, k + 1);
                    }
                    return None;
                },
            };
            let list = &self.generic_infos[g].1;
            let ghost prev = self.spec_select(targets@.take(k as int), false);
            let ghost views = spec_info_views(list@);
            let mut m: usize = 0;
            assert(views.take(0) =~= Seq::<GenericClassInfoModel>::empty());
            assert(self.spec_select(targets@.take(k + 1), false) == spec_fold_infos(prev, views));
            while m < list.len()
                invariant
                    m <= list@.len(),
                    k < targets@.len(),
                    self.spec_generic_list(type_id) is None,
                    self.spec_redirect_list(type_id) == Some(targets@),
                    self.spec_select(targets@.take(k + 1), false) == spec_fold_infos(prev, views),
                    views == spec_info_views(list@),
                    prev.0 < 2,
                    spec_fold_infos(prev, views.take(m as int)) == (match selected {
                        Some(g) => (1u8, Some(g@)),
                        None => (0u8, None),
                    }),
                decreases list.len() - m,
            {
                proof {
                    lemma_fold_step(prev, views, m as int);
                }
                let x = &list[m];
                match selected {
                    None => {
                        selected = Some(x);
                    },
                    Some(y) => {
                        if !y.same_as(x) {
                            proof {
                                lemma_fold_prefix_final(prev, views, m + 1);
                                self.lemma_select_prefix_final(targets@, false, k + 1);
                            }
                            return None;
                        }
                    },
                }
                m = m + 1;
            }
            assert(views.take(list@.len() as int) =~= views);
            k = k + 1;
        }
        assert(targets@.take(targets@.len() as int) =~= targets@);
        selected
    }

    /// `type_id` has several distinct generic targets.
    pub fn is_ambiguous_generic(&self, type_id: AzUuid) -> (r: bool)
        ensures
            r == self.spec_is_ambiguous_generic(type_id),
    {
        if let Some(i) = self.generic_index(type_id) {
            return has_distinct_info(&self.generic_infos[i].1);
        }
        let j = match self.redirect_index(type_id) {
            Some(j) => j,
            None => {
                return false;
            },
        };
        let targets = &self.legacy_generic_redirects[j].1;
        let mut selected: Option<&GenericClassInfo> = None;
        let mut k: usize = 0;
        assert(targets@.take(0) =~= Seq::<AzUuid>::empty());
        while k < targets.len()
            invariant
                k <= targets@.len(),
                self.spec_generic_list(type_id) is None,
                self.spec_redirect_list(type_id) == Some(targets@),
                self.spec_select(targets@.take(k as int), true) == (match selected {
                    Some(g) => (1u8, Some(g@)),
                    None => (0u8, None),
                }),
            decreases targets.len() - k,
        {
            let t = targets[k];
            proof {
                self.lemma_select_step(targets@, true, k as int);
            }
            if let Some(g) = self.generic_index(t) {
                let list = &self.generic_infos[g].1;
                let ghost prev = self.spec_select(targets@.take(k as int), true);
                let ghost views = spec_info_views(list@);
                let mut m: usize = 0;
                assert(views.take(0) =~= Seq::<GenericClassInfoModel>::empty());
                assert(self.spec_select(targets@.take(k + 1), true) == spec_fold_infos(prev, views));
                while m < list.len()
                    invariant
                        m <= list@.len(),
                        k < targets@.len(),
                        self.spec_generic_list(type_id) is None,
                        self.spec_redirect_list(type_id) == Some(targets@),
                        self.spec_select(targets@.take(k + 1), true) == spec_fold_infos(prev, views),
                        views == spec_info_views(list@),
                        prev.0 < 2,
                        spec_fold_infos(prev, views.take(m as int)) == (match selected {
                            Some(g) => (1u8, Some(g@)),
                            None => (0u8, None),
                        }),
                    decreases list.len() - m,
                {
                    proof {
                        lemma_fold_step(prev, views, m as int);
                    }
                    let x = &list[m];
                    match selected {
                        None => {
                            selected = Some(x);
                        },
                        Some(y) => {
                            if !y.same_as(x) {
                                proof {
                                    lemma_fold_prefix_final(prev, views, m + 1);
                                    self.lemma_select_prefix_final(targets@, true, k + 1);
                                }
                                return true;
                            }
                        },
                    }
                    m = m + 1;
                }
                assert(views.take(list@.len() as int) =~= views);
            }
            k = k + 1;
        }
        assert(targets@.take(targets@.len() as int) =~= targets@);
        false
    }
}

impl ObjectStreamReadContext {
    fn enum_underlying(&self, id: AzUuid) -> (r: Option<AzUuid>)
        ensures
            r == self.spec_enum_underlying(id),
    {
        match last_index_of(&self.enum_underlying_types, id) {
            Some(i) => Some(self.enum_underlying_types[i].1),
            None => None,
        }
    }

    fn parent_generic(&self, parent: Option<ReflectedClassKey>, name_crc: Option<u32>, require_container: bool) -> (r: Option<&GenericClassInfo>)
        ensures
            match r {
                Some(g) => match parent {
                    Some(p) => match self.spec_class(p) {
                        Some(pc) => (!require_container || pc.is_container) && match spec_find_field(pc, name_crc) {
                            Some(f) => f.generic == Some(*g),
                            None => false,
                        },
                        None => false,
                    },
                    None => false,
                },
                None => match parent {
                    Some(p) => match self.spec_class(p) {
                        Some(pc) => (require_container && !pc.is_container) || match spec_find_field(pc, name_crc) {
                            Some(f) => f.generic is None,
                            None => true,
                        },
                        None => true,
                    },
                    None => true,
                },
            },
    {
        let p = match parent {
            Some(p) => p,
            None => {
                return None;
            },
        };
        let pc = match self.class(p) {
            Some(pc) => pc,
            None => {
                return None;
            },
        };
        if require_container && !pc.is_container {
            return None;
        }
        match pc.find_field(name_crc) {
            Some(f) => match &f.generic {
                Some(g) => Some(g),
                None => None,
            },
            None => None,
        }
    }

    /// Native `FindClassData` precedence (see `spec_find_class_data`).
    pub fn find_class_data(
        &self,
        candidate: AzUuid,
        parent: Option<ReflectedClassKey>,
        name_crc: Option<u32>,
    ) -> (r: Option<ReflectedClassKey>)
        ensures
            r == self.spec_find_class_data(candidate, parent, name_crc),
    {
        if let Some(class) = self.direct_class_key(candidate) {
            return Some(class);
        }
        if let Some(g) = self.parent_generic(parent, name_crc, false) {
            if g.can_store_type(candidate) {
                return Some(g.class());
            }
        }
        if let Some(g) = self.find_generic_info(candidate) {
            return Some(g.class());
        }
        match self.enum_underlying(candidate) {
            Some(u) => self.direct_class_key(u),
            None => None,
        }
    }

    /// Resolve one element's wire identity (see `spec_resolve`).
    pub fn resolve_type(&self, input: ResolveTypeInput) -> (r: ResolvedType)
        ensures
            r == self.spec_resolve(input),
    {
        let asset = asset_type_id_constant();
        let lumberyard = match self.dialect {
            ObjectStreamDialect::Lumberyard => true,
            ObjectStreamDialect::O3de => false,
        };
        let is_asset = input.raw_type_id.bits == asset.bits;
        let lumberyard_asset = lumberyard && is_asset;
        let mut candidate = if input.stream_version == 2 && !lumberyard_asset {
            match input.specialization_type_id {
                Some(s) => s,
                None => input.raw_type_id,
            }
        } else {
            input.raw_type_id
        };
        let lookup = if lumberyard {
            !is_asset
        } else {
            !(is_asset && input.element_version <= 2)
        };
        if input.stream_version == 2 && lookup {
            if let Some(g) = self.parent_generic(input.parent, input.name_crc, true) {
                if g.can_store_type(candidate) {
                    candidate = g.specialized_type_id();
                }
            }
        }
        assert(candidate == self.spec_candidate(input));
        let found = self.find_class_data(candidate, input.parent, input.name_crc);
        let class = match found {
            Some(k) => if self.class(k).is_some() {
                Some(k)
            } else {
                None
            },
            None => None,
        };
        let mut ambiguous = class.is_none() && self.is_ambiguous_generic(candidate);
        if lookup {
            if let Some(k) = class {
                if let Some(cd) = self.class(k) {
                    match self.find_generic_info(cd.type_id) {
                        Some(g) => {
                            candidate = g.specialized_type_id();
                        },
                        None => {
                            ambiguous = ambiguous || self.is_ambiguous_generic(cd.type_id);
                        },
                    }
                }
            }
        }
        let (builtin_serializer, is_container, container_shape) = match class {
            Some(k) => {
                let builtin = self.builtin_of(k);
                match self.class(k) {
                    Some(cd) => (builtin, cd.is_container, cd.container_shape),
                    None => (builtin, false, None),
                }
            },
            None => (None, false, None),
        };
        ResolvedType {
            type_id: match class {
                Some(_) => Some(candidate),
                None => None,
            },
            class,
            builtin_serializer,
            is_container,
            container_shape,
            ambiguous_generic: ambiguous,
        }
    }

    fn builtin_of(&self, key: ReflectedClassKey) -> (r: Option<BuiltinSerializerDescriptor>)
        ensures
            r == self.spec_builtin(key),
    {
        let n = self.slots.len();
        if key.0 >= n as u64 {
            return None;
        }
        self.slots[key.0 as usize].builtin
    }

    /// Resolve a top-level element: no parent and no field CRC take part.
    pub fn resolve_root_type(
        &self,
        stream_version: u32,
        raw_type_id: AzUuid,
        specialization_type_id: Option<AzUuid>,
        element_version: u32,
    ) -> (r: ResolvedType)
        ensures
            r == self.spec_resolve(
                ResolveTypeInput {
                    stream_version,
                    raw_type_id,
                    specialization_type_id,
                    element_version,
                    name_crc: None,
                    parent: None,
                },
            ),
    {
        self.resolve_type(
            ResolveTypeInput {
                stream_version,
                raw_type_id,
                specialization_type_id,
                element_version,
                name_crc: None,
                parent: None,
            },
        )
    }

    /// Edge facts of the parent field a child binds to.
    pub open spec fn spec_resolved_edge(&self, parent: Option<ReflectedClassKey>, name_crc: Option<u32>) -> Option<ReflectedEdge> {
        match parent {
            Some(p) => match self.spec_class(p) {
                Some(pc) => spec_edge(pc, name_crc),
                None => None,
            },
            None => None,
        }
    }

    /// Enum identity of a resolved value (see `resolved_enum_type`).
    pub open spec fn spec_resolved_enum_type(
        &self,
        parent: Option<ReflectedClassKey>,
        name_crc: Option<u32>,
        semantic_type_id: AzUuid,
    ) -> Option<AzUuid> {
        if self.spec_enum_underlying(semantic_type_id) is Some {
            Some(semantic_type_id)
        } else {
            match parent {
                Some(p) => match self.spec_class(p) {
                    Some(pc) => match spec_find_field(pc, name_crc) {
                        Some(f) => if self.spec_enum_underlying(f.type_id) == Some(semantic_type_id) {
                            Some(f.type_id)
                        } else {
                            f.enum_type_id
                        },
                        None => None,
                    },
                    None => None,
                },
                None => None,
            }
        }
    }

    /// Edge facts of the parent field a child binds to.
    pub fn resolved_edge(&self, parent: Option<ReflectedClassKey>, name_crc: Option<u32>) -> (r: Option<ReflectedEdge>)
        ensures
            r == self.spec_resolved_edge(parent, name_crc),
    {
        match parent {
            Some(p) => match self.class(p) {
                Some(pc) => pc.edge(name_crc),
                None => None,
            },
            None => None,
        }
    }

    /// The enum identity of a resolved value: its own type when it is a
    /// registered enum, else its field's type when that enum's underlying
    /// type is the value's type, else the field's captured `EnumType`.
    pub fn resolved_enum_type(
        &self,
        parent: Option<ReflectedClassKey>,
        name_crc: Option<u32>,
        semantic_type_id: AzUuid,
    ) -> (r: Option<AzUuid>)
        ensures
            r == self.spec_resolved_enum_type(parent, name_crc, semantic_type_id),
    {
        if self.enum_underlying(semantic_type_id).is_some() {
            return Some(semantic_type_id);
        }
        let p = match parent {
            Some(p) => p,
            None => {
                return None;
            },
        };
        let pc = match self.class(p) {
            Some(pc) => pc,
            None => {
                return None;
            },
        };
        let field = match pc.find_field(name_crc) {
            Some(f) => f,
            None => {
                return None;
            },
        };
        match self.enum_underlying(field.type_id) {
            Some(u) => if u.bits == semantic_type_id.bits {
                return Some(field.type_id);
            },
            None => {},
        }
        field.enum_type_id
    }

    /// Whether `class` may carry (or omit) an inline payload.
    pub fn validate_payload_support(&self, class: ReflectedClassKey, has_payload: bool) -> (r: Result<(), crate::error::ObjectStreamError>)
        ensures
            r == self.spec_payload_check(class, has_payload),
            self.spec_class(class) is None ==> (r matches Err(crate::error::ObjectStreamError::UnresolvedClassData {
                class: c,
            }) && c == class),
            self.spec_class(class) matches Some(cd) ==> {
                if cd.is_container && cd.container_shape is None {
                    r matches Err(crate::error::ObjectStreamError::UnsupportedContainerSemantics { type_id })
                        && type_id == cd.type_id
                } else if cd.is_container && cd.container_cardinality is None {
                    r matches Err(crate::error::ObjectStreamError::MissingContainerCardinality { type_id })
                        && type_id == cd.type_id
                } else if cd.captured_serializer {
                    if self.spec_has_codec(class) {
                        r is Ok
                    } else {
                        r matches Err(crate::error::ObjectStreamError::UnsupportedSerializer { type_id })
                            && type_id == cd.type_id
                    }
                } else if has_payload {
                    r matches Err(crate::error::ObjectStreamError::MissingSerializer { type_id }) && type_id
                        == cd.type_id
                } else {
                    r is Ok
                }
            },
    {
        let cd = match self.class(class) {
            Some(cd) => cd,
            None => {
                return Err(crate::error::ObjectStreamError::UnresolvedClassData { class });
            },
        };
        if cd.is_container && cd.container_shape.is_none() {
            return Err(crate::error::ObjectStreamError::UnsupportedContainerSemantics { type_id: cd.type_id });
        }
        if cd.is_container && cd.container_cardinality.is_none() {
            return Err(crate::error::ObjectStreamError::MissingContainerCardinality { type_id: cd.type_id });
        }
        if cd.captured_serializer {
            let n = self.slots.len();
            assert(class.index() < n);
            return if self.slots[class.0 as usize].has_codec {
                Ok(())
            } else {
                Err(crate::error::ObjectStreamError::UnsupportedSerializer { type_id: cd.type_id })
            };
        }
        if has_payload {
            return Err(crate::error::ObjectStreamError::MissingSerializer { type_id: cd.type_id });
        }
        Ok(())
    }

    /// Check a container's child count against its captured cardinality;
    /// a variable or absent contract admits any count.
    pub fn validate_container_cardinality(&self, class: ReflectedClassKey, actual: usize) -> (r: Result<(), crate::error::ObjectStreamError>)
        ensures
            r == self.spec_cardinality_check(class, actual),
            self.spec_class(class) is None ==> (r matches Err(crate::error::ObjectStreamError::UnresolvedClassData {
                class: c,
            }) && c == class),
            self.spec_class(class) matches Some(cd) ==> {
                let admitted = match cd.container_cardinality {
                    Some(c) => crate::container::spec_cardinality_admits(c, actual as nat),
                    None => true,
                };
                &&& (admitted <==> r is Ok)
                &&& (r matches Err(e) ==> e matches crate::error::ObjectStreamError::InvalidContainerCardinality {
                    type_id,
                    expected,
                    actual: a,
                } && type_id == cd.type_id && expected == cd.container_cardinality && a == actual)
            },
    {
        let cd = match self.class(class) {
            Some(cd) => cd,
            None => {
                return Err(crate::error::ObjectStreamError::UnresolvedClassData { class });
            },
        };
        let valid = match cd.container_cardinality {
            None => true,
            Some(ContainerCardinality::Variable) => true,
            Some(ContainerCardinality::Bounded { capacity }) => actual <= capacity,
            Some(ContainerCardinality::Fixed { size }) => actual == size,
        };
        if valid {
            Ok(())
        } else {
            Err(crate::error::ObjectStreamError::InvalidContainerCardinality {
                type_id: cd.type_id,
                expected: cd.container_cardinality,
                actual,
            })
        }
    }

    /// How an element of version `element_version` reaches its class's
    /// current version.
    pub fn validate_class_version(&self, class: ReflectedClassKey, element_version: u32) -> (r: Result<VersionConversionState, crate::error::ObjectStreamError>)
        ensures
            r == self.spec_version_check(class, element_version),
            self.spec_class(class) is None ==> (r matches Err(crate::error::ObjectStreamError::UnresolvedClassData {
                class: c,
            }) && c == class),
            self.spec_class(class) matches Some(cd) ==> {
                let cur = cd.current_version;
                if cd.deprecated && !self.spec_has_converter(class) {
                    r == Ok::<VersionConversionState, crate::error::ObjectStreamError>(VersionConversionState::DeprecatedDiscard)
                } else if element_version > cur {
                    r matches Err(crate::error::ObjectStreamError::NewerClassVersion {
                        type_id,
                        element_version: ev,
                        current_version,
                    }) && type_id == cd.type_id && ev == element_version && current_version == cur
                } else if cd.deprecated {
                    r == Ok::<VersionConversionState, crate::error::ObjectStreamError>(
                        VersionConversionState::RegisteredConverter { from: element_version, to: cur },
                    )
                } else if element_version < cur {
                    if self.spec_has_codec(class) {
                        r == Ok::<VersionConversionState, crate::error::ObjectStreamError>(
                            VersionConversionState::SerializerCompatibleOld { from: element_version, to: cur },
                        )
                    } else if self.spec_has_converter(class) {
                        r == Ok::<VersionConversionState, crate::error::ObjectStreamError>(
                            VersionConversionState::RegisteredConverter { from: element_version, to: cur },
                        )
                    } else if cd.captured_version_converter {
                        r matches Err(crate::error::ObjectStreamError::UnsupportedVersionConversion {
                            type_id,
                            element_version: ev,
                            current_version,
                        }) && type_id == cd.type_id && ev == element_version && current_version == cur
                    } else {
                        r == Ok::<VersionConversionState, crate::error::ObjectStreamError>(
                            VersionConversionState::StrictDefaultStructural { from: element_version, to: cur },
                        )
                    }
                } else {
                    r == Ok::<VersionConversionState, crate::error::ObjectStreamError>(VersionConversionState::Current)
                }
            },
    {
        let cd = match self.class(class) {
            Some(cd) => cd,
            None => {
                return Err(crate::error::ObjectStreamError::UnresolvedClassData { class });
            },
        };
        let n = self.slots.len();
        assert(class.index() < n);
        let slot = &self.slots[class.0 as usize];
        if cd.deprecated && !slot.has_converter {
            return Ok(VersionConversionState::DeprecatedDiscard);
        }
        let current_version = cd.current_version;
        if element_version > current_version {
            return Err(crate::error::ObjectStreamError::NewerClassVersion {
                type_id: cd.type_id,
                element_version,
                current_version,
            });
        }
        if cd.deprecated {
            return Ok(VersionConversionState::RegisteredConverter { from: element_version, to: current_version });
        }
        if element_version < current_version {
            if slot.has_codec {
                return Ok(VersionConversionState::SerializerCompatibleOld { from: element_version, to: current_version });
            }
            if slot.has_converter {
                return Ok(VersionConversionState::RegisteredConverter { from: element_version, to: current_version });
            }
            if cd.captured_version_converter {
                return Err(crate::error::ObjectStreamError::UnsupportedVersionConversion {
                    type_id: cd.type_id,
                    element_version,
                    current_version,
                });
            }
            return Ok(VersionConversionState::StrictDefaultStructural { from: element_version, to: current_version });
        }
        Ok(VersionConversionState::Current)
    }
}

// === RTTI bases ===

/// Types reachable from `start` by following at most `rounds` RTTI
/// `(derived, base)` edges.
pub open spec fn spec_rtti_reach(edges: Seq<(AzUuid, AzUuid)>, start: AzUuid, rounds: nat) -> Set<AzUuid>
    decreases rounds,
{
    if rounds == 0 {
        set![start]
    } else {
        let prev = spec_rtti_reach(edges, start, (rounds - 1) as nat);
        prev.union(
            Set::new(|b: AzUuid| exists|i: int| 0 <= i < edges.len() && #[trigger] edges[i].1 == b && prev.contains(edges[i].0)),
        )
    }
}

/// `base` is an RTTI ancestor of `derived` (or `derived` itself).  A chain
/// of distinct types never needs more edges than are registered.
pub open spec fn spec_rtti_derived(edges: Seq<(AzUuid, AzUuid)>, derived: AzUuid, base: AzUuid) -> bool {
    spec_rtti_reach(edges, derived, edges.len()).contains(base)
}

fn uuid_list_contains(list: &Vec<AzUuid>, id: AzUuid) -> (r: bool)
    ensures
        r == list@.contains(id),
{
    uuids_contain(list, id)
}

impl ObjectStreamReadContext {
    /// Whether `base` is reachable from `derived` through registered RTTI
    /// bases.
    pub fn is_rtti_derived_from(&self, derived: AzUuid, base: AzUuid) -> (r: bool)
        ensures
            r == spec_rtti_derived(self.spec_rtti(), derived, base),
    {
        let edges = &self.rtti_bases;
        let ghost es = edges@;
        let mut reach: Vec<AzUuid> = Vec::new();
        reach.push(derived);
        proof {
            assert forall|x: AzUuid| reach@.contains(x) <==> spec_rtti_reach(es, derived, 0).contains(x) by {
                if x == derived {
                    assert(reach@[0] == x);
                }
            }
        }
        let mut round: usize = 0;
        while round < edges.len()
            invariant
                es == edges@,
                round <= es.len(),
                forall|x: AzUuid| reach@.contains(x) <==> #[trigger] spec_rtti_reach(es, derived, round as nat).contains(x),
            decreases edges.len() - round,
        {
            let snapshot = copy_uuids(&reach);
            let ghost prev = spec_rtti_reach(es, derived, round as nat);
            let mut i: usize = 0;
            while i < edges.len()
                invariant
                    es == edges@,
                    i <= es.len(),
                    forall|x: AzUuid| snapshot@.contains(x) <==> prev.contains(x),
                    forall|x: AzUuid| #[trigger] reach@.contains(x) <==> (prev.contains(x) || exists|j: int|
                        0 <= j < i && es[j].1 == x && prev.contains(es[j].0)),
                decreases edges.len() - i,
            {
                let (from, to) = edges[i];
                assert(from == es[i as int].0 && to == es[i as int].1);
                if uuid_list_contains(&snapshot, from) && !uuid_list_contains(&reach, to) {
                    let ghost before = reach@;
                    reach.push(to);
                    proof {
                        assert forall|x: AzUuid| #[trigger] reach@.contains(x) <==> (prev.contains(x) || exists|j: int|
                            0 <= j < i + 1 && es[j].1 == x && prev.contains(es[j].0)) by {
                            if reach@.contains(x) {
                                let t = choose|t: int| 0 <= t < reach@.len() && reach@[t] == x;
                                if t < before.len() {
                                    assert(before.contains(x));
                                } else {
                                    assert(es[i as int].1 == x);
                                }
                            }
                            if exists|j: int| 0 <= j < i + 1 && es[j].1 == x && prev.contains(es[j].0) {
                                let j = choose|j: int| 0 <= j < i + 1 && es[j].1 == x && prev.contains(es[j].0);
                                if j == i {
                                    assert(reach@[before.len() as int] == x);
                                } else {
                                    assert(before.contains(x));
                                    let t = choose|t: int| 0 <= t < before.len() && before[t] == x;
                                    assert(reach@[t] == x);
                                }
                            }
                            if prev.contains(x) {
                                assert(before.contains(x));
                                let t = choose|t: int| 0 <= t < before.len() && before[t] == x;
                                assert(reach@[t] == x);
                            }
                        }
                    }
                } else {
                    proof {
                        assert forall|x: AzUuid| #[trigger] reach@.contains(x) <==> (prev.contains(x) || exists|j: int|
                            0 <= j < i + 1 && es[j].1 == x && prev.contains(es[j].0)) by {
                            if exists|j: int| 0 <= j < i + 1 && es[j].1 == x && prev.contains(es[j].0) {
                                let j = choose|j: int| 0 <= j < i + 1 && es[j].1 == x && prev.contains(es[j].0);
                                if j == i {
                                    assert(snapshot@.contains(es[i as int].0));
                                }
                            }
                        }
                    }
                }
                i = i + 1;
            }
            proof {
                assert forall|x: AzUuid| reach@.contains(x) <==> #[trigger] spec_rtti_reach(es, derived, (round + 1) as nat).contains(x) by {
                    let next = Set::new(|b: AzUuid| exists|j: int| 0 <= j < es.len() && #[trigger] es[j].1 == b && prev.contains(es[j].0));
                    assert(spec_rtti_reach(es, derived, (round + 1) as nat) == prev.union(next));
                    if exists|j: int| 0 <= j < es.len() && es[j].1 == x && prev.contains(es[j].0) {
                        let j = choose|j: int| 0 <= j < es.len() && es[j].1 == x && prev.contains(es[j].0);
                        assert(next.contains(x));
                    }
                    if next.contains(x) {
                        let j = choose|j: int| 0 <= j < es.len() && #[trigger] es[j].1 == x && prev.contains(es[j].0);
                        assert(es[j].1 == x);
                    }
                }
            }
            round = round + 1;
        }
        uuid_list_contains(&reach, base)
    }

    /// A field accepts a child of `child_type`: the same type, a type its
    /// generic info can store, an enum and its underlying type either way,
    /// or (for pointer fields) an RTTI-derived type.
    pub open spec fn spec_field_accepts(&self, field: ReflectedField, child_type: AzUuid) -> bool {
        ||| field.type_id == child_type
        ||| (field.generic matches Some(g) && spec_can_store(g@, child_type))
        ||| self.spec_enum_underlying(field.type_id) == Some(child_type)
        ||| self.spec_enum_underlying(child_type) == Some(field.type_id)
        ||| (field.is_pointer && spec_rtti_derived(self.spec_rtti(), child_type, field.type_id))
    }

    pub fn field_accepts_type(&self, field: &ReflectedField, child_type: AzUuid) -> (r: bool)
        ensures
            r == self.spec_field_accepts(*field, child_type),
    {
        if field.type_id.bits == child_type.bits {
            return true;
        }
        if let Some(g) = &field.generic {
            if g.can_store_type(child_type) {
                return true;
            }
        }
        if let Some(u) = self.enum_underlying(field.type_id) {
            if u.bits == child_type.bits {
                return true;
            }
        }
        if let Some(u) = self.enum_underlying(child_type) {
            if u.bits == field.type_id.bits {
                return true;
            }
        }
        field.is_pointer && self.is_rtti_derived_from(child_type, field.type_id)
    }
}


// === reachable children ===

/// `AZ::DynamicSerializableField`, whose `m_data` slot holds an object of
/// any registered class.
pub const DYNAMIC_SERIALIZABLE_FIELD_TYPE_ID: u128 = 0xD761E0C2_A098_497C_B8EB_EA62F5ED896B;

/// CRC of the `m_data` field name.
pub open spec fn spec_m_data_crc() -> u32 {
    crate::crc::spec_field_name_crc(seq!['m', '_', 'd', 'a', 't', 'a'])
}

impl ObjectStreamReadContext {
    /// A resolved child names a defined `ClassData`.
    pub open spec fn spec_child_class_defined(&self, child: ResolvedType) -> bool {
        child.class matches Some(k) && self.spec_class(k) is Some
    }

    /// Native `CanConvertFromType` check of one parent/child DOM edge.
    pub open spec fn spec_reachable_child(
        &self,
        parent: ReflectedClassKey,
        child_name_crc: Option<u32>,
        child_raw_type: AzUuid,
        child: ResolvedType,
        allow_data_conversion: bool,
    ) -> Result<(), crate::error::ObjectStreamError> {
        match self.spec_class(parent) {
            None => Err(crate::error::ObjectStreamError::UnresolvedClassData { class: parent }),
            Some(pc) => match child.type_id {
                None => Err(crate::error::ObjectStreamError::UnresolvedElementType { type_id: child_raw_type }),
                Some(child_type) => {
                    let unresolved = crate::error::ObjectStreamError::UnresolvedElementType { type_id: child_raw_type };
                    let any_class = if self.spec_child_class_defined(child) {
                        Ok(())
                    } else {
                        Err(unresolved)
                    };
                    if pc.type_id.bits == DYNAMIC_SERIALIZABLE_FIELD_TYPE_ID && child_name_crc == Some(spec_m_data_crc()) {
                        any_class
                    } else {
                        match spec_find_field(pc, child_name_crc) {
                            None => Err(crate::error::ObjectStreamError::UnexpectedReachableChild {
                                parent_type_id: pc.type_id,
                                child_type_id: child_raw_type,
                                name_crc: child_name_crc,
                            }),
                            Some(field) => if field.is_dynamic_field {
                                any_class
                            } else if self.spec_field_accepts(field, child_type) {
                                Ok(())
                            } else {
                                let target = self.spec_find_class_data(field.type_id, Some(parent), child_name_crc);
                                if allow_data_conversion && (target matches Some(t) && self.spec_has_data_converter(t)) {
                                    Ok(())
                                } else if allow_data_conversion && (target matches Some(t) && (self.spec_class(t) matches Some(tc) && tc.captured_data_converter)) {
                                    Err(crate::error::ObjectStreamError::UnsupportedDataConversion {
                                        target_type_id: field.type_id,
                                        source_type_id: child_type,
                                    })
                                } else {
                                    Err(crate::error::ObjectStreamError::UnexpectedReachableChild {
                                        parent_type_id: pc.type_id,
                                        child_type_id: child_type,
                                        name_crc: child_name_crc,
                                    })
                                }
                            },
                        }
                    }
                },
            },
        }
    }

    fn is_defined_class(&self, key: Option<ReflectedClassKey>) -> (r: bool)
        ensures
            r == (key matches Some(k) && self.spec_class(k) is Some),
    {
        match key {
            Some(k) => self.class(k).is_some(),
            None => false,
        }
    }

    pub(crate) fn has_data_converter(&self, key: ReflectedClassKey) -> (r: bool)
        ensures
            r == self.spec_has_data_converter(key),
    {
        key.0 < self.slots.len() as u64 && self.slots[key.0 as usize].has_data_converter
    }

    pub(crate) fn has_version_converter(&self, key: ReflectedClassKey) -> (r: bool)
        ensures
            r == self.spec_has_converter(key),
    {
        key.0 < self.slots.len() as u64 && self.slots[key.0 as usize].has_converter
    }

    fn validate_reachable_child_impl(
        &self,
        parent: ReflectedClassKey,
        child_name_crc: Option<u32>,
        child_raw_type: AzUuid,
        child: ResolvedType,
        allow_data_conversion: bool,
    ) -> (r: Result<(), crate::error::ObjectStreamError>)
        ensures
            r == self.spec_reachable_child(parent, child_name_crc, child_raw_type, child, allow_data_conversion),
    {
        let parent_class = match self.class(parent) {
            Some(c) => c,
            None => {
                return Err(crate::error::ObjectStreamError::UnresolvedClassData { class: parent });
            },
        };
        let child_type = match child.type_id {
            Some(t) => t,
            None => {
                return Err(crate::error::ObjectStreamError::UnresolvedElementType { type_id: child_raw_type });
            },
        };
        let m_data = crate::crc::field_name_crc("m_data");
        proof {
            reveal_strlit("m_data");
            assert("m_data"@ =~= seq!['m', '_', 'd', 'a', 't', 'a']);
        }
        let dynamic_slot = match child_name_crc {
            Some(crc) => crc == m_data,
            None => false,
        };
        if parent_class.type_id.bits == DYNAMIC_SERIALIZABLE_FIELD_TYPE_ID && dynamic_slot {
            return if self.is_defined_class(child.class) {
                Ok(())
            } else {
                Err(crate::error::ObjectStreamError::UnresolvedElementType { type_id: child_raw_type })
            };
        }
        let field = match parent_class.find_field(child_name_crc) {
            Some(f) => f,
            None => {
                return Err(crate::error::ObjectStreamError::UnexpectedReachableChild {
                    parent_type_id: parent_class.type_id,
                    child_type_id: child_raw_type,
                    name_crc: child_name_crc,
                });
            },
        };
        if field.is_dynamic_field {
            return if self.is_defined_class(child.class) {
                Ok(())
            } else {
                Err(crate::error::ObjectStreamError::UnresolvedElementType { type_id: child_raw_type })
            };
        }
        if self.field_accepts_type(field, child_type) {
            return Ok(());
        }
        let target = self.find_class_data(field.type_id, Some(parent), child_name_crc);
        if allow_data_conversion {
            if let Some(t) = target {
                if self.has_data_converter(t) {
                    return Ok(());
                }
                if let Some(tc) = self.class(t) {
                    if tc.captured_data_converter {
                        return Err(crate::error::ObjectStreamError::UnsupportedDataConversion {
                            target_type_id: field.type_id,
                            source_type_id: child_type,
                        });
                    }
                }
            }
        }
        Err(crate::error::ObjectStreamError::UnexpectedReachableChild {
            parent_type_id: parent_class.type_id,
            child_type_id: child_type,
            name_crc: child_name_crc,
        })
    }

    /// Validate a parent/child DOM edge, allowing a registered data converter
    /// to account for a type mismatch.
    pub fn validate_reachable_child(
        &self,
        parent: ReflectedClassKey,
        child_name_crc: Option<u32>,
        child_raw_type: AzUuid,
        child: ResolvedType,
    ) -> (r: Result<(), crate::error::ObjectStreamError>)
        ensures
            r == self.spec_reachable_child(parent, child_name_crc, child_raw_type, child, true),
    {
        self.validate_reachable_child_impl(parent, child_name_crc, child_raw_type, child, true)
    }

    /// Validate a DOM edge that must already be in its final converted form:
    /// the availability of a data converter does not count as having run it.
    pub fn validate_finalized_reachable_child(
        &self,
        parent: ReflectedClassKey,
        child_name_crc: Option<u32>,
        child_raw_type: AzUuid,
        child: ResolvedType,
    ) -> (r: Result<(), crate::error::ObjectStreamError>)
        ensures
            r == self.spec_reachable_child(parent, child_name_crc, child_raw_type, child, false),
    {
        self.validate_reachable_child_impl(parent, child_name_crc, child_raw_type, child, false)
    }
}

impl ObjectStreamReadContext {
    /// A reached child after its parent class' declared import rename.
    pub open spec fn spec_renamed(&self, parent: ReflectedClassKey, child: crate::tree::ElementView) -> crate::tree::ElementView {
        let renamed = match (self.spec_class(parent), child.name_crc) {
            (Some(pc), Some(crc)) => spec_rename(self.spec_renames(), pc.type_id, crc),
            _ => None,
        };
        match renamed {
            None => child,
            Some(to) => crate::tree::ElementView {
                name_crc: Some(to),
                field: match self.spec_names().spec_field_name(to) {
                    Some(n) => Some(n),
                    None => child.field,
                },
                ..child
            },
        }
    }

    /// The type-lookup input of a child element under `parent`.
    pub open spec fn spec_child_input(
        stream_version: u32,
        child: crate::tree::ElementView,
        parent: Option<ReflectedClassKey>,
    ) -> ResolveTypeInput {
        ResolveTypeInput {
            stream_version,
            raw_type_id: child.id,
            specialization_type_id: child.specialization,
            element_version: match child.version {
                Some(v) => v,
                None => 0,
            },
            name_crc: child.name_crc,
            parent,
        }
    }

    /// The identity attached to an element resolved to `type_id` / `class`.
    pub open spec fn spec_resolved_identity(
        &self,
        resolved: ResolvedType,
        type_id: AzUuid,
        class: ReflectedClassKey,
        parent: Option<ReflectedClassKey>,
        name_crc: Option<u32>,
    ) -> crate::tree::TypeResolution {
        crate::tree::TypeResolution::Resolved {
            type_id,
            class,
            edge: self.spec_resolved_edge(parent, name_crc),
            enum_type_id: self.spec_resolved_enum_type(parent, name_crc, type_id),
            builtin_serializer: resolved.builtin_serializer,
            is_container: resolved.is_container,
            container_shape: resolved.container_shape,
        }
    }

    /// Fate of a child no field binds, under the unmatched-child policy.
    pub open spec fn spec_unmatched(
        &self,
        parent_type_id: AzUuid,
        child_type_id: AzUuid,
        name_crc: Option<u32>,
    ) -> Result<ChildBinding, crate::error::ObjectStreamError> {
        match self.spec_unmatched_policy() {
            UnmatchedChildPolicy::NativeSkip => Ok(ChildBinding::Fate(ChildFate::Skip)),
            UnmatchedChildPolicy::Fail => Err(crate::error::ObjectStreamError::UnexpectedReachableChild {
                parent_type_id,
                child_type_id,
                name_crc,
            }),
        }
    }

    /// The field spelling the owning class registered for a child's slot.
    pub open spec fn spec_canonical_field(parent: ReflectedClass, child: crate::tree::ElementView) -> Option<Seq<char>> {
        match spec_find_field(parent, child.name_crc) {
            Some(f) => match f.name {
                Some(n) => Some(n@),
                None => child.field,
            },
            None => child.field,
        }
    }

    /// Native `ClassElement` binding of a resolved child of `source_type`.
    pub open spec fn spec_bind_outcome(
        &self,
        parent: ReflectedClassKey,
        pd: ReflectedClass,
        child: crate::tree::ElementView,
        source_type: AzUuid,
    ) -> Result<ChildBinding, crate::error::ObjectStreamError> {
        if pd.type_id.bits == DYNAMIC_SERIALIZABLE_FIELD_TYPE_ID && child.name_crc == Some(spec_m_data_crc()) {
            Ok(ChildBinding::Fate(ChildFate::Retain))
        } else {
            match spec_find_field(pd, child.name_crc) {
                None => self.spec_unmatched(pd.type_id, child.id, child.name_crc),
                Some(field) => if field.is_dynamic_field || self.spec_field_accepts(field, source_type) {
                    Ok(ChildBinding::Fate(ChildFate::Retain))
                } else {
                    match self.spec_find_class_data(field.type_id, Some(parent), child.name_crc) {
                        Some(t) if self.spec_class(t) is Some => if self.spec_has_data_converter(t) {
                            Ok(ChildBinding::ConvertData {
                                target_class: t,
                                source_type_id: source_type,
                                target_type_id: field.type_id,
                            })
                        } else if self.spec_class(t).unwrap().captured_data_converter {
                            Err(crate::error::ObjectStreamError::UnsupportedDataConversion {
                                target_type_id: field.type_id,
                                source_type_id: source_type,
                            })
                        } else {
                            self.spec_unmatched(pd.type_id, source_type, child.name_crc)
                        },
                        _ => self.spec_unmatched(pd.type_id, source_type, child.name_crc),
                    }
                },
            }
        }
    }

    /// Rewrite a reached child's name CRC onto the registered field spelling
    /// when an import rename is declared for its parent's class.  A second
    /// pass sees the already-renamed CRC and changes nothing.
    pub fn apply_import_field_rename(&self, parent: ReflectedClassKey, child: &mut crate::tree::Element)
        ensures
            final(child)@ == self.spec_renamed(parent, old(child)@),
    {
        let parent_type_id = match self.class(parent) {
            Some(pc) => pc.type_id,
            None => {
                return;
            },
        };
        let crc = match child.name_crc {
            Some(crc) => crc,
            None => {
                return;
            },
        };
        if let Some(renamed) = self.renamed_child_name_crc(parent_type_id, crc) {
            child.name_crc = Some(renamed);
            if let Some(name) = self.names.field_name(renamed) {
                child.field = Some(name.clone());
            }
        }
    }
}

impl ObjectStreamReadContext {
    fn unmatched_binding(
        &self,
        parent_type_id: AzUuid,
        child_type_id: AzUuid,
        name_crc: Option<u32>,
    ) -> (r: Result<ChildBinding, crate::error::ObjectStreamError>)
        ensures
            r == self.spec_unmatched(parent_type_id, child_type_id, name_crc),
    {
        match self.unmatched_child_policy {
            UnmatchedChildPolicy::NativeSkip => Ok(ChildBinding::Fate(ChildFate::Skip)),
            UnmatchedChildPolicy::Fail => Err(crate::error::ObjectStreamError::UnexpectedReachableChild {
                parent_type_id,
                child_type_id,
                name_crc,
            }),
        }
    }

    /// Bind a complete child subtree to its parent's `ClassElement`: apply
    /// the parent's import rename, resolve the child, adopt the field
    /// spelling the parent registered, and decide whether the child stays,
    /// is discarded under the default filter, or must first go through the
    /// registered data converter of its field's class.
    pub fn bind_reachable_child(
        &self,
        parent: ReflectedClassKey,
        child: &mut crate::tree::Element,
        stream_version: u32,
    ) -> (r: Result<ChildBinding, crate::error::ObjectStreamError>)
        ensures
            ({
                let c1 = self.spec_renamed(parent, old(child)@);
                let res = self.spec_resolve(Self::spec_child_input(stream_version, c1, Some(parent)));
                match (res.type_id, res.class) {
                    (Some(t), Some(k)) => {
                        let c2 = crate::tree::ElementView {
                            resolution: self.spec_resolved_identity(res, t, k, Some(parent), c1.name_crc),
                            ..c1
                        };
                        match self.spec_class(parent) {
                            None => final(child)@ == c2 && (r matches Err(
                                crate::error::ObjectStreamError::UnresolvedClassData { class },
                            ) && class == parent),
                            Some(pd) => final(child)@ == (crate::tree::ElementView {
                                field: Self::spec_canonical_field(pd, c1),
                                ..c2
                            }) && r == self.spec_bind_outcome(parent, pd, c1, t),
                        }
                    },
                    _ => final(child)@ == c1 && (r matches Err(crate::error::ObjectStreamError::UnresolvedElementType {
                        type_id,
                    }) && type_id == c1.id),
                }
            }),
    {
        self.apply_import_field_rename(parent, child);
        let ghost c1 = child@;
        let input = ResolveTypeInput {
            stream_version,
            raw_type_id: child.id,
            specialization_type_id: child.specialization,
            element_version: match child.version {
                Some(v) => v,
                None => 0,
            },
            name_crc: child.name_crc,
            parent: Some(parent),
        };
        let resolved = self.resolve_type(input);
        let (source_type_id, source_class) = match (resolved.type_id, resolved.class) {
            (Some(t), Some(k)) => (t, k),
            _ => {
                return Err(crate::error::ObjectStreamError::UnresolvedElementType { type_id: child.id });
            },
        };
        let identity = crate::tree::TypeResolution::Resolved {
            type_id: source_type_id,
            class: source_class,
            edge: self.resolved_edge(Some(parent), child.name_crc),
            enum_type_id: self.resolved_enum_type(Some(parent), child.name_crc, source_type_id),
            builtin_serializer: resolved.builtin_serializer,
            is_container: resolved.is_container,
            container_shape: resolved.container_shape,
        };
        child.resolution = crate::tree::Resolution::proved(identity);
        let pd = match self.class(parent) {
            Some(pd) => pd,
            None => {
                return Err(crate::error::ObjectStreamError::UnresolvedClassData { class: parent });
            },
        };
        let slot = pd.find_field(child.name_crc);
        if let Some(f) = slot {
            if let Some(n) = &f.name {
                child.field = Some(n.clone());
            }
        }
        let m_data = crate::crc::field_name_crc("m_data");
        proof {
            reveal_strlit("m_data");
            assert("m_data"@ =~= seq!['m', '_', 'd', 'a', 't', 'a']);
        }
        let dynamic_slot = match child.name_crc {
            Some(crc) => crc == m_data,
            None => false,
        };
        if pd.type_id.bits == DYNAMIC_SERIALIZABLE_FIELD_TYPE_ID && dynamic_slot {
            return Ok(ChildBinding::Fate(ChildFate::Retain));
        }
        let field = match slot {
            Some(f) => f,
            None => {
                return self.unmatched_binding(pd.type_id, child.id, child.name_crc);
            },
        };
        if field.is_dynamic_field || self.field_accepts_type(field, source_type_id) {
            return Ok(ChildBinding::Fate(ChildFate::Retain));
        }
        let target = match self.find_class_data(field.type_id, Some(parent), child.name_crc) {
            Some(t) => t,
            None => {
                return self.unmatched_binding(pd.type_id, source_type_id, child.name_crc);
            },
        };
        let target_class = match self.class(target) {
            Some(tc) => tc,
            None => {
                return self.unmatched_binding(pd.type_id, source_type_id, child.name_crc);
            },
        };
        if self.has_data_converter(target) {
            return Ok(ChildBinding::ConvertData {
                target_class: target,
                source_type_id,
                target_type_id: field.type_id,
            });
        }
        if target_class.captured_data_converter {
            return Err(crate::error::ObjectStreamError::UnsupportedDataConversion {
                target_type_id: field.type_id,
                source_type_id,
            });
        }
        self.unmatched_binding(pd.type_id, source_type_id, child.name_crc)
    }
}

// === laws ===

/// A UUID alone never proves that `ClassData` exists: whenever resolution
/// names a class, that class is defined in the context, and a semantic
/// type or serializer is reported only together with it.
pub proof fn lemma_resolution_names_defined_class(ctx: ObjectStreamReadContext, input: ResolveTypeInput)
    ensures
        ctx.spec_resolve(input).class matches Some(k) ==> ctx.spec_class(k) is Some,
        ctx.spec_resolve(input).type_id is Some <==> ctx.spec_resolve(input).class is Some,
        ctx.spec_resolve(input).builtin_serializer is Some ==> ctx.spec_resolve(input).class is Some,
{
}

/// An element whose wire type is a registered enum without `ClassData` of
/// its own (no `uuidMap` entry, no generic info, and no parent field whose
/// generic info stores it) resolves through the enum's underlying type: to
/// the underlying type's `ClassData`, under the enum's own type id.
pub proof fn lemma_enum_resolves_through_underlying(
    ctx: ObjectStreamReadContext,
    input: ResolveTypeInput,
    underlying: AzUuid,
    key: ReflectedClassKey,
)
    requires
        ctx.spec_direct_class(ctx.spec_candidate(input)) is None,
        ctx.spec_find_generic_info(ctx.spec_candidate(input)) is None,
        (match input.parent {
            Some(p) => match ctx.spec_class(p) {
                Some(pc) => match spec_find_field(pc, input.name_crc) {
                    Some(f) => match f.generic {
                        Some(g) => !spec_can_store(g@, ctx.spec_candidate(input)),
                        None => true,
                    },
                    None => true,
                },
                None => true,
            },
            None => true,
        }),
        ctx.spec_enum_underlying(ctx.spec_candidate(input)) == Some(underlying),
        ctx.spec_direct_class(underlying) == Some(key),
        ctx.spec_class(key) is Some,
    ensures
        ctx.spec_resolve(input).class == Some(key),
        ctx.spec_find_generic_info(ctx.spec_class(key)->0.type_id) is None ==> ctx.spec_resolve(input).type_id == Some(
            ctx.spec_candidate(input),
        ),
        input.stream_version != 2 ==> ctx.spec_candidate(input) == input.raw_type_id,
{
}

/// An edge accepted in its final converted form is also accepted when a
/// registered data converter may still run.
pub proof fn lemma_finalized_edge_is_reachable(
    ctx: ObjectStreamReadContext,
    parent: ReflectedClassKey,
    child_name_crc: Option<u32>,
    child_raw_type: AzUuid,
    child: ResolvedType,
)
    ensures
        ctx.spec_reachable_child(parent, child_name_crc, child_raw_type, child, false) is Ok ==> ctx.spec_reachable_child(
            parent,
            child_name_crc,
            child_raw_type,
            child,
            true,
        ) is Ok,
{
}

/// Import renames are idempotent: once a child carries the renamed CRC, a
/// second pass changes nothing, unless a further rename was declared for
/// the renamed CRC itself.
pub proof fn lemma_import_rename_idempotent(
    ctx: ObjectStreamReadContext,
    parent: ReflectedClassKey,
    child: crate::tree::ElementView,
)
    requires
        ({
            match (ctx.spec_class(parent), ctx.spec_renamed(parent, child).name_crc) {
                (Some(pc), Some(to)) => {
                    let further = spec_rename(ctx.spec_renames(), pc.type_id, to);
                    further is None || further == Some(to)
                },
                _ => true,
            }
        }),
    ensures
        ctx.spec_renamed(parent, ctx.spec_renamed(parent, child)) == ctx.spec_renamed(parent, child),
{
}

/// The slot a fresh reservation appends: no class yet, no serializer or
/// converter evidence.
pub open spec fn spec_reserved_slot() -> ClassSlot {
    ClassSlot { class: None, has_codec: false, builtin: None, has_converter: false, has_data_converter: false }
}

/// Two reservations in a row (`c0` to `c1` giving `k1`, `c1` to `c2`
/// giving `k2`, as `reserve_class_data` leaves them) give two distinct keys
/// that differ from every key reserved before, both undefined, and leave
/// the context incomplete until they are defined.
pub proof fn lemma_reservations_are_fresh(
    c0: ObjectStreamReadContext,
    c1: ObjectStreamReadContext,
    c2: ObjectStreamReadContext,
    k1: ReflectedClassKey,
    k2: ReflectedClassKey,
)
    requires
        k1.index() == c0.spec_class_count(),
        c1.spec_slots() == c0.spec_slots().push(spec_reserved_slot()),
        k2.index() == c1.spec_class_count(),
        c2.spec_slots() == c1.spec_slots().push(spec_reserved_slot()),
    ensures
        k1 != k2,
        forall|k: ReflectedClassKey| c0.spec_reserved(k) ==> k != k1 && k != k2,
        c2.spec_class(k1) is None,
        c2.spec_class(k2) is None,
        !c2.spec_complete(),
{
    assert(c2.spec_slots()[k2.index() as int].class is None);
}

/// A reserved `ClassData` key is defined exactly once: once a definition
/// took, the key stays reserved and holds that class, so a second
/// definition is refused as a duplicate.
pub proof fn lemma_class_data_defined_once(
    before: ObjectStreamReadContext,
    after: ObjectStreamReadContext,
    key: ReflectedClassKey,
    class: ReflectedClass,
)
    requires
        before.spec_reserved(key),
        before.spec_class(key) is None,
        after.spec_slots() == before.spec_slots().update(
            key.index() as int,
            ClassSlot { class: Some(class), ..before.spec_slots()[key.index() as int] },
        ),
    ensures
        after.spec_reserved(key),
        after.spec_class(key) == Some(class),
{
}

} // verus!
