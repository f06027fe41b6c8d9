//! The in-memory `ObjectStream` tree: elements with their wire header,
//! payload and children, and the context-derived semantic identity a read
//! context attaches to them.
use vstd::prelude::*;

use crate::az_uuid::AzUuid;
use crate::codec::BuiltinSerializerDescriptor;
use crate::context::{ContainerShape, ReflectedClassKey, ReflectedEdge, VersionConversionState};
use crate::stream::{
    ObjectStreamEncoding, PayloadEncoding, StreamTag, BINARY_STREAM_TAG, TypeResolutionState, ST_BINARYFLAG_EXTRA_SIZE_FIELD, ST_BINARYFLAG_HAS_NAME,
    ST_BINARYFLAG_HAS_VALUE, ST_BINARYFLAG_HAS_VERSION, ST_BINARY_VALUE_SIZE_MASK,
};

verus! {

/// Semantic identity proved by a read context.  Only the library attaches
/// it: a caller cannot manufacture `ClassData`, serializer or container
/// claims for an element.
#[derive(Clone, Copy, Debug, PartialEq, Eq, Structural)]
pub enum TypeResolution {
    /// Parsed for inspection without a reflection context.
    Raw,
    /// A context was supplied but native `ClassData` lookup failed.
    Unresolved,
    /// Native `ClassData` lookup succeeded and selected this identity.
    Resolved {
        type_id: AzUuid,
        class: ReflectedClassKey,
        edge: Option<ReflectedEdge>,
        enum_type_id: Option<AzUuid>,
        builtin_serializer: Option<BuiltinSerializerDescriptor>,
        is_container: bool,
        container_shape: Option<ContainerShape>,
    },
}

/// A semantic identity proved by a read context.  Only the library can
/// attach a resolved one: a caller cannot manufacture `ClassData`,
/// serializer or container claims for an element.
#[derive(Clone, Copy, Debug)]
pub struct Resolution(TypeResolution);

impl Resolution {
    pub closed spec fn spec_get(self) -> TypeResolution {
        self.0
    }

    /// The identity of an element parsed without a context.
    pub fn raw() -> (r: Resolution)
        ensures
            r.spec_get() == TypeResolution::Raw,
    {
        Resolution(TypeResolution::Raw)
    }

    pub(crate) fn proved(t: TypeResolution) -> (r: Resolution)
        ensures
            r.spec_get() == t,
    {
        Resolution(t)
    }

    pub fn get(&self) -> (r: TypeResolution)
        ensures
            r == self.spec_get(),
    {
        self.0
    }
}

/// One node in an `ObjectStream` tree.
#[derive(Debug)]
pub struct Element {
    pub flags: u8,
    pub name_crc: Option<u32>,
    pub version: Option<u32>,
    pub id: AzUuid,
    pub specialization: Option<AzUuid>,
    pub resolution: Resolution,
    pub version_state: VersionConversionState,
    pub name: String,
    pub data_size: Option<usize>,
    pub data: Option<Vec<u8>>,
    pub payload_encoding: PayloadEncoding,
    pub elements: Vec<Element>,
    pub field: Option<String>,
}

/// First index of a child carrying `name_crc`.
pub open spec fn spec_first_child(children: Seq<Element>, name_crc: u32) -> Option<int> {
    if exists|i: int| 0 <= i < children.len() && children[i].name_crc == Some(name_crc) {
        Some(
            choose|i: int|
                0 <= i < children.len() && children[i].name_crc == Some(name_crc) && forall|j: int|
                    0 <= j < i ==> children[j].name_crc != Some(name_crc),
        )
    } else {
        None
    }
}

proof fn lemma_first_child(children: Seq<Element>, name_crc: u32, i: int)
    requires
        0 <= i < children.len(),
        children[i].name_crc == Some(name_crc),
        forall|j: int| 0 <= j < i ==> children[j].name_crc != Some(name_crc),
    ensures
        spec_first_child(children, name_crc) == Some(i),
{
    let k = choose|k: int|
        0 <= k < children.len() && children[k].name_crc == Some(name_crc) && forall|j: int|
            0 <= j < k ==> children[j].name_crc != Some(name_crc);
    assert(k == i) by {
        if k < i {
            assert(children[k].name_crc != Some(name_crc));
        }
        if i < k {
            assert(children[i].name_crc != Some(name_crc));
        }
    }
}

/// Depth-first pre-order of a subtree, the root first.
pub open spec fn spec_preorder(e: Element) -> Seq<Element>
    decreases e,
{
    seq![e] + spec_preorder_list(e.elements@)
}

/// Depth-first pre-order of a list of subtrees.
pub open spec fn spec_preorder_list(list: Seq<Element>) -> Seq<Element>
    decreases list,
{
    if list.len() == 0 {
        Seq::empty()
    } else {
        spec_preorder_list(list.subrange(0, list.len() - 1)) + spec_preorder(list[list.len() - 1])
    }
}

/// The elements a sequence of references points at.
pub open spec fn spec_derefs(s: Seq<&Element>) -> Seq<Element> {
    s.map_values(|r: &Element| *r)
}

/// Append the pre-order of `e`'s subtree to `out`.
fn collect_preorder<'a>(e: &'a Element, out: &mut Vec<&'a Element>)
    ensures
        spec_derefs(final(out)@) == spec_derefs(old(out)@) + spec_preorder(*e),
    decreases e,
{
    let ghost start = spec_derefs(out@);
    out.push(e);
    assert(spec_derefs(out@) =~= start + seq![*e]);
    let mut i: usize = 0;
    while i < e.elements.len()
        invariant
            i <= e.elements@.len(),
            spec_derefs(out@) == start + seq![*e] + spec_preorder_list(e.elements@.subrange(0, i as int)),
        decreases e.elements.len() - i,
    {
        let child = &e.elements[i];
        assert(decreases_to!(e => e.elements));
        assert(decreases_to!(e.elements => e.elements@));
        assert(decreases_to!(e.elements@ => e.elements@[i as int]));
        let ghost before = spec_derefs(out@);
        collect_preorder(child, out);
        proof {
            let pre = e.elements@.subrange(0, i + 1);
            assert(pre.subrange(0, pre.len() - 1) =~= e.elements@.subrange(0, i as int));
            assert(pre[pre.len() - 1] == e.elements@[i as int]);
            assert(spec_derefs(out@) =~= start + seq![*e] + spec_preorder_list(pre));
        }
        i = i + 1;
    }
    assert(e.elements@.subrange(0, e.elements@.len() as int) =~= e.elements@);
}

/// The mathematical model of an element: its header, payload and children.
pub struct ElementView {
    pub flags: u8,
    pub name_crc: Option<u32>,
    pub version: Option<u32>,
    pub id: AzUuid,
    pub specialization: Option<AzUuid>,
    pub resolution: TypeResolution,
    pub version_state: VersionConversionState,
    pub name: Seq<char>,
    pub data_size: Option<usize>,
    pub data: Option<Seq<u8>>,
    pub payload_encoding: PayloadEncoding,
    pub elements: Seq<Element>,
    pub field: Option<Seq<char>>,
}

pub open spec fn spec_opt_bytes(d: Option<Vec<u8>>) -> Option<Seq<u8>> {
    match d {
        Some(v) => Some(v@),
        None => None,
    }
}

pub open spec fn spec_opt_text(d: Option<String>) -> Option<Seq<char>> {
    match d {
        Some(v) => Some(v@),
        None => None,
    }
}

impl View for Element {
    type V = ElementView;

    open spec fn view(&self) -> ElementView {
        ElementView {
            flags: self.flags,
            name_crc: self.name_crc,
            version: self.version,
            id: self.id,
            specialization: self.specialization,
            resolution: self.resolution.spec_get(),
            version_state: self.version_state,
            name: self.name@,
            data_size: self.data_size,
            data: spec_opt_bytes(self.data),
            payload_encoding: self.payload_encoding,
            elements: self.elements@,
            field: spec_opt_text(self.field),
        }
    }
}

/// An element of raw wire type `id` with every other header slot empty.
pub open spec fn spec_empty_element(id: AzUuid) -> ElementView {
    ElementView {
        flags: 0,
        name_crc: None,
        version: None,
        id,
        specialization: None,
        resolution: TypeResolution::Raw,
        version_state: VersionConversionState::Current,
        name: Seq::empty(),
        data_size: None,
        data: None,
        payload_encoding: PayloadEncoding::BinaryBigEndian,
        elements: Seq::empty(),
        field: None,
    }
}

impl Element {
    /// An element of raw wire type `id` with every other header slot empty.
    pub fn new(id: AzUuid) -> (r: Self)
        ensures
            r@ == spec_empty_element(id),
    {
        Element {
            flags: 0,
            name_crc: None,
            version: None,
            id,
            specialization: None,
            resolution: Resolution::raw(),
            version_state: VersionConversionState::Current,
            name: String::new(),
            data_size: None,
            data: None,
            payload_encoding: PayloadEncoding::BinaryBigEndian,
            elements: Vec::new(),
            field: None,
        }
    }

    /// Set the exact serialized header flags.
    pub fn with_wire_flags(self, flags: u8) -> (r: Self)
        ensures
            r@ == (ElementView { flags, ..self@ }),
    {
        let mut s = self;
        s.flags = flags;
        s
    }

    /// Set the serialized field-name CRC.
    pub fn with_name_crc(self, name_crc: u32) -> (r: Self)
        ensures
            r@ == (ElementView { name_crc: Some(name_crc), ..self@ }),
    {
        let mut s = self;
        s.name_crc = Some(name_crc);
        s
    }

    /// Set the serialized element version.
    pub fn with_version(self, version: u32) -> (r: Self)
        ensures
            r@ == (ElementView { version: Some(version), ..self@ }),
    {
        let mut s = self;
        s.version = Some(version);
        s
    }

    /// Set the serialized specialization UUID.
    pub fn with_specialization(self, specialization: AzUuid) -> (r: Self)
        ensures
            r@ == (ElementView { specialization: Some(specialization), ..self@ }),
    {
        let mut s = self;
        s.specialization = Some(specialization);
        s
    }

    /// Set the payload size an extra-size header field encodes.
    pub fn with_declared_data_size(self, data_size: usize) -> (r: Self)
        ensures
            r@ == (ElementView { data_size: Some(data_size), ..self@ }),
    {
        let mut s = self;
        s.data_size = Some(data_size);
        s
    }

    /// Set the retained representation of the payload.
    pub fn with_payload_encoding(self, encoding: PayloadEncoding) -> (r: Self)
        ensures
            r@ == (ElementView { payload_encoding: encoding, ..self@ }),
    {
        let mut s = self;
        s.payload_encoding = encoding;
        s
    }

    /// Set the reflected field (slot) name.
    pub fn with_field(self, field: String) -> (r: Self)
        ensures
            r@ == (ElementView { field: Some(field@), ..self@ }),
    {
        let mut s = self;
        s.field = Some(field);
        s
    }

    /// Set the display / type name.
    pub fn with_name(self, name: String) -> (r: Self)
        ensures
            r@ == (ElementView { name: name@, ..self@ }),
    {
        let mut s = self;
        s.name = name;
        s
    }

    /// Set the payload bytes.
    pub fn with_data(self, data: Vec<u8>) -> (r: Self)
        ensures
            r@ == (ElementView { data: Some(data@), ..self@ }),
    {
        let mut s = self;
        s.data = Some(data);
        s
    }

    /// Replace the children.
    pub fn with_children(self, children: Vec<Element>) -> (r: Self)
        ensures
            r@ == (ElementView { elements: children@, ..self@ }),
    {
        let mut s = self;
        s.elements = children;
        s
    }
}

impl Default for Element {
    fn default() -> (r: Self)
        ensures
            r@ == spec_empty_element(AzUuid { bits: 0 }),
    {
        Element::new(AzUuid::nil())
    }
}

impl Element {
    /// Unmodified UUID from the serialized header.  Carries no reflection
    /// proof: typed dispatch uses `resolved_type_id`.
    pub fn raw_type_id(&self) -> (r: &AzUuid)
        ensures
            *r == self.id,
    {
        &self.id
    }

    /// Same as `raw_type_id` (the wire identity).
    pub fn id(&self) -> (r: &AzUuid)
        ensures
            *r == self.id,
    {
        self.raw_type_id()
    }

    /// Semantic type selected by `ClassData` lookup.
    pub fn resolved_type_id(&self) -> (r: Option<AzUuid>)
        ensures
            r == (match self.resolution.spec_get() {
                TypeResolution::Resolved { type_id, .. } => Some(type_id),
                _ => None,
            }),
    {
        match self.resolution.get() {
            TypeResolution::Resolved { type_id, .. } => Some(type_id),
            _ => None,
        }
    }

    pub fn resolved_class(&self) -> (r: Option<ReflectedClassKey>)
        ensures
            r == (match self.resolution.spec_get() {
                TypeResolution::Resolved { class, .. } => Some(class),
                _ => None,
            }),
    {
        match self.resolution.get() {
            TypeResolution::Resolved { class, .. } => Some(class),
            _ => None,
        }
    }

    /// Captured enum identity when the value is stored through a reflected
    /// enum-to-underlying mapping.
    pub fn reflected_enum_type_id(&self) -> (r: Option<AzUuid>)
        ensures
            r == (match self.resolution.spec_get() {
                TypeResolution::Resolved { enum_type_id, .. } => enum_type_id,
                _ => None,
            }),
    {
        match self.resolution.get() {
            TypeResolution::Resolved { enum_type_id, .. } => enum_type_id,
            _ => None,
        }
    }

    /// Asset class carried by the reflected parent field's `Asset<T>` type.
    pub fn reflected_asset_type_id(&self) -> (r: Option<AzUuid>)
        ensures
            r == (match self.resolution.spec_get() {
                TypeResolution::Resolved { edge: Some(e), .. } => e.asset_type_id,
                _ => None,
            }),
    {
        match self.resolution.get() {
            TypeResolution::Resolved { edge: Some(e), .. } => e.asset_type_id,
            _ => None,
        }
    }

    pub fn builtin_serializer(&self) -> (r: Option<BuiltinSerializerDescriptor>)
        ensures
            r == (match self.resolution.spec_get() {
                TypeResolution::Resolved { builtin_serializer, .. } => builtin_serializer,
                _ => None,
            }),
    {
        match self.resolution.get() {
            TypeResolution::Resolved { builtin_serializer, .. } => builtin_serializer,
            _ => None,
        }
    }

    pub fn is_resolved_container(&self) -> (r: bool)
        ensures
            r == (self.resolution.spec_get() matches TypeResolution::Resolved { is_container, .. } && is_container),
    {
        match self.resolution.get() {
            TypeResolution::Resolved { is_container, .. } => is_container,
            _ => false,
        }
    }

    pub fn container_shape(&self) -> (r: Option<ContainerShape>)
        ensures
            r == (match self.resolution.spec_get() {
                TypeResolution::Resolved { container_shape, .. } => container_shape,
                _ => None,
            }),
    {
        match self.resolution.get() {
            TypeResolution::Resolved { container_shape, .. } => container_shape,
            _ => None,
        }
    }

    /// Reached through a captured base-class field of its parent.
    pub fn is_base_class_edge(&self) -> (r: bool)
        ensures
            r == (self.resolution.spec_get() matches TypeResolution::Resolved { edge: Some(e), .. } && e.is_base_class),
    {
        match self.resolution.get() {
            TypeResolution::Resolved { edge: Some(e), .. } => e.is_base_class,
            _ => false,
        }
    }

    /// Reached through a captured pointer field of its parent.
    pub fn is_pointer_edge(&self) -> (r: bool)
        ensures
            r == (self.resolution.spec_get() matches TypeResolution::Resolved { edge: Some(e), .. } && e.is_pointer),
    {
        match self.resolution.get() {
            TypeResolution::Resolved { edge: Some(e), .. } => e.is_pointer,
            _ => false,
        }
    }

    /// Reached through a captured dynamic field of its parent.
    pub fn is_dynamic_field_edge(&self) -> (r: bool)
        ensures
            r == (self.resolution.spec_get() matches TypeResolution::Resolved { edge: Some(e), .. } && e.is_dynamic_field),
    {
        match self.resolution.get() {
            TypeResolution::Resolved { edge: Some(e), .. } => e.is_dynamic_field,
            _ => false,
        }
    }

    pub fn type_resolution(&self) -> (r: TypeResolutionState)
        ensures
            r == (match self.resolution.spec_get() {
                TypeResolution::Raw => TypeResolutionState::Raw,
                TypeResolution::Unresolved => TypeResolutionState::Unresolved,
                TypeResolution::Resolved { .. } => TypeResolutionState::Resolved,
            }),
    {
        match self.resolution.get() {
            TypeResolution::Raw => TypeResolutionState::Raw,
            TypeResolution::Unresolved => TypeResolutionState::Unresolved,
            TypeResolution::Resolved { .. } => TypeResolutionState::Resolved,
        }
    }

    /// Display / type name.
    pub fn name(&self) -> (r: &String)
        ensures
            r@ == self.name@,
    {
        &self.name
    }

    /// Reflected field (slot) name, if known.
    pub fn field(&self) -> (r: Option<&String>)
        ensures
            spec_opt_text(self.field) == (match r {
                Some(f) => Some(f@),
                None => None::<Seq<char>>,
            }),
    {
        match &self.field {
            Some(f) => Some(f),
            None => None,
        }
    }

    pub fn name_crc(&self) -> (r: Option<u32>)
        ensures
            r == self.name_crc,
    {
        self.name_crc
    }

    pub fn version(&self) -> (r: Option<u32>)
        ensures
            r == self.version,
    {
        self.version
    }

    pub fn specialization(&self) -> (r: Option<AzUuid>)
        ensures
            r == self.specialization,
    {
        self.specialization
    }

    /// Raw payload bytes, if any.
    pub fn data(&self) -> (r: Option<&[u8]>)
        ensures
            spec_opt_bytes(self.data) == (match r {
                Some(d) => Some(d@),
                None => None::<Seq<u8>>,
            }),
    {
        match &self.data {
            Some(d) => Some(d.as_slice()),
            None => None,
        }
    }

    pub fn payload_encoding(&self) -> (r: PayloadEncoding)
        ensures
            r == self.payload_encoding,
    {
        self.payload_encoding
    }

    /// Direct children.
    pub fn children(&self) -> (r: &[Element])
        ensures
            r@ == self.elements@,
    {
        self.elements.as_slice()
    }

    /// No child elements.
    pub fn is_leaf(&self) -> (r: bool)
        ensures
            r == (self.elements@.len() == 0),
    {
        self.elements.len() == 0
    }

    /// The has-name header bit is set.
    pub fn has_name(&self) -> (r: bool)
        ensures
            r == (self.flags & ST_BINARYFLAG_HAS_NAME != 0),
    {
        self.flags & ST_BINARYFLAG_HAS_NAME != 0
    }

    /// The has-value header bit is set.
    pub fn has_value(&self) -> (r: bool)
        ensures
            r == (self.flags & ST_BINARYFLAG_HAS_VALUE != 0),
    {
        self.flags & ST_BINARYFLAG_HAS_VALUE != 0
    }

    /// The has-version header bit is set.
    pub fn has_version(&self) -> (r: bool)
        ensures
            r == (self.flags & ST_BINARYFLAG_HAS_VERSION != 0),
    {
        self.flags & ST_BINARYFLAG_HAS_VERSION != 0
    }

    /// The extra-size-field header bit is set.
    pub fn has_extra_size_field(&self) -> (r: bool)
        ensures
            r == (self.flags & ST_BINARYFLAG_EXTRA_SIZE_FIELD != 0),
    {
        self.flags & ST_BINARYFLAG_EXTRA_SIZE_FIELD != 0
    }

    /// Encoded value-byte width: the low three bits of the flags.
    pub fn value_width(&self) -> (r: u8)
        ensures
            r == self.flags & ST_BINARY_VALUE_SIZE_MASK,
            r < 8,
    {
        let f = self.flags;
        let r = f & ST_BINARY_VALUE_SIZE_MASK;
        assert(f & 7u8 < 8) by (bit_vector);
        r
    }

    /// Index of the first direct child whose name CRC is `name_crc`.
    pub fn child_index_by_name_crc(&self, name_crc: u32) -> (r: Option<usize>)
        ensures
            r matches Some(i) ==> i < self.elements@.len(),
            match r {
                Some(i) => spec_first_child(self.elements@, name_crc) == Some(i as int),
                None => spec_first_child(self.elements@, name_crc) is None,
            },
    {
        let mut i: usize = 0;
        while i < self.elements.len()
            invariant
                i <= self.elements@.len(),
                forall|j: int| 0 <= j < i ==> self.elements@[j].name_crc != Some(name_crc),
            decreases self.elements.len() - i,
        {
            if self.elements[i].name_crc == Some(name_crc) {
                proof {
                    lemma_first_child(self.elements@, name_crc, i as int);
                }
                return Some(i);
            }
            i = i + 1;
        }
        None
    }

    /// First direct child whose serialized name CRC is `name_crc` (the key
    /// native `DataElementNode::FindElement` uses).
    pub fn child_by_name_crc(&self, name_crc: u32) -> (r: Option<&Element>)
        ensures
            match spec_first_child(self.elements@, name_crc) {
                Some(i) => r matches Some(c) && *c == self.elements@[i],
                None => r is None,
            },
    {
        match self.child_index_by_name_crc(name_crc) {
            Some(i) => Some(&self.elements[i]),
            None => None,
        }
    }

    /// Mutable access to the first direct child whose name CRC is
    /// `name_crc`.
    pub fn child_by_name_crc_mut(&mut self, name_crc: u32) -> (r: Option<&mut Element>)
        ensures
            match spec_first_child(old(self).elements@, name_crc) {
                Some(i) => r matches Some(c) && *c == old(self).elements@[i] && final(self)@ == (ElementView {
                    elements: old(self).elements@.update(i, *final(c)),
                    ..old(self)@
                }),
                None => r is None && final(self)@ == old(self)@,
            },
    {
        match self.child_index_by_name_crc(name_crc) {
            Some(i) => Some(&mut self.elements[i]),
            None => None,
        }
    }

    /// Remove and return the first direct child whose name CRC is
    /// `name_crc` (native `DataElementNode::RemoveElementByName`); absent,
    /// nothing changes.
    pub fn remove_child_by_name_crc(&mut self, name_crc: u32) -> (r: Option<Element>)
        ensures
            match spec_first_child(old(self).elements@, name_crc) {
                Some(i) => r matches Some(c) && c == old(self).elements@[i]
                    && final(self)@ == (ElementView { elements: old(self).elements@.remove(i), ..old(self)@ }),
                None => r is None && final(self)@ == old(self)@,
            },
    {
        match self.child_index_by_name_crc(name_crc) {
            Some(i) => Some(self.elements.remove(i)),
            None => None,
        }
    }
}

impl Element {
    /// Every element of this subtree, depth-first pre-order, `self` first.
    pub fn preorder(&self) -> (r: Vec<&Element>)
        ensures
            spec_derefs(r@) == spec_preorder(*self),
    {
        let mut out: Vec<&Element> = Vec::new();
        assert(spec_derefs(out@) =~= Seq::<Element>::empty());
        collect_preorder(self, &mut out);
        assert(spec_derefs(out@) =~= spec_preorder(*self));
        out
    }
}

/// The pre-order of a prefix of a list is a prefix of the list's pre-order.
proof fn lemma_preorder_list_prefix(list: Seq<Element>, k: int)
    requires
        0 <= k <= list.len(),
    ensures
        spec_preorder_list(list.subrange(0, k)).len() <= spec_preorder_list(list).len(),
        spec_preorder_list(list) == spec_preorder_list(list.subrange(0, k)) + spec_preorder_list(list).subrange(
            spec_preorder_list(list.subrange(0, k)).len() as int,
            spec_preorder_list(list).len() as int,
        ),
    decreases list.len() - k,
{
    if k == list.len() {
        assert(list.subrange(0, k) =~= list);
    } else {
        let init = list.subrange(0, list.len() - 1);
        assert(list.subrange(0, k) =~= init.subrange(0, k));
        lemma_preorder_list_prefix(init, k);
    }
}

/// Every element of `pre` answered `false` to `query`.
pub open spec fn spec_all_rejected<F: Fn(&Element) -> bool>(query: F, pre: Seq<Element>) -> bool {
    forall|j: int| 0 <= j < pre.len() ==> query.ensures((&pre[j],), false)
}

/// `x` is the first element of `pre` that answered `true`, every earlier one
/// having answered `false`.
pub open spec fn spec_first_accepted<F: Fn(&Element) -> bool>(query: F, pre: Seq<Element>, x: Element) -> bool {
    exists|i: int|
        0 <= i < pre.len() && pre[i] == x && query.ensures((&pre[i],), true) && spec_all_rejected(
            query,
            pre.subrange(0, i),
        )
}

impl Element {
    /// Depth-first search of this subtree (pre-order, `self` first) for the
    /// first element `query` accepts.
    pub fn find<F: Fn(&Element) -> bool>(&self, query: &F) -> (r: Option<&Element>)
        requires
            forall|e: &Element| query.requires((e,)),
        ensures
            match r {
                Some(x) => spec_first_accepted(*query, spec_preorder(*self), *x),
                None => spec_all_rejected(*query, spec_preorder(*self)),
            },
        decreases self,
    {
        let ghost pre = spec_preorder(*self);
        if query(self) {
            proof {
                assert(pre[0] == *self);
                assert(pre.subrange(0, 0) =~= Seq::<Element>::empty());
            }
            return Some(self);
        }
        let mut i: usize = 0;
        while i < self.elements.len()
            invariant
                i <= self.elements@.len(),
                forall|e: &Element| query.requires((e,)),
                pre == spec_preorder(*self),
                spec_all_rejected(*query, seq![*self] + spec_preorder_list(self.elements@.subrange(0, i as int))),
            decreases self.elements.len() - i,
        {
            let ghost done = seq![*self] + spec_preorder_list(self.elements@.subrange(0, i as int));
            proof {
                lemma_preorder_list_prefix(self.elements@, i + 1);
                let pre_next = self.elements@.subrange(0, i + 1);
                assert(pre_next.subrange(0, pre_next.len() - 1) =~= self.elements@.subrange(0, i as int));
                assert(pre_next[pre_next.len() - 1] == self.elements@[i as int]);
            }
            assert(decreases_to!(self => self.elements));
            assert(decreases_to!(self.elements => self.elements@));
            assert(decreases_to!(self.elements@ => self.elements@[i as int]));
            match self.elements[i].find(query) {
                Some(x) => {
                    proof {
                        let child = self.elements@[i as int];
                        let cp = spec_preorder(child);
                        let k = choose|k: int|
                            0 <= k < cp.len() && cp[k] == *x && query.ensures((&cp[k],), true) && spec_all_rejected(
                                *query,
                                cp.subrange(0, k),
                            );
                        let idx = done.len() + k;
                        let head = done + cp;
                        assert(pre =~= head + pre.subrange(head.len() as int, pre.len() as int));
                        assert(pre[idx] == cp[k]);
                        assert forall|j: int| 0 <= j < idx implies query.ensures((&pre.subrange(0, idx)[j],), false) by {
                            if j < done.len() {
                                assert(pre[j] == done[j]);
                            } else {
                                assert(pre[j] == cp[j - done.len()]);
                                assert(cp.subrange(0, k)[j - done.len()] == cp[j - done.len()]);
                            }
                        }
                    }
                    return Some(x);
                },
                None => {
                    proof {
                        let child = self.elements@[i as int];
                        let next = done + spec_preorder(child);
                        assert(next =~= seq![*self] + spec_preorder_list(self.elements@.subrange(0, i + 1)));
                        assert forall|j: int| 0 <= j < next.len() implies query.ensures((&next[j],), false) by {
                            if j >= done.len() {
                                assert(next[j] == spec_preorder(child)[j - done.len()]);
                            }
                        }
                    }
                },
            }
            i = i + 1;
        }
        proof {
            assert(self.elements@.subrange(0, self.elements@.len() as int) =~= self.elements@);
            assert(pre =~= seq![*self] + spec_preorder_list(self.elements@));
        }
        None
    }
}

/// An in-memory `ObjectStream`: its tag, version and root elements.
#[derive(Debug)]
pub struct ObjectStream {
    pub tag: StreamTag,
    pub version: u32,
    pub elements: Vec<Element>,
    /// Subtrees a context-aware read discarded (a diagnostic count, not part
    /// of the wire form).
    pub skipped_children: usize,
}

impl Default for ObjectStream {
    fn default() -> (r: Self)
        ensures
            r.tag == StreamTag(BINARY_STREAM_TAG),
            r.version == 0,
            r.elements@.len() == 0,
            r.skipped_children == 0,
    {
        ObjectStream::new(0)
    }
}

impl ObjectStream {
    /// An empty binary stream at `version`.
    pub fn new(version: u32) -> (r: Self)
        ensures
            r.tag == StreamTag(BINARY_STREAM_TAG),
            r.version == version,
            r.elements@.len() == 0,
            r.skipped_children == 0,
    {
        ObjectStream { tag: StreamTag::binary(), version, elements: Vec::new(), skipped_children: 0 }
    }

    pub fn version(&self) -> (r: u32)
        ensures
            r == self.version,
    {
        self.version
    }

    pub fn tag(&self) -> (r: StreamTag)
        ensures
            r == self.tag,
    {
        self.tag
    }

    /// Encoding the tag names; a hand-assembled stream with an unknown tag
    /// byte is an error.
    pub fn encoding(&self) -> (r: Result<ObjectStreamEncoding, crate::error::ObjectStreamError>)
        ensures
            match ObjectStreamEncoding::spec_from_tag_byte(self.tag.0) {
                Some(e) => r == Ok::<ObjectStreamEncoding, crate::error::ObjectStreamError>(e),
                None => (r matches Err(crate::error::ObjectStreamError::InvalidStreamTag(t)) && t == self.tag.0),
            },
    {
        match ObjectStreamEncoding::from_tag(self.tag) {
            Some(e) => Ok(e),
            None => Err(crate::error::ObjectStreamError::InvalidStreamTag(self.tag.0)),
        }
    }

    /// Root elements (non-recursive).
    pub fn elements(&self) -> (r: &[Element])
        ensures
            r@ == self.elements@,
    {
        self.elements.as_slice()
    }

    /// Every element of the tree, depth-first pre-order.
    pub fn preorder(&self) -> (r: Vec<&Element>)
        ensures
            spec_derefs(r@) == spec_preorder_list(self.elements@),
    {
        let mut out: Vec<&Element> = Vec::new();
        let mut i: usize = 0;
        assert(spec_derefs(out@) =~= Seq::<Element>::empty());
        assert(self.elements@.subrange(0, 0) =~= Seq::<Element>::empty());
        while i < self.elements.len()
            invariant
                i <= self.elements@.len(),
                spec_derefs(out@) == spec_preorder_list(self.elements@.subrange(0, i as int)),
            decreases self.elements.len() - i,
        {
            collect_preorder(&self.elements[i], &mut out);
            proof {
                let pre = self.elements@.subrange(0, i + 1);
                assert(pre.subrange(0, pre.len() - 1) =~= self.elements@.subrange(0, i as int));
                assert(pre[pre.len() - 1] == self.elements@[i as int]);
            }
            i = i + 1;
        }
        assert(self.elements@.subrange(0, self.elements@.len() as int) =~= self.elements@);
        out
    }
}

impl ObjectStream {
    /// Depth-first search of the whole tree (pre-order) for the first
    /// element `query` accepts.
    pub fn find<F: Fn(&Element) -> bool>(&self, query: F) -> (r: Option<&Element>)
        requires
            forall|e: &Element| query.requires((e,)),
        ensures
            match r {
                Some(x) => spec_first_accepted(query, spec_preorder_list(self.elements@), *x),
                None => spec_all_rejected(query, spec_preorder_list(self.elements@)),
            },
    {
        let ghost pre = spec_preorder_list(self.elements@);
        let mut i: usize = 0;
        assert(self.elements@.subrange(0, 0) =~= Seq::<Element>::empty());
        while i < self.elements.len()
            invariant
                i <= self.elements@.len(),
                forall|e: &Element| query.requires((e,)),
                pre == spec_preorder_list(self.elements@),
                spec_all_rejected(query, spec_preorder_list(self.elements@.subrange(0, i as int))),
            decreases self.elements.len() - i,
        {
            let ghost done = spec_preorder_list(self.elements@.subrange(0, i as int));
            proof {
                lemma_preorder_list_prefix(self.elements@, i + 1);
                let pre_next = self.elements@.subrange(0, i + 1);
                assert(pre_next.subrange(0, pre_next.len() - 1) =~= self.elements@.subrange(0, i as int));
                assert(pre_next[pre_next.len() - 1] == self.elements@[i as int]);
            }
            match self.elements[i].find(&query) {
                Some(x) => {
                    proof {
                        let cp = spec_preorder(self.elements@[i as int]);
                        let k = choose|k: int|
                            0 <= k < cp.len() && cp[k] == *x && query.ensures((&cp[k],), true) && spec_all_rejected(
                                query,
                                cp.subrange(0, k),
                            );
                        let idx = done.len() + k;
                        let head = done + cp;
                        assert(pre =~= head + pre.subrange(head.len() as int, pre.len() as int));
                        assert(pre[idx] == cp[k]);
                        assert forall|j: int| 0 <= j < idx implies query.ensures((&pre.subrange(0, idx)[j],), false) by {
                            if j < done.len() {
                                assert(pre[j] == done[j]);
                            } else {
                                assert(pre[j] == cp[j - done.len()]);
                                assert(cp.subrange(0, k)[j - done.len()] == cp[j - done.len()]);
                            }
                        }
                    }
                    return Some(x);
                },
                None => {
                    proof {
                        let next = done + spec_preorder(self.elements@[i as int]);
                        assert(next =~= spec_preorder_list(self.elements@.subrange(0, i + 1)));
                        assert forall|j: int| 0 <= j < next.len() implies query.ensures((&next[j],), false) by {
                            if j >= done.len() {
                                assert(next[j] == spec_preorder(self.elements@[i as int])[j - done.len()]);
                            }
                        }
                    }
                },
            }
            i = i + 1;
        }
        proof {
            assert(self.elements@.subrange(0, self.elements@.len() as int) =~= self.elements@);
        }
        None
    }
}

} // verus!
