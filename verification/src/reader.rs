//! Decisions of the binary `ObjectStream` reader.  The reader keeps a stack
//! of open elements: each element header opens one (its payload bytes are
//! read by the caller and attached), each end-of-list marker closes the
//! innermost one and attaches it to its parent, or to the stream's roots.
use vstd::prelude::*;

use crate::az_uuid::AzUuid;
use crate::context::{
    ChildBinding, ChildFate, ElementFate, ObjectStreamReadContext, ReflectedClassKey, ResolveTypeInput, ResolvedType,
    VersionConversionState,
};
use crate::convert::ObjectStreamConverters;
use crate::error::ObjectStreamError;
use crate::lookup::LumberyardHashes;
use crate::stream::PayloadEncoding;
use crate::tree::{Element, ObjectStream, Resolution, TypeResolution};

verus! {

/// One binary element header as read from the wire, with the names the
/// lookup tables gave its type and field.
#[derive(Debug)]
pub struct BinaryElementHeader {
    pub flags: u8,
    pub name_crc: Option<u32>,
    pub version: Option<u32>,
    pub id: AzUuid,
    pub specialization: Option<AzUuid>,
    pub data_size: Option<usize>,
    pub name: Option<String>,
    pub field: Option<String>,
}

/// An element whose child list is still open.
#[derive(Debug)]
pub struct PendingElement {
    pub element: Element,
    /// The `ClassData` the element resolved to.
    pub class: Option<ReflectedClassKey>,
    /// Some ancestor still needs a DOM version converter, which will
    /// revalidate this subtree once it has run.
    pub has_converting_ancestor: bool,
    /// The subtree is read but dropped.
    pub discard_subtree: bool,
}

/// Which end-of-list marker `close_binary_element` consumed.
#[derive(Clone, Copy, Debug, PartialEq, Eq, Structural)]
pub enum BinaryListEnd {
    /// A child list closed; the element was attached or discarded.
    Element,
    /// No element was open: this was the root terminator.
    RootTerminator,
}

/// The identity a read attaches to an element: none without a context,
/// the resolved class when one was found unambiguously, else unresolved.
pub open spec fn spec_resolution_state(
    context: Option<ObjectStreamReadContext>,
    resolved: Option<ResolvedType>,
    parent: Option<ReflectedClassKey>,
    name_crc: Option<u32>,
) -> TypeResolution {
    match context {
        None => TypeResolution::Raw,
        Some(ctx) => match resolved {
            Some(r) => match (r.type_id, r.class) {
                (Some(t), Some(k)) => if !r.ambiguous_generic {
                    ctx.spec_resolved_identity(r, t, k, parent, name_crc)
                } else {
                    TypeResolution::Unresolved
                },
                _ => TypeResolution::Unresolved,
            },
            None => TypeResolution::Unresolved,
        },
    }
}

pub fn resolution_state(
    context: Option<&ObjectStreamReadContext>,
    resolved: Option<ResolvedType>,
    parent: Option<ReflectedClassKey>,
    name_crc: Option<u32>,
) -> (r: TypeResolution)
    ensures
        r == spec_resolution_state(
            match context {
                Some(c) => Some(*c),
                None => None,
            },
            resolved,
            parent,
            name_crc,
        ),
{
    let ctx = match context {
        Some(c) => c,
        None => {
            return TypeResolution::Raw;
        },
    };
    let r = match resolved {
        Some(r) => r,
        None => {
            return TypeResolution::Unresolved;
        },
    };
    match (r.type_id, r.class) {
        (Some(type_id), Some(class)) => if !r.ambiguous_generic {
            TypeResolution::Resolved {
                type_id,
                class,
                edge: ctx.resolved_edge(parent, name_crc),
                enum_type_id: ctx.resolved_enum_type(parent, name_crc, type_id),
                builtin_serializer: r.builtin_serializer,
                is_container: r.is_container,
                container_shape: r.container_shape,
            }
        } else {
            TypeResolution::Unresolved
        },
        _ => TypeResolution::Unresolved,
    }
}

/// The type-lookup input of a binary header under `parent`.
pub open spec fn spec_header_input(
    version: u32,
    header: BinaryElementHeader,
    parent: Option<ReflectedClassKey>,
) -> ResolveTypeInput {
    ResolveTypeInput {
        stream_version: version,
        raw_type_id: header.id,
        specialization_type_id: header.specialization,
        element_version: match header.version {
            Some(v) => v,
            None => 0,
        },
        name_crc: header.name_crc,
        parent,
    }
}

impl PendingElement {
    /// Attach the payload bytes read after the header.
    pub fn with_payload(self, data: Vec<u8>) -> (r: PendingElement)
        ensures
            r.element@ == (crate::tree::ElementView { data: Some(data@), ..self.element@ }),
            r.class == self.class,
            r.has_converting_ancestor == self.has_converting_ancestor,
            r.discard_subtree == self.discard_subtree,
    {
        let mut p = self;
        p.element.data = Some(data);
        p
    }
}

/// What opening `header` without a read context gives: an element that
/// carries the header's type, specialization, version, field and field CRC,
/// raw, current, and with no children yet.
pub open spec fn spec_raw_opened(header: BinaryElementHeader, p: PendingElement) -> bool {
    &&& p.element.id == header.id
    &&& p.element.specialization == header.specialization
    &&& p.element.version == header.version
    &&& p.element.name_crc == header.name_crc
    &&& crate::tree::spec_opt_text(p.element.field) == crate::tree::spec_opt_text(header.field)
    &&& p.element.resolution.spec_get() == TypeResolution::Raw
    &&& p.element.version_state == VersionConversionState::Current
    &&& p.element.elements@.len() == 0
    &&& p.element.data is None
    &&& p.element.data_size == header.data_size
    &&& p.element.payload_encoding == PayloadEncoding::BinaryBigEndian
}

/// Open one element from its binary header: resolve it under the innermost
/// open element, decide whether its subtree is discarded (under a discarded
/// ancestor, an unregistered class under the skipping policy, or a
/// deprecated class no converting ancestor will revisit), and check its
/// class version and payload support.  The caller reads `data_size` payload
/// bytes, attaches them, and pushes the result onto `stack`.
pub fn open_binary_element(
    header: &BinaryElementHeader,
    version: u32,
    hashes: Option<&LumberyardHashes>,
    context: Option<&ObjectStreamReadContext>,
    stack: &[PendingElement],
) -> (r: Result<PendingElement, ObjectStreamError>)
    ensures
        ({
            let n = stack@.len();
            let top = stack@[n - 1];
            let parent_class = if n > 0 {
                top.class
            } else {
                None
            };
            let by_ancestor = n > 0 && top.discard_subtree;
            let converting_ancestor = n > 0 && (top.has_converting_ancestor
                || top.element.version_state is RegisteredConverter);
            let resolved = match context {
                Some(c) => if by_ancestor {
                    None
                } else {
                    Some(c.spec_resolve(spec_header_input(version, *header, parent_class)))
                },
                None => None,
            };
            r matches Ok(p) ==> {
                &&& p.element.flags == header.flags
                &&& p.element.name_crc == header.name_crc
                &&& p.element.version == header.version
                &&& p.element.id == header.id
                &&& p.element.specialization == header.specialization
                &&& p.element.data_size == header.data_size
                &&& p.element.data is None
                &&& p.element.payload_encoding == PayloadEncoding::BinaryBigEndian
                &&& p.element.elements@.len() == 0
                &&& p.element.field == header.field
                &&& p.element.resolution.spec_get() == spec_resolution_state(
                    match context {
                        Some(c) => Some(*c),
                        None => None,
                    },
                    resolved,
                    parent_class,
                    header.name_crc,
                )
                &&& p.class == match resolved {
                    Some(res) => res.class,
                    None => None,
                }
                &&& p.has_converting_ancestor == converting_ancestor
                &&& by_ancestor ==> p.discard_subtree
                &&& context is None ==> p.discard_subtree == by_ancestor && p.element.version_state
                    == VersionConversionState::Current
            }
        }),
        context is None ==> r is Ok,
        context is None ==> (r matches Ok(p) && spec_raw_opened(*header, p)),
        context is None ==> (r matches Ok(p) && p.element.name@ == match header.name {
            Some(s) => s@,
            None => Seq::<char>::empty(),
        }),
        ({
            let n = stack@.len();
            let top = stack@[n - 1];
            let parent_class = if n > 0 {
                top.class
            } else {
                None
            };
            let by_ancestor = n > 0 && top.discard_subtree;
            let converting_ancestor = n > 0 && (top.has_converting_ancestor
                || top.element.version_state is RegisteredConverter);
            let resolved = match context {
                Some(c) => if by_ancestor {
                    None
                } else {
                    Some(c.spec_resolve(spec_header_input(version, *header, parent_class)))
                },
                None => None,
            };
            let fate = match (context, resolved) {
                (Some(c), Some(res)) => c.spec_fate_check(res, header.id),
                _ => Ok(ElementFate::Retain),
            };
            let by_unregistered = fate matches Ok(ElementFate::Skip);
            let resolved_class = match resolved {
                Some(res) => res.class,
                None => None,
            };
            let vcheck = match (context, if by_unregistered {
                None
            } else {
                resolved_class
            }) {
                (Some(c), Some(k)) => c.spec_version_check(
                    k,
                    match header.version {
                        Some(v) => v,
                        None => 0,
                    },
                ),
                _ => Ok(VersionConversionState::Current),
            };
            &&& (fate matches Err(e) ==> r == Err::<PendingElement, ObjectStreamError>(e))
            &&& (fate is Ok ==> (vcheck matches Err(e) ==> r == Err::<PendingElement, ObjectStreamError>(e)))
            &&& (fate is Ok ==> (vcheck matches Ok(st) ==> {
                let discard = by_ancestor || by_unregistered || (st is DeprecatedDiscard && !converting_ancestor);
                let pay = match (context, resolved_class) {
                    (Some(c), Some(k)) => if discard {
                        Ok(())
                    } else {
                        c.spec_payload_check(k, header.data_size is Some)
                    },
                    _ => Ok(()),
                };
                &&& (pay matches Err(e) ==> r == Err::<PendingElement, ObjectStreamError>(e))
                &&& (pay is Ok ==> (r matches Ok(p) && p.element.version_state == st && p.discard_subtree == discard))
            }))
        }),
{
    let n = stack.len();
    let parent_class = if n > 0 {
        stack[n - 1].class
    } else {
        None
    };
    let by_ancestor = n > 0 && stack[n - 1].discard_subtree;
    let resolved = match context {
        Some(c) => if by_ancestor {
            None
        } else {
            Some(
                c.resolve_type(
                    ResolveTypeInput {
                        stream_version: version,
                        raw_type_id: header.id,
                        specialization_type_id: header.specialization,
                        element_version: match header.version {
                            Some(v) => v,
                            None => 0,
                        },
                        name_crc: header.name_crc,
                        parent: parent_class,
                    },
                ),
            )
        },
        None => None,
    };
    let by_unregistered = match (context, resolved) {
        (Some(c), Some(res)) => match c.resolved_element_fate(res, header.id)? {
            ElementFate::Skip => true,
            ElementFate::Retain => false,
        },
        _ => false,
    };
    let resolved_class = match resolved {
        Some(res) => res.class,
        None => None,
    };
    let version_state = match (context, if by_unregistered {
        None
    } else {
        resolved_class
    }) {
        (Some(c), Some(class)) => c.validate_class_version(
            class,
            match header.version {
                Some(v) => v,
                None => 0,
            },
        )?,
        _ => VersionConversionState::Current,
    };
    let converting_ancestor = n > 0 && (stack[n - 1].has_converting_ancestor
        || stack[n - 1].element.version_state.requires_dom_converter());
    let discard_subtree = by_ancestor || by_unregistered || (version_state.discards_subtree() && !converting_ancestor);
    if !discard_subtree {
        if let (Some(c), Some(class)) = (context, resolved_class) {
            c.validate_payload_support(class, header.data_size.is_some())?;
        }
    }
    let resolution = resolution_state(context, resolved, parent_class, header.name_crc);
    let semantic_name: Option<&String> = match (resolved, hashes) {
        (Some(res), Some(h)) => match res.type_id {
            Some(t) => h.name_for_type(&t),
            None => None,
        },
        _ => None,
    };
    let name = match semantic_name {
        Some(s) => s.clone(),
        None => match &header.name {
            Some(s) => s.clone(),
            None => String::new(),
        },
    };
    let field = match &header.field {
        Some(f) => Some(f.clone()),
        None => None,
    };
    let mut element = Element::new(header.id);
    element.flags = header.flags;
    element.name_crc = header.name_crc;
    element.version = header.version;
    element.specialization = header.specialization;
    element.resolution = Resolution::proved(resolution);
    element.version_state = version_state;
    element.name = name;
    element.field = field;
    element.data_size = header.data_size;
    Ok(
        PendingElement {
            element,
            class: resolved_class,
            has_converting_ancestor: converting_ancestor,
            discard_subtree,
        },
    )
}

/// `stream` and `stack` after `e` is attached to the innermost open
/// element (or, with none open, to the stream's roots).
pub open spec fn spec_attached(
    old_stack: Seq<PendingElement>,
    new_stack: Seq<PendingElement>,
    old_stream: ObjectStream,
    new_stream: ObjectStream,
    e: Element,
) -> bool {
    let m = old_stack.len();
    &&& new_stack.len() == m
    &&& new_stream.tag == old_stream.tag && new_stream.version == old_stream.version
    &&& new_stream.skipped_children == old_stream.skipped_children
    &&& forall|i: int| 0 <= i < m - 1 ==> new_stack[i] == old_stack[i]
    &&& if m > 0 {
        &&& new_stream.elements@ == old_stream.elements@
        &&& new_stack[m - 1].element@ == (crate::tree::ElementView {
            elements: old_stack[m - 1].element.elements@.push(e),
            ..old_stack[m - 1].element@
        })
        &&& new_stack[m - 1].class == old_stack[m - 1].class
        &&& new_stack[m - 1].has_converting_ancestor == old_stack[m - 1].has_converting_ancestor
        &&& new_stack[m - 1].discard_subtree == old_stack[m - 1].discard_subtree
    } else {
        new_stream.elements@ == old_stream.elements@.push(e)
    }
}

/// `stream` after one more subtree was discarded.
pub open spec fn spec_counted_skip(old_stream: ObjectStream, new_stream: ObjectStream) -> bool {
    &&& new_stream.tag == old_stream.tag && new_stream.version == old_stream.version
    &&& new_stream.elements@ == old_stream.elements@
    &&& new_stream.skipped_children == if old_stream.skipped_children < usize::MAX {
        old_stream.skipped_children + 1
    } else {
        old_stream.skipped_children as int
    }
}

fn attach(stack: &mut Vec<PendingElement>, stream: &mut ObjectStream, e: Element)
    ensures
        spec_attached(old(stack)@, final(stack)@, *old(stream), *final(stream), e),
{
    let m = stack.len();
    if m > 0 {
        let ghost before = stack@;
        stack[m - 1].element.elements.push(e);
        assert forall|i: int| 0 <= i < m - 1 implies stack@[i] == before[i] by {}
    } else {
        stream.elements.push(e);
    }
}

fn count_skip(stream: &mut ObjectStream)
    ensures
        spec_counted_skip(*old(stream), *final(stream)),
{
    if stream.skipped_children < usize::MAX {
        stream.skipped_children = stream.skipped_children + 1;
    }
}

/// The pending element as a structural version step leaves it (any other
/// state leaves it as read), before it is bound to its parent.
pub open spec fn spec_structural_view(e: crate::tree::ElementView) -> crate::tree::ElementView {
    if e.version_state is StrictDefaultStructural {
        crate::tree::ElementView {
            version: Some(e.version_state->StrictDefaultStructural_to),
            version_state: VersionConversionState::Current,
            ..e
        }
    } else {
        e
    }
}

/// Close the innermost open element and attach it to its parent (or the
/// roots).  With a context, the element is first advanced to its current
/// version; unless an ancestor's converter will revalidate the subtree, its
/// child count is checked and it is bound to its parent's field, where the
/// default filter may discard it.  A discarded subtree is counted once, at
/// its top.  With no element open, this was the root terminator.
pub fn close_binary_element<C: ObjectStreamConverters>(
    stack: &mut Vec<PendingElement>,
    stream: &mut ObjectStream,
    context: Option<&ObjectStreamReadContext>,
    converters: &C,
    version: u32,
) -> (r: Result<BinaryListEnd, ObjectStreamError>)
    ensures
        old(stack)@.len() == 0 ==> r == Ok::<BinaryListEnd, ObjectStreamError>(BinaryListEnd::RootTerminator)
            && final(stack)@ == old(stack)@ && *final(stream) == *old(stream),
        old(stack)@.len() > 0 ==> ({
            let n = old(stack)@.len();
            let pending = old(stack)@[n - 1];
            let rest = old(stack)@.subrange(0, n - 1);
            &&& r matches Ok(end) ==> end == BinaryListEnd::Element
            &&& pending.discard_subtree ==> {
                &&& r is Ok && final(stack)@ == rest
                &&& if n >= 2 && rest[n - 2].discard_subtree {
                    *final(stream) == *old(stream)
                } else {
                    spec_counted_skip(*old(stream), *final(stream))
                }
            }
            &&& !pending.discard_subtree && (context is None || pending.class is None) ==> {
                &&& r is Ok
                &&& spec_attached(rest, final(stack)@, *old(stream), *final(stream), pending.element)
            }
            &&& !pending.discard_subtree && context is Some && pending.class is Some && r is Ok ==> {
                ||| (final(stack)@ == rest && spec_counted_skip(*old(stream), *final(stream)))
                ||| exists|e: Element| spec_attached(rest, final(stack)@, *old(stream), *final(stream), e)
            }
            &&& (match (context, pending.class) {
                (Some(ctx), Some(k)) => {
                    let st = pending.element.version_state;
                    let defer = pending.has_converting_ancestor;
                    let parent = if n >= 2 {
                        rest[n - 2].class
                    } else {
                        None
                    };
                    let cv = spec_structural_view(pending.element@);
                    let count: Option<nat> = if st is StrictDefaultStructural {
                        ctx.spec_unaided_children(k, version, pending.element.elements@)
                    } else {
                        Some(pending.element.elements@.len())
                    };
                    (!pending.discard_subtree && !(st is RegisteredConverter)) ==> match count {
                        None => true,
                        Some(m) => if !defer && !ctx.spec_admits(k, m) {
                            ctx.spec_cardinality_check(k, m as usize) matches Err(x) && r == Err::<
                                BinaryListEnd,
                                ObjectStreamError,
                            >(x)
                        } else if defer || parent is None {
                            r == Ok::<BinaryListEnd, ObjectStreamError>(BinaryListEnd::Element) && exists|e: Element|
                                #![trigger e.elements]
                                spec_attached(rest, final(stack)@, *old(stream), *final(stream), e) && e@ == (
                                crate::tree::ElementView { elements: e.elements@, ..cv })
                                && e.elements@.len() == m
                        } else {
                            let p = parent->0;
                            let c1 = ctx.spec_renamed(p, cv);
                            let res = ctx.spec_resolve(ObjectStreamReadContext::spec_child_input(version, c1, Some(p)));
                            match (res.type_id, res.class, ctx.spec_class(p)) {
                                (Some(t), Some(k1), Some(pd)) => match ctx.spec_bind_outcome(p, pd, c1, t) {
                                    Ok(ChildBinding::Fate(ChildFate::Retain)) => r == Ok::<
                                        BinaryListEnd,
                                        ObjectStreamError,
                                    >(BinaryListEnd::Element) && exists|e: Element|
                                        #![trigger e.elements]
                                        spec_attached(rest, final(stack)@, *old(stream), *final(stream), e) && e@ == (
                                        crate::tree::ElementView {
                                            elements: e.elements@,
                                            field: ObjectStreamReadContext::spec_canonical_field(pd, c1),
                                            resolution: ctx.spec_resolved_identity(res, t, k1, Some(p), c1.name_crc),
                                            ..c1
                                        }) && e.elements@.len() == m,
                                    Ok(ChildBinding::Fate(ChildFate::Skip)) => r == Ok::<
                                        BinaryListEnd,
                                        ObjectStreamError,
                                    >(BinaryListEnd::Element) && final(stack)@ == rest && spec_counted_skip(
                                        *old(stream),
                                        *final(stream),
                                    ),
                                    Ok(ChildBinding::ConvertData { .. }) => true,
                                    Err(x) => r == Err::<BinaryListEnd, ObjectStreamError>(x),
                                },
                                (Some(_), Some(_), None) => r matches Err(ObjectStreamError::UnresolvedClassData {
                                    class,
                                }) && class == p,
                                _ => r matches Err(ObjectStreamError::UnresolvedElementType { type_id }) && type_id
                                    == c1.id,
                            }
                        },
                    }
                },
                _ => true,
            })
        }),
{
    let n = stack.len();
    if n == 0 {
        return Ok(BinaryListEnd::RootTerminator);
    }
    let ghost rest = stack@.subrange(0, n - 1);
    let mut pending = match stack.pop() {
        Some(p) => p,
        None => {
            return Ok(BinaryListEnd::RootTerminator);
        },
    };
    assert(stack@ =~= rest);
    let m = stack.len();
    if pending.discard_subtree {
        let parent_discards = m > 0 && stack[m - 1].discard_subtree;
        if !parent_discards {
            count_skip(stream);
        }
        return Ok(BinaryListEnd::Element);
    }
    if let (Some(ctx), Some(class)) = (context, pending.class) {
        let parent = if m > 0 {
            stack[m - 1].class
        } else {
            None
        };
        let defer_parent_validation = pending.has_converting_ancestor;
        let state = pending.element.version_state;
        let converted = ctx.convert_element(converters, class, state, &mut pending.element, version, parent)?;
        pending.class = Some(converted);
        if !defer_parent_validation {
            ctx.validate_container_cardinality(converted, pending.element.elements.len())?;
        }
        if let Some(p) = parent {
            if !defer_parent_validation {
                match ctx.finalize_reachable_child(converters, p, &mut pending.element, version)? {
                    ChildFate::Retain => {
                        pending.class = pending.element.resolved_class();
                    },
                    ChildFate::Skip => {
                        count_skip(stream);
                        return Ok(BinaryListEnd::Element);
                    },
                }
            }
        }
    }
    attach(stack, stream, pending.element);
    Ok(BinaryListEnd::Element)
}

} // verus!
