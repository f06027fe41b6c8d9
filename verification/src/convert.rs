//! Version and data conversion of a resolved element tree: advancing
//! elements to their current `ClassData` version, re-resolving descendants,
//! and rebinding children that a data converter rewrote.
//!
//! Executable converters are user code held by their owner; the walk calls
//! them through `ObjectStreamConverters`.  Each converter call is charged to
//! a budget that starts at `usize::MAX`: converters may grow the tree
//! without bound, and the budget is what lets the walk be shown to end.
//! A walk that would run more converters than that stops with
//! `UnsupportedVersionConversion` (for a version converter) or
//! `UnsupportedDataConversion` (for a data converter) in place of the call.
use vstd::prelude::*;

use crate::az_uuid::AzUuid;
use crate::context::{
    ChildBinding, ChildFate, ObjectStreamReadContext, ReflectedClassKey, ResolveTypeInput, ResolvedType,
    VersionConversionState,
};
use crate::error::ObjectStreamError;
use crate::tree::{Element, Resolution, TypeResolution};

verus! {

/// Rewrites an element from class version `from` to `to`.
pub trait ObjectStreamVersionConverter {
    fn convert(&self, element: &mut Element, from: u32, to: u32) -> Result<(), ObjectStreamError>;
}

/// Rewrites an element from `source_type_id` to `target_type_id`.
pub trait ObjectStreamDataConverter {
    fn convert(&self, element: &mut Element, source_type_id: AzUuid, target_type_id: AzUuid) -> Result<
        (),
        ObjectStreamError,
    >;
}

/// The executable converters registered for classes of a read context,
/// looked up by class.  An implementation reports a class it holds no
/// converter for as a failed conversion.
pub trait ObjectStreamConverters {
    /// Run the version converter registered for `class` on `element` and
    /// return the element it produces.
    fn convert_version(&self, class: ReflectedClassKey, element: Element, from: u32, to: u32) -> Result<
        Element,
        ObjectStreamError,
    >;

    /// Run the data converter registered for `class` on `element` and
    /// return the element it produces.
    fn convert_data(
        &self,
        class: ReflectedClassKey,
        element: Element,
        source_type_id: AzUuid,
        target_type_id: AzUuid,
    ) -> Result<Element, ObjectStreamError>;
}

/// `converted` is an answer the version converter registered for `class`
/// can give when handed `element` and the versions `from` and `to`.
pub open spec fn spec_version_answer<C: ObjectStreamConverters>(
    converters: &C,
    class: ReflectedClassKey,
    element: Element,
    from: u32,
    to: u32,
    converted: Element,
) -> bool {
    call_ensures(C::convert_version, (converters, class, element, from, to), Ok::<Element, ObjectStreamError>(converted))
}

/// `converted` is an answer the data converter registered for `class` can
/// give when handed `element` and the types `source_type_id` and
/// `target_type_id`.
pub open spec fn spec_data_answer<C: ObjectStreamConverters>(
    converters: &C,
    class: ReflectedClassKey,
    element: Element,
    source_type_id: AzUuid,
    target_type_id: AzUuid,
    converted: Element,
) -> bool {
    call_ensures(
        C::convert_data,
        (converters, class, element, source_type_id, target_type_id),
        Ok::<Element, ObjectStreamError>(converted),
    )
}

/// Number of elements in a subtree.
pub open spec fn spec_size(e: Element) -> nat
    decreases e,
{
    1 + spec_size_list(e.elements@)
}

/// One plus the number of elements in a list of subtrees.
pub open spec fn spec_size_list(l: Seq<Element>) -> nat
    decreases l,
{
    if l.len() == 0 {
        1
    } else {
        spec_size_list(l.subrange(0, l.len() - 1)) + spec_size(l[l.len() - 1])
    }
}

/// A list of subtrees counts at least one.
pub proof fn lemma_size_list_positive(l: Seq<Element>)
    ensures
        spec_size_list(l) >= 1,
    decreases l.len(),
{
    if l.len() > 0 {
        lemma_size_list_positive(l.subrange(0, l.len() - 1));
    }
}

proof fn lemma_size_list_member(l: Seq<Element>, i: int)
    requires
        0 <= i < l.len(),
    ensures
        spec_size(l[i]) < spec_size_list(l),
    decreases l.len(),
{
    let init = l.subrange(0, l.len() - 1);
    assert(spec_size_list(l) == spec_size_list(init) + spec_size(l[l.len() - 1]));
    lemma_size_list_positive(init);
    if i < l.len() - 1 {
        lemma_size_list_member(init, i);
        assert(init[i] == l[i]);
    }
}

/// The element is bound to a `ClassData` the context defines.
pub open spec fn spec_bound(ctx: ObjectStreamReadContext, e: Element) -> bool {
    e.resolution.spec_get() matches TypeResolution::Resolved { class, .. } && ctx.spec_class(class) is Some
}

/// The element is bound and needs no further registered conversion.
pub open spec fn spec_settled(ctx: ObjectStreamReadContext, e: Element) -> bool {
    spec_bound(ctx, e) && !(e.version_state is RegisteredConverter)
}

/// Every element of a list is settled.
pub open spec fn spec_all_settled(ctx: ObjectStreamReadContext, list: Seq<Element>) -> bool {
    forall|i: int| 0 <= i < list.len() ==> spec_settled(ctx, #[trigger] list[i])
}

impl ObjectStreamReadContext {
    /// The conversion state `validate_class_version` reports for an element
    /// of `version`, or `None` where it fails.
    pub open spec fn spec_version_state(&self, class: ReflectedClassKey, version: u32) -> Option<VersionConversionState> {
        match self.spec_class(class) {
            None => None,
            Some(cd) => {
                let cur = cd.current_version;
                if cd.deprecated && !self.spec_has_converter(class) {
                    Some(VersionConversionState::DeprecatedDiscard)
                } else if version > cur {
                    None
                } else if cd.deprecated {
                    Some(VersionConversionState::RegisteredConverter { from: version, to: cur })
                } else if version < cur {
                    if self.spec_has_codec(class) {
                        Some(VersionConversionState::SerializerCompatibleOld { from: version, to: cur })
                    } else if self.spec_has_converter(class) {
                        Some(VersionConversionState::RegisteredConverter { from: version, to: cur })
                    } else if cd.captured_version_converter {
                        None
                    } else {
                        Some(VersionConversionState::StrictDefaultStructural { from: version, to: cur })
                    }
                } else {
                    Some(VersionConversionState::Current)
                }
            },
        }
    }

    /// `validate_payload_support` accepts an element of `class`.
    pub open spec fn spec_payload_supported(&self, class: ReflectedClassKey, has_payload: bool) -> bool {
        match self.spec_class(class) {
            None => false,
            Some(cd) => if cd.is_container && cd.container_shape is None {
                false
            } else if cd.is_container && cd.container_cardinality is None {
                false
            } else if cd.captured_serializer {
                self.spec_has_codec(class)
            } else {
                !has_payload
            },
        }
    }

    /// `validate_container_cardinality` accepts `count` children of `class`.
    pub open spec fn spec_admits(&self, class: ReflectedClassKey, count: nat) -> bool {
        match self.spec_class(class) {
            None => false,
            Some(cd) => match cd.container_cardinality {
                Some(c) => crate::container::spec_cardinality_admits(c, count),
                None => true,
            },
        }
    }

    /// Re-resolving `c` under `parent` succeeds without running any
    /// registered converter: `Some(true)` when it is kept, `Some(false)`
    /// when its deprecated class or the default filter drops it, `None`
    /// when it fails or a converter would run.
    pub open spec fn spec_unaided_child(&self, parent: ReflectedClassKey, stream_version: u32, c: Element) -> Option<bool>
        decreases spec_size(c),
    {
        let res = self.spec_resolve(Self::spec_child_input(stream_version, c@, Some(parent)));
        if c.specialization is Some && (stream_version == 0 || stream_version == 1 || stream_version == 3) {
            None
        } else {
            match (res.type_id, res.class) {
                (Some(_), Some(k)) => match self.spec_version_state(
                    k,
                    match c.version {
                        Some(v) => v,
                        None => 0,
                    },
                ) {
                    None => None,
                    Some(st) => if st is DeprecatedDiscard {
                        Some(false)
                    } else if !self.spec_payload_supported(k, c.data is Some) || st is RegisteredConverter {
                        None
                    } else {
                        match self.spec_unaided_children(k, stream_version, c.elements@) {
                            None => None,
                            Some(m) => if !self.spec_admits(k, m) {
                                None
                            } else {
                                let bound = crate::tree::ElementView {
                                    version: if st is StrictDefaultStructural {
                                        Some(st->StrictDefaultStructural_to)
                                    } else {
                                        c.version
                                    },
                                    ..c@
                                };
                                let c1 = self.spec_renamed(parent, bound);
                                let res1 = self.spec_resolve(Self::spec_child_input(stream_version, c1, Some(parent)));
                                match (res1.type_id, res1.class, self.spec_class(parent)) {
                                    (Some(t1), Some(_), Some(pd)) => match self.spec_bind_outcome(parent, pd, c1, t1) {
                                        Ok(ChildBinding::Fate(ChildFate::Retain)) => Some(true),
                                        Ok(ChildBinding::Fate(ChildFate::Skip)) => Some(false),
                                        _ => None,
                                    },
                                    _ => None,
                                }
                            },
                        }
                    },
                },
                _ => None,
            }
        }
    }

    /// Re-resolving every child of `parent` in `l` succeeds without running
    /// any registered converter, keeping the returned number of them.
    pub open spec fn spec_unaided_children(
        &self,
        parent: ReflectedClassKey,
        stream_version: u32,
        l: Seq<Element>,
    ) -> Option<nat>
        decreases spec_size_list(l),
    {
        if l.len() == 0 {
            Some(0)
        } else {
            let init = l.subrange(0, l.len() - 1);
            proof {
                lemma_size_list_positive(init);
                assert(spec_size_list(l) == spec_size_list(init) + spec_size(l[l.len() - 1]));
                assert(spec_size(l[l.len() - 1]) >= 1);
            }
            match (
                self.spec_unaided_children(parent, stream_version, init),
                self.spec_unaided_child(parent, stream_version, l[l.len() - 1]),
            ) {
                (Some(n), Some(b)) => Some(
                    if b {
                        n + 1
                    } else {
                        n
                    },
                ),
                _ => None,
            }
        }
    }
}

impl ObjectStreamReadContext {
    /// The checks a registered version conversion makes on the element
    /// `e` its converter returned: the new identity, class, resolution,
    /// version and conversion state, or the error that ends it.
    pub open spec fn spec_version_rebind(
        &self,
        source_class: ReflectedClassKey,
        from: u32,
        to: u32,
        source_version: Option<u32>,
        e: crate::tree::ElementView,
        stream_version: u32,
        parent: Option<ReflectedClassKey>,
    ) -> Result<(AzUuid, ReflectedClassKey, ResolvedType, u32, VersionConversionState), ObjectStreamError> {
        match crate::stream::spec_specialization_check(stream_version, e.id, e.specialization) {
            Err(x) => Err(x),
            Ok(_) => {
                let callback = e.version != source_version;
                let rv: u32 = if callback {
                    match e.version {
                        Some(v) => v,
                        None => 0,
                    }
                } else {
                    from
                };
                let res = self.spec_resolve(
                    ResolveTypeInput {
                        stream_version,
                        raw_type_id: e.id,
                        specialization_type_id: e.specialization,
                        element_version: rv,
                        name_crc: e.name_crc,
                        parent,
                    },
                );
                match (res.type_id, res.class) {
                    (Some(t), Some(k)) => match self.spec_payload_check(k, e.data is Some) {
                        Err(x) => Err(x),
                        Ok(_) => match self.spec_class(k) {
                            None => Err(ObjectStreamError::UnresolvedElementType { type_id: t }),
                            Some(cd) => {
                                let cv: u32 = if k == source_class {
                                    to
                                } else if callback {
                                    match e.version {
                                        Some(v) => v,
                                        None => cd.current_version,
                                    }
                                } else {
                                    cd.current_version
                                };
                                match self.spec_version_check(k, cv) {
                                    Err(x) => Err(x),
                                    Ok(next) => if next is RegisteredConverter {
                                        Err(
                                            ObjectStreamError::UnsupportedVersionConversion {
                                                type_id: t,
                                                element_version: next->RegisteredConverter_from,
                                                current_version: next->RegisteredConverter_to,
                                            },
                                        )
                                    } else {
                                        Ok((t, k, res, cv, next))
                                    },
                                }
                            },
                        },
                    },
                    _ => Err(ObjectStreamError::UnresolvedElementType { type_id: e.id }),
                }
            },
        }
    }

    /// `f` is what finishing a registered version conversion made of the
    /// converter's result `e`, bound to class `k`.
    pub open spec fn spec_version_rebound(
        &self,
        source_class: ReflectedClassKey,
        from: u32,
        to: u32,
        source_version: Option<u32>,
        e: Element,
        stream_version: u32,
        parent: Option<ReflectedClassKey>,
        f: Element,
        k: ReflectedClassKey,
    ) -> bool {
        match self.spec_version_rebind(source_class, from, to, source_version, e@, stream_version, parent) {
            Ok(plan) => {
                let (t, k0, res, cv, next) = plan;
                &&& k == k0
                &&& f.id == e.id
                &&& f.specialization == e.specialization
                &&& f.name_crc == e.name_crc
                &&& f.data == e.data
                &&& f.resolution.spec_get() == self.spec_resolved_identity(res, t, k0, parent, e.name_crc)
                &&& f.version == Some(
                    if next is StrictDefaultStructural {
                        next->StrictDefaultStructural_to
                    } else {
                        cv
                    },
                )
                &&& f.version_state == if next is StrictDefaultStructural {
                    VersionConversionState::Current
                } else {
                    next
                }
            },
            Err(_) => false,
        }
    }
}

impl ObjectStreamReadContext {
    /// `f` is what re-resolving child `c` under `parent` gave when no
    /// converter ran: the same raw type, the field slot after its parent's
    /// import rename, the version after any structural step, and the
    /// identity that slot resolves to.
    pub open spec fn spec_reresolved_from(&self, parent: ReflectedClassKey, stream_version: u32, c: Element, f: Element) -> bool {
        let res = self.spec_resolve(Self::spec_child_input(stream_version, c@, Some(parent)));
        match res.class {
            None => false,
            Some(k) => match self.spec_version_state(
                k,
                match c.version {
                    Some(v) => v,
                    None => 0,
                },
            ) {
                None => false,
                Some(st) => {
                    let bound = crate::tree::ElementView {
                        version: if st is StrictDefaultStructural {
                            Some(st->StrictDefaultStructural_to)
                        } else {
                            c.version
                        },
                        ..c@
                    };
                    let c1 = self.spec_renamed(parent, bound);
                    let res1 = self.spec_resolve(Self::spec_child_input(stream_version, c1, Some(parent)));
                    &&& f.id == c.id
                    &&& f.specialization == c.specialization
                    &&& f.name_crc == c1.name_crc
                    &&& f.version == bound.version
                    &&& (match (res1.type_id, res1.class) {
                        (Some(t1), Some(k1)) => f.resolution.spec_get() == self.spec_resolved_identity(
                            res1,
                            t1,
                            k1,
                            Some(parent),
                            c1.name_crc,
                        ),
                        _ => false,
                    })
                },
            },
        }
    }
}

/// A prefix of children that re-resolve unaided re-resolves unaided, and
/// each further child extends the count.
proof fn lemma_unaided_prefix(
    ctx: ObjectStreamReadContext,
    parent: ReflectedClassKey,
    stream_version: u32,
    l: Seq<Element>,
    k: int,
)
    requires
        ctx.spec_unaided_children(parent, stream_version, l) is Some,
        0 <= k < l.len(),
    ensures
        ctx.spec_unaided_children(parent, stream_version, l.subrange(0, k)) is Some,
        ctx.spec_unaided_child(parent, stream_version, l[k]) is Some,
        ctx.spec_unaided_children(parent, stream_version, l.subrange(0, k + 1)) == Some(
            (ctx.spec_unaided_children(parent, stream_version, l.subrange(0, k))->0 + if ctx.spec_unaided_child(
                parent,
                stream_version,
                l[k],
            )->0 {
                1nat
            } else {
                0nat
            }) as nat,
        ),
    decreases l.len(),
{
    let p = l.subrange(0, k + 1);
    assert(p.subrange(0, p.len() - 1) =~= l.subrange(0, k));
    assert(p[p.len() - 1] == l[k]);
    if k < l.len() - 1 {
        let init = l.subrange(0, l.len() - 1);
        lemma_unaided_prefix(ctx, parent, stream_version, init, k);
        assert(init.subrange(0, k) =~= l.subrange(0, k));
        assert(init.subrange(0, k + 1) =~= p);
        assert(init[k] == l[k]);
    } else {
        assert(p =~= l);
    }
}

impl ObjectStreamReadContext {
    fn take_budget(budget: &mut usize) -> (r: bool)
        ensures
            r == (*old(budget) > 0),
            r ==> *final(budget) == *old(budget) - 1,
            !r ==> *final(budget) == *old(budget),
    {
        if *budget == 0 {
            false
        } else {
            *budget = *budget - 1;
            true
        }
    }

    fn class_version(&self, class: ReflectedClassKey, type_id: AzUuid) -> (r: Result<u32, ObjectStreamError>)
        ensures
            match self.spec_class(class) {
                Some(cd) => r == Ok::<u32, ObjectStreamError>(cd.current_version),
                None => (r matches Err(ObjectStreamError::UnresolvedElementType { type_id: t }) && t == type_id),
            },
    {
        match self.class(class) {
            Some(cd) => Ok(cd.current_version),
            None => Err(ObjectStreamError::UnresolvedElementType { type_id }),
        }
    }

    /// Advance `element` to its current `ClassData` version and return the
    /// class it ends up bound to.  A strict default structural pass keeps
    /// the class and requires every descendant to resolve again; a
    /// registered converter rewrites the element, which is then resolved
    /// afresh and must need no further registered conversion.
    fn convert_element_within<C: ObjectStreamConverters>(
        &self,
        converters: &C,
        class: ReflectedClassKey,
        state: VersionConversionState,
        element: &mut Element,
        stream_version: u32,
        parent: Option<ReflectedClassKey>,
        budget: &mut usize,
    ) -> (r: Result<ReflectedClassKey, ObjectStreamError>)
        ensures
            *final(budget) <= *old(budget),
            state is StrictDefaultStructural ==> final(element).resolution.spec_get() == old(element).resolution.spec_get(),
            state is StrictDefaultStructural ==> (r matches Ok(k) ==> {
                &&& k == class
                &&& final(element).version == Some(state->StrictDefaultStructural_to)
                &&& final(element).version_state == VersionConversionState::Current
            }),
            state is RegisteredConverter ==> (r matches Ok(k) ==> {
                &&& self.spec_class(k) is Some
                &&& spec_bound(*self, *final(element))
                &&& final(element).resolution.spec_get()->Resolved_class == k
                &&& !(final(element).version_state is RegisteredConverter)
            }),
            state is RegisteredConverter && !self.spec_has_converter(class) ==> (r matches Err(
                ObjectStreamError::UnsupportedVersionConversion { type_id, element_version, current_version },
            ) && type_id == old(element).id && element_version == state->RegisteredConverter_from && current_version
                == state->RegisteredConverter_to),
            (state is StrictDefaultStructural || state is RegisteredConverter) && r is Ok ==> spec_all_settled(
                *self,
                final(element).elements@,
            ),
            !(state is StrictDefaultStructural) && !(state is RegisteredConverter) ==> {
                &&& r == Ok::<ReflectedClassKey, ObjectStreamError>(class)
                &&& final(element)@ == old(element)@
            },
            state is StrictDefaultStructural ==> {
                &&& final(element).id == old(element).id
                &&& final(element).specialization == old(element).specialization
                &&& final(element).name_crc == old(element).name_crc
                &&& final(element).data == old(element).data
            },
            state is StrictDefaultStructural ==> (self.spec_unaided_children(class, stream_version, old(element).elements@)
                matches Some(n) ==> (r is Ok && final(element).elements@.len() == n)),
            state is StrictDefaultStructural ==> (self.spec_unaided_children(class, stream_version, old(element).elements@)
                is Some ==> forall|i: int|
                0 <= i < final(element).elements@.len() ==> exists|j: int|
                    0 <= j < old(element).elements@.len() && self.spec_reresolved_from(
                        class,
                        stream_version,
                        old(element).elements@[j],
                        #[trigger] final(element).elements@[i],
                    )),
            state is RegisteredConverter ==> (r matches Ok(k) ==> exists|e: Element|
                #[trigger] spec_version_answer(
                    converters,
                    class,
                    *old(element),
                    state->RegisteredConverter_from,
                    state->RegisteredConverter_to,
                    e,
                ) && self.spec_version_rebound(
                    class,
                    state->RegisteredConverter_from,
                    state->RegisteredConverter_to,
                    old(element).version,
                    e,
                    stream_version,
                    parent,
                    *final(element),
                    k,
                )),
            state is StrictDefaultStructural && r is Ok ==> final(element)@ == (crate::tree::ElementView {
                version: Some(state->StrictDefaultStructural_to),
                version_state: VersionConversionState::Current,
                elements: final(element).elements@,
                ..old(element)@
            }),
        decreases *old(budget), spec_size(*old(element)), 1nat,
    {
        match state {
            VersionConversionState::StrictDefaultStructural { from: _, to } => {
                self.reresolve_descendants_within(converters, class, stream_version, &mut element.elements, budget)?;
                element.version = Some(to);
                element.version_state = VersionConversionState::Current;
                Ok(class)
            },
            VersionConversionState::RegisteredConverter { from, to } => {
                let source_class = class;
                let unsupported = ObjectStreamError::UnsupportedVersionConversion {
                    type_id: element.id,
                    element_version: from,
                    current_version: to,
                };
                if !self.has_version_converter(class) {
                    return Err(unsupported);
                }
                if !Self::take_budget(budget) {
                    return Err(unsupported);
                }
                let source_version = element.version;
                let ghost before = *element;
                let mut taken = Element::new(AzUuid::nil());
                std::mem::swap(&mut taken, element);
                let answer = converters.convert_version(class, taken, from, to);
                let converted_element = match answer {
                    Ok(c) => c,
                    Err(e) => {
                        return Err(e);
                    },
                };
                proof {
                    assert(spec_version_answer(converters, class, before, from, to, converted_element));
                }
                *element = converted_element;
                let ghost converted = *element;
                let k = self.rebind_converted_element_within(
                    converters,
                    source_class,
                    from,
                    to,
                    source_version,
                    element,
                    stream_version,
                    parent,
                    budget,
                )?;
                assert(self.spec_version_rebound(source_class, from, to, before.version, converted, stream_version, parent, *element, k));
                assert(spec_version_answer(converters, class, before, from, to, converted));
                Ok(k)
            },
            _ => Ok(class),
        }
    }

    /// Finish a registered version conversion: the element the converter
    /// returned (from `from` to `to`; it carried `source_version` before) is
    /// checked and resolved again under `parent`, given its new version and
    /// conversion state, and its subtree re-resolved.
    fn rebind_converted_element_within<C: ObjectStreamConverters>(
        &self,
        converters: &C,
        source_class: ReflectedClassKey,
        from: u32,
        to: u32,
        source_version: Option<u32>,
        element: &mut Element,
        stream_version: u32,
        parent: Option<ReflectedClassKey>,
        budget: &mut usize,
    ) -> (r: Result<ReflectedClassKey, ObjectStreamError>)
        ensures
            *final(budget) <= *old(budget),
            self.spec_version_rebind(source_class, from, to, source_version, old(element)@, stream_version, parent)
                matches Err(e) ==> r == Err::<ReflectedClassKey, ObjectStreamError>(e),
            r matches Ok(k) ==> {
                &&& self.spec_version_rebound(
                    source_class,
                    from,
                    to,
                    source_version,
                    *old(element),
                    stream_version,
                    parent,
                    *final(element),
                    k,
                )
                &&& self.spec_class(k) is Some
                &&& spec_all_settled(*self, final(element).elements@)
            },
            self.spec_version_rebind(source_class, from, to, source_version, old(element)@, stream_version, parent)
                matches Ok(plan) ==> (self.spec_unaided_children(plan.1, stream_version, old(element).elements@)
                matches Some(n) ==> (r == Ok::<ReflectedClassKey, ObjectStreamError>(plan.1)
                && final(element).elements@.len() == n)),
        decreases *old(budget), spec_size(*old(element)), 2nat,
    {
        crate::stream::validate_element_specialization(stream_version, element.id, element.specialization)?;
        let callback_supplied_version = element.version != source_version;
        let resolution_version = if callback_supplied_version {
            match element.version {
                Some(v) => v,
                None => 0,
            }
        } else {
            from
        };
        let resolved = self.resolve_type(
            ResolveTypeInput {
                stream_version,
                raw_type_id: element.id,
                specialization_type_id: element.specialization,
                element_version: resolution_version,
                name_crc: element.name_crc,
                parent,
            },
        );
        proof {
            crate::context::lemma_resolution_names_defined_class(
                *self,
                ResolveTypeInput {
                    stream_version,
                    raw_type_id: element.id,
                    specialization_type_id: element.specialization,
                    element_version: resolution_version,
                    name_crc: element.name_crc,
                    parent,
                },
            );
        }
        let (type_id, new_class) = match (resolved.type_id, resolved.class) {
            (Some(t), Some(k)) => (t, k),
            _ => {
                return Err(ObjectStreamError::UnresolvedElementType { type_id: element.id });
            },
        };
        self.validate_payload_support(new_class, element.data.is_some())?;
        let converted_version = if new_class == source_class {
            to
        } else if callback_supplied_version {
            let current = self.class_version(new_class, type_id)?;
            match element.version {
                Some(v) => v,
                None => current,
            }
        } else {
            self.class_version(new_class, type_id)?
        };
        element.version = Some(converted_version);
        let next_state = self.validate_class_version(new_class, converted_version)?;
        if let VersionConversionState::RegisteredConverter { from: f, to: t } = next_state {
            return Err(
                ObjectStreamError::UnsupportedVersionConversion {
                    type_id,
                    element_version: f,
                    current_version: t,
                },
            );
        }
        element.resolution = Resolution::proved(
            TypeResolution::Resolved {
                type_id,
                class: new_class,
                edge: self.resolved_edge(parent, element.name_crc),
                enum_type_id: self.resolved_enum_type(parent, element.name_crc, type_id),
                builtin_serializer: resolved.builtin_serializer,
                is_container: resolved.is_container,
                container_shape: resolved.container_shape,
            },
        );
        element.version_state = next_state;
        if let VersionConversionState::StrictDefaultStructural { .. } = next_state {
            self.convert_element_within(
                converters,
                new_class,
                next_state,
                element,
                stream_version,
                parent,
                budget,
            )?;
        } else {
            self.reresolve_descendants_within(
                converters,
                new_class,
                stream_version,
                &mut element.elements,
                budget,
            )?;
        }
        Ok(new_class)
    }

    /// Resolve every child of `parent` again against the current `ClassData`
    /// graph, advancing each to its current version; children a deprecated
    /// class discards, or that the default filter skips, are dropped.
    fn reresolve_descendants_within<C: ObjectStreamConverters>(
        &self,
        converters: &C,
        parent: ReflectedClassKey,
        stream_version: u32,
        children: &mut Vec<Element>,
        budget: &mut usize,
    ) -> (r: Result<(), ObjectStreamError>)
        ensures
            *final(budget) <= *old(budget),
            r is Ok ==> final(children)@.len() <= old(children)@.len(),
            r is Ok ==> spec_all_settled(*self, final(children)@),
            self.spec_unaided_children(parent, stream_version, old(children)@) matches Some(n) ==> (r is Ok
                && final(children)@.len() == n),
            self.spec_unaided_children(parent, stream_version, old(children)@) is Some ==> forall|i: int|
                0 <= i < final(children)@.len() ==> exists|j: int|
                    0 <= j < old(children)@.len() && self.spec_reresolved_from(
                        parent,
                        stream_version,
                        old(children)@[j],
                        #[trigger] final(children)@[i],
                    ),
        decreases *old(budget), spec_size_list(old(children)@), 0nat,
    {
        let ghost b0 = *budget;
        let ghost orig = children@;
        let n = children.len();
        assert(orig.len() == n);
        let mut pending: Vec<Element> = Vec::new();
        std::mem::swap(&mut pending, children);
        let mut retained: Vec<Element> = Vec::new();
        let mut i: usize = 0;
        while pending.len() > 0
            invariant
                i <= orig.len(),
                orig.len() == n,
                pending@ == orig.subrange(i as int, orig.len() as int),
                *budget <= b0,
                b0 == *old(budget),
                orig == old(children)@,
                retained@.len() <= i,
                spec_all_settled(*self, retained@),
                self.spec_unaided_children(parent, stream_version, orig) is Some ==> self.spec_unaided_children(
                    parent,
                    stream_version,
                    orig.subrange(0, i as int),
                ) == Some(retained@.len() as nat),
                self.spec_unaided_children(parent, stream_version, orig) is Some ==> forall|a: int|
                    0 <= a < retained@.len() ==> exists|j: int|
                        0 <= j < orig.len() && self.spec_reresolved_from(
                            parent,
                            stream_version,
                            orig[j],
                            #[trigger] retained@[a],
                        ),
            decreases pending.len(),
        {
            let ghost before = pending@;
            let mut child = pending.remove(0);
            let ghost original = child;
            assert(original == orig[i as int]);
            assert(pending@ =~= orig.subrange(i + 1, orig.len() as int));
            assert(i < orig.len());
            proof {
                lemma_size_list_member(orig, i as int);
                if self.spec_unaided_children(parent, stream_version, orig) is Some {
                    lemma_unaided_prefix(*self, parent, stream_version, orig, i as int);
                }
            }
            let ghost unaided = self.spec_unaided_children(parent, stream_version, orig) is Some;
            i = i + 1;
            crate::stream::validate_element_specialization(stream_version, child.id, child.specialization)?;
            let input = ResolveTypeInput {
                stream_version,
                raw_type_id: child.id,
                specialization_type_id: child.specialization,
                element_version: match child.version {
                    Some(v) => v,
                    None => 0,
                },
                name_crc: child.name_crc,
                parent: Some(parent),
            };
            let resolved = self.resolve_type(input);
            proof {
                crate::context::lemma_resolution_names_defined_class(*self, input);
            }
            let (type_id, class) = match (resolved.type_id, resolved.class) {
                (Some(t), Some(k)) => (t, k),
                _ => {
                    return Err(ObjectStreamError::UnresolvedElementType { type_id: child.id });
                },
            };
            child.resolution = Resolution::proved(
                TypeResolution::Resolved {
                    type_id,
                    class,
                    edge: self.resolved_edge(Some(parent), child.name_crc),
                    enum_type_id: self.resolved_enum_type(Some(parent), child.name_crc, type_id),
                    builtin_serializer: resolved.builtin_serializer,
                    is_container: resolved.is_container,
                    container_shape: resolved.container_shape,
                },
            );
            let state = self.validate_class_version(
                class,
                match child.version {
                    Some(v) => v,
                    None => 0,
                },
            )?;
            if state.discards_subtree() {
                continue;
            }
            self.validate_payload_support(class, child.data.is_some())?;
            child.version_state = state;
            assert(child.elements == original.elements);
            assert(spec_size(child) == spec_size(original));
            match state {
                VersionConversionState::RegisteredConverter { .. } | VersionConversionState::StrictDefaultStructural {
                    ..
                } => {
                    self.convert_element_within(converters, class, state, &mut child, stream_version, Some(parent), budget)?;
                },
                _ => {
                    self.reresolve_descendants_within(converters, class, stream_version, &mut child.elements, budget)?;
                },
            }
            self.validate_container_cardinality(class, child.elements.len())?;
            let ghost pre_bind = child;
            let ghost pre_state = state;
            match self.bind_reachable_child(parent, &mut child, stream_version)? {
                ChildBinding::Fate(ChildFate::Retain) => {
                    proof {
                        if unaided {
                            let bound = crate::tree::ElementView {
                                version: if pre_state is StrictDefaultStructural {
                                    Some(pre_state->StrictDefaultStructural_to)
                                } else {
                                    original.version
                                },
                                ..original@
                            };
                            assert(pre_bind.version == bound.version);
                            assert(pre_bind.id == original.id && pre_bind.name_crc == original.name_crc);
                            let ca = self.spec_renamed(parent, pre_bind@);
                            let cb = self.spec_renamed(parent, bound);
                            assert(ca.name_crc == cb.name_crc && ca.id == cb.id && ca.version == cb.version
                                && ca.specialization == cb.specialization);
                            assert(Self::spec_child_input(stream_version, ca, Some(parent)) == Self::spec_child_input(
                                stream_version,
                                cb,
                                Some(parent),
                            ));
                            assert(self.spec_reresolved_from(parent, stream_version, original, child));
                        }
                    }
                    let ghost before_push = retained@;
                    retained.push(child);
                    proof {
                        if unaided {
                            assert forall|a: int| 0 <= a < retained@.len() implies exists|j: int|
                                0 <= j < orig.len() && self.spec_reresolved_from(
                                    parent,
                                    stream_version,
                                    orig[j],
                                    #[trigger] retained@[a],
                                ) by {
                                if a < before_push.len() {
                                    assert(retained@[a] == before_push[a]);
                                } else {
                                    assert(retained@[a] == child);
                                    assert(orig[i - 1] == original);
                                }
                            }
                        }
                    }
                },
                ChildBinding::Fate(ChildFate::Skip) => {},
                ChildBinding::ConvertData { target_class, source_type_id, target_type_id } => {
                    let slot = child.name_crc;
                    if !Self::take_budget(budget) {
                        return Err(ObjectStreamError::UnsupportedDataConversion { target_type_id, source_type_id });
                    }
                    match self.rebind_converted_child(
                        converters,
                        parent,
                        target_class,
                        source_type_id,
                        target_type_id,
                        slot,
                        &mut child,
                        stream_version,
                        budget,
                    )? {
                        ChildFate::Retain => {
                            retained.push(child);
                        },
                        ChildFate::Skip => {},
                    }
                },
            }
        }
        assert(orig.subrange(0, i as int) =~= orig);
        *children = retained;
        Ok(())
    }

    /// Run the data converter of the field's class on a reached child, then
    /// re-resolve it and its subtree against the converted identity.
    fn rebind_converted_child<C: ObjectStreamConverters>(
        &self,
        converters: &C,
        parent: ReflectedClassKey,
        target_class: ReflectedClassKey,
        source_type_id: AzUuid,
        target_type_id: AzUuid,
        field_name_crc: Option<u32>,
        child: &mut Element,
        stream_version: u32,
        budget: &mut usize,
    ) -> (r: Result<ChildFate, ObjectStreamError>)
        ensures
            *final(budget) <= *old(budget),
            *old(budget) == 0 ==> (r == Err::<ChildFate, ObjectStreamError>(
                ObjectStreamError::UnsupportedDataConversion { target_type_id, source_type_id },
            ) && *final(child) == *old(child)),
            *old(budget) > 0 && self.spec_class(parent) is None ==> r is Err,
            r matches Ok(ChildFate::Skip) ==> self.spec_unmatched_policy() is NativeSkip,
            r matches Ok(ChildFate::Retain) ==> spec_settled(*self, *final(child)),
            r matches Ok(ChildFate::Retain) ==> (match final(child).resolution.spec_get() {
                TypeResolution::Resolved { type_id, class, edge, .. } => match (
                    self.spec_class(class),
                    self.spec_class(parent),
                ) {
                    (Some(cd), Some(pd)) => {
                        &&& final(child).version == Some(cd.current_version)
                        &&& final(child).version_state == VersionConversionState::Current
                        &&& edge == self.spec_resolved_edge(Some(parent), final(child).name_crc)
                        &&& (crate::context::spec_find_field(pd, field_name_crc) matches Some(f)
                            && self.spec_field_accepts(f, type_id))
                        &&& spec_all_settled(*self, final(child).elements@)
                        &&& self.spec_admits(class, final(child).elements@.len())
                    },
                    _ => false,
                },
                _ => false,
            }),
        decreases *old(budget), spec_size(*old(child)), 0nat,
    {
        if !Self::take_budget(budget) {
            return Err(ObjectStreamError::UnsupportedDataConversion { target_type_id, source_type_id });
        }
        let mut taken = Element::new(AzUuid::nil());
        std::mem::swap(&mut taken, child);
        let converted = converters.convert_data(target_class, taken, source_type_id, target_type_id)?;
        *child = converted;
        self.bind_converted_child(converters, parent, field_name_crc, child, stream_version, budget)
    }

    /// Bind a child that a data converter rewrote to the parent's field
    /// slot `field_name_crc`: re-resolve it, keep it where the field accepts
    /// its type (advanced to its class's current version, with its subtree
    /// re-resolved), and otherwise apply the unmatched-child policy.
    fn bind_converted_child<C: ObjectStreamConverters>(
        &self,
        converters: &C,
        parent: ReflectedClassKey,
        field_name_crc: Option<u32>,
        child: &mut Element,
        stream_version: u32,
        budget: &mut usize,
    ) -> (r: Result<ChildFate, ObjectStreamError>)
        ensures
            *final(budget) <= *old(budget),
            self.spec_class(parent) is None ==> (r matches Err(ObjectStreamError::UnresolvedClassData { class })
                && class == parent),
            ({
                let res = self.spec_resolve(Self::spec_child_input(stream_version, old(child)@, Some(parent)));
                match (self.spec_class(parent), res.type_id, res.class) {
                    (Some(pd), Some(t), Some(k)) => (!(old(child).specialization is Some && (stream_version == 0
                        || stream_version == 1 || stream_version == 3)) && self.spec_payload_supported(
                        k,
                        old(child).data is Some,
                    )) ==> {
                        let accepts = (crate::context::spec_find_field(pd, field_name_crc) matches Some(f)
                            && self.spec_field_accepts(f, t));
                        &&& !accepts && self.spec_unmatched_policy() is NativeSkip ==> r == Ok::<
                            ChildFate,
                            ObjectStreamError,
                        >(ChildFate::Skip)
                        &&& !accepts && self.spec_unmatched_policy() is Fail ==> r is Err
                        &&& accepts ==> (self.spec_unaided_children(k, stream_version, old(child).elements@) matches Some(
                            m,
                        ) ==> (self.spec_admits(k, m) <==> r == Ok::<ChildFate, ObjectStreamError>(ChildFate::Retain)))
                    },
                    _ => true,
                }
            }),
            r matches Ok(ChildFate::Skip) ==> self.spec_unmatched_policy() is NativeSkip,
            r matches Ok(ChildFate::Retain) ==> spec_settled(*self, *final(child)),
            r matches Ok(ChildFate::Retain) ==> (match final(child).resolution.spec_get() {
                TypeResolution::Resolved { type_id, class, edge, .. } => match (
                    self.spec_class(class),
                    self.spec_class(parent),
                ) {
                    (Some(cd), Some(pd)) => {
                        &&& final(child).version == Some(cd.current_version)
                        &&& final(child).version_state == VersionConversionState::Current
                        &&& edge == self.spec_resolved_edge(Some(parent), final(child).name_crc)
                        &&& (crate::context::spec_find_field(pd, field_name_crc) matches Some(f)
                            && self.spec_field_accepts(f, type_id))
                        &&& spec_all_settled(*self, final(child).elements@)
                        &&& self.spec_admits(class, final(child).elements@.len())
                    },
                    _ => false,
                },
                _ => false,
            }),
        decreases *old(budget), spec_size(*old(child)), 0nat,
    {
        let parent_type_id = match self.class(parent) {
            Some(pc) => pc.type_id,
            None => {
                return Err(ObjectStreamError::UnresolvedClassData { class: parent });
            },
        };
        crate::stream::validate_element_specialization(stream_version, child.id, child.specialization)?;
        let input = ResolveTypeInput {
            stream_version,
            raw_type_id: child.id,
            specialization_type_id: child.specialization,
            element_version: match child.version {
                Some(v) => v,
                None => 0,
            },
            name_crc: child.name_crc,
            parent: Some(parent),
        };
        let rebound = self.resolve_type(input);
        proof {
            crate::context::lemma_resolution_names_defined_class(*self, input);
        }
        let (type_id, class) = match (rebound.type_id, rebound.class) {
            (Some(t), Some(k)) => (t, k),
            _ => {
                return Err(ObjectStreamError::UnresolvedElementType { type_id: child.id });
            },
        };
        self.validate_payload_support(class, child.data.is_some())?;
        let accepts = match self.class(parent) {
            Some(pc) => match pc.find_field(field_name_crc) {
                Some(field) => self.field_accepts_type(field, type_id),
                None => false,
            },
            None => false,
        };
        if !accepts {
            return match self.unmatched_child_fate(parent_type_id, type_id, child.name_crc) {
                Ok(fate) => Ok(fate),
                Err(e) => Err(e),
            };
        }
        child.version = Some(self.class_version(class, type_id)?);
        child.version_state = VersionConversionState::Current;
        child.resolution = Resolution::proved(
            TypeResolution::Resolved {
                type_id,
                class,
                edge: self.resolved_edge(Some(parent), child.name_crc),
                enum_type_id: self.resolved_enum_type(Some(parent), child.name_crc, type_id),
                builtin_serializer: rebound.builtin_serializer,
                is_container: rebound.is_container,
                container_shape: rebound.container_shape,
            },
        );
        self.reresolve_descendants_within(converters, class, stream_version, &mut child.elements, budget)?;
        self.validate_container_cardinality(class, child.elements.len())?;
        Ok(ChildFate::Retain)
    }
}

impl ObjectStreamReadContext {
    /// Advance `element` to its current `ClassData` version, running the
    /// owner's registered converter where the class needs one, and return
    /// the class it ends up bound to.
    /// At most `usize::MAX` converter calls are made (see the module docs).
    pub fn convert_element<C: ObjectStreamConverters>(
        &self,
        converters: &C,
        class: ReflectedClassKey,
        state: VersionConversionState,
        element: &mut Element,
        stream_version: u32,
        parent: Option<ReflectedClassKey>,
    ) -> (r: Result<ReflectedClassKey, ObjectStreamError>)
        ensures
            state is StrictDefaultStructural ==> final(element).resolution.spec_get() == old(element).resolution.spec_get(),
            state is StrictDefaultStructural ==> (r matches Ok(k) ==> {
                &&& k == class
                &&& final(element).version == Some(state->StrictDefaultStructural_to)
                &&& final(element).version_state == VersionConversionState::Current
            }),
            state is RegisteredConverter ==> (r matches Ok(k) ==> {
                &&& self.spec_class(k) is Some
                &&& spec_bound(*self, *final(element))
                &&& final(element).resolution.spec_get()->Resolved_class == k
                &&& !(final(element).version_state is RegisteredConverter)
            }),
            state is RegisteredConverter && !self.spec_has_converter(class) ==> (r matches Err(
                ObjectStreamError::UnsupportedVersionConversion { type_id, element_version, current_version },
            ) && type_id == old(element).id && element_version == state->RegisteredConverter_from && current_version
                == state->RegisteredConverter_to),
            (state is StrictDefaultStructural || state is RegisteredConverter) && r is Ok ==> spec_all_settled(
                *self,
                final(element).elements@,
            ),
            !(state is StrictDefaultStructural) && !(state is RegisteredConverter) ==> {
                &&& r == Ok::<ReflectedClassKey, ObjectStreamError>(class)
                &&& final(element)@ == old(element)@
            },
            state is StrictDefaultStructural ==> {
                &&& final(element).id == old(element).id
                &&& final(element).specialization == old(element).specialization
                &&& final(element).name_crc == old(element).name_crc
                &&& final(element).data == old(element).data
            },
            state is StrictDefaultStructural ==> (self.spec_unaided_children(class, stream_version, old(element).elements@)
                matches Some(n) ==> (r == Ok::<ReflectedClassKey, ObjectStreamError>(class)
                && final(element).elements@.len() == n)),
            state is StrictDefaultStructural ==> (self.spec_unaided_children(class, stream_version, old(element).elements@)
                is Some ==> forall|i: int|
                0 <= i < final(element).elements@.len() ==> exists|j: int|
                    0 <= j < old(element).elements@.len() && self.spec_reresolved_from(
                        class,
                        stream_version,
                        old(element).elements@[j],
                        #[trigger] final(element).elements@[i],
                    )),
            state is RegisteredConverter ==> (r matches Ok(k) ==> exists|e: Element|
                #[trigger] spec_version_answer(
                    converters,
                    class,
                    *old(element),
                    state->RegisteredConverter_from,
                    state->RegisteredConverter_to,
                    e,
                ) && self.spec_version_rebound(
                    class,
                    state->RegisteredConverter_from,
                    state->RegisteredConverter_to,
                    old(element).version,
                    e,
                    stream_version,
                    parent,
                    *final(element),
                    k,
                )),
            state is StrictDefaultStructural && r is Ok ==> final(element)@ == (crate::tree::ElementView {
                version: Some(state->StrictDefaultStructural_to),
                version_state: VersionConversionState::Current,
                elements: final(element).elements@,
                ..old(element)@
            }),
    {
        let mut budget: usize = usize::MAX;
        self.convert_element_within(converters, class, state, element, stream_version, parent, &mut budget)
    }

    /// Finish a registered version conversion on the element `element` that
    /// the converter of `source_class` returned (converting from `from` to
    /// `to`; before it ran the element carried `source_version`): check and
    /// resolve it again under `parent`, give it its new version and
    /// conversion state, and re-resolve its subtree.
    /// At most `usize::MAX` converter calls are made (see the module docs).
    pub fn rebind_converted_element<C: ObjectStreamConverters>(
        &self,
        converters: &C,
        source_class: ReflectedClassKey,
        from: u32,
        to: u32,
        source_version: Option<u32>,
        element: &mut Element,
        stream_version: u32,
        parent: Option<ReflectedClassKey>,
    ) -> (r: Result<ReflectedClassKey, ObjectStreamError>)
        ensures
            self.spec_version_rebind(source_class, from, to, source_version, old(element)@, stream_version, parent)
                matches Err(e) ==> r == Err::<ReflectedClassKey, ObjectStreamError>(e),
            r matches Ok(k) ==> {
                &&& self.spec_version_rebound(
                    source_class,
                    from,
                    to,
                    source_version,
                    *old(element),
                    stream_version,
                    parent,
                    *final(element),
                    k,
                )
                &&& self.spec_class(k) is Some
                &&& spec_all_settled(*self, final(element).elements@)
            },
            self.spec_version_rebind(source_class, from, to, source_version, old(element)@, stream_version, parent)
                matches Ok(plan) ==> (self.spec_unaided_children(plan.1, stream_version, old(element).elements@)
                matches Some(n) ==> (r == Ok::<ReflectedClassKey, ObjectStreamError>(plan.1)
                && final(element).elements@.len() == n)),
    {
        let mut budget: usize = usize::MAX;
        self.rebind_converted_element_within(
            converters,
            source_class,
            from,
            to,
            source_version,
            element,
            stream_version,
            parent,
            &mut budget,
        )
    }

    /// The type-lookup input of a root element.
    pub open spec fn spec_root_input(stream_version: u32, e: crate::tree::ElementView) -> ResolveTypeInput {
        ObjectStreamReadContext::spec_child_input(stream_version, e, None)
    }

    /// Resolve a programmatically built DOM against this context: check the
    /// registrations and the stream version, resolve the root (a version-2
    /// root must carry its specialization explicitly), advance it to its
    /// current version and re-resolve every descendant.
    /// At most `usize::MAX` converter calls are made (see the module docs).
    pub fn resolve_element_tree<C: ObjectStreamConverters>(
        &self,
        converters: &C,
        stream_version: u32,
        element: &mut Element,
    ) -> (r: Result<(), ObjectStreamError>)
        ensures
            !self.spec_complete() ==> (r matches Err(ObjectStreamError::IncompleteReadContext(e))
                && self.spec_completeness_error(e)),
            self.spec_complete() && stream_version > 3 ==> (r matches Err(ObjectStreamError::UnsupportedVersion(v)) && v
                == stream_version),
            self.spec_complete() && stream_version == 2 && old(element).specialization is None ==> (r matches Err(
                ObjectStreamError::MissingV2Specialization { type_id },
            ) && type_id == old(element).id),
            self.spec_complete() && stream_version <= 3 && stream_version != 2 && old(element).specialization is Some
                ==> (r matches Err(ObjectStreamError::UnexpectedSpecialization { stream_version: v, type_id }) && v
                == stream_version && type_id == old(element).id),
            ({
                let res = self.spec_resolve(Self::spec_root_input(stream_version, old(element)@));
                let header_ok = self.spec_complete() && stream_version <= 3 && (stream_version == 2
                    <==> old(element).specialization is Some);
                &&& header_ok && res.ambiguous_generic ==> (r matches Err(ObjectStreamError::AmbiguousGenericType {
                    type_id,
                }) && type_id == old(element).id)
                &&& header_ok && !res.ambiguous_generic && res.class is None ==> (r matches Err(
                    ObjectStreamError::UnresolvedElementType { type_id },
                ) && type_id == old(element).id && final(element).resolution.spec_get() == TypeResolution::Unresolved)
            }),
            r is Ok ==> spec_settled(*self, *final(element)) && spec_all_settled(*self, final(element).elements@),
            ({
                let res = self.spec_resolve(Self::spec_root_input(stream_version, old(element)@));
                let header_ok = self.spec_complete() && stream_version <= 3 && (stream_version == 2
                    <==> old(element).specialization is Some);
                let v: u32 = match old(element).version {
                    Some(v) => v,
                    None => 0,
                };
                match (header_ok && !res.ambiguous_generic, res.type_id, res.class) {
                    (true, Some(t), Some(k)) => match self.spec_version_check(k, v) {
                        Err(e) => r == Err::<(), ObjectStreamError>(e),
                        Ok(st) => if st is DeprecatedDiscard {
                            r == Err::<(), ObjectStreamError>(ObjectStreamError::DeprecatedClass { type_id: t })
                        } else {
                            match self.spec_payload_check(k, old(element).data is Some) {
                                Err(e) => r == Err::<(), ObjectStreamError>(e),
                                Ok(_) => !(st is RegisteredConverter) ==> match self.spec_unaided_children(
                                    k,
                                    stream_version,
                                    old(element).elements@,
                                ) {
                                    Some(m) => (r is Ok <==> self.spec_admits(k, m)),
                                    None => true,
                                },
                            }
                        },
                    },
                    _ => true,
                }
            }),
    {
        match self.validate_complete() {
            Ok(()) => {},
            Err(e) => {
                return Err(ObjectStreamError::IncompleteReadContext(e));
            },
        }
        crate::stream::validate_stream_version(stream_version)?;
        if stream_version == 2 && element.specialization.is_none() {
            return Err(ObjectStreamError::MissingV2Specialization { type_id: element.id });
        }
        crate::stream::validate_element_specialization(stream_version, element.id, element.specialization)?;
        let input = ResolveTypeInput {
            stream_version,
            raw_type_id: element.id,
            specialization_type_id: element.specialization,
            element_version: match element.version {
                Some(v) => v,
                None => 0,
            },
            name_crc: element.name_crc,
            parent: None,
        };
        let resolved = self.resolve_type(input);
        proof {
            crate::context::lemma_resolution_names_defined_class(*self, input);
        }
        Self::ensure_unambiguous(resolved, element.id)?;
        let (type_id, class) = match (resolved.type_id, resolved.class) {
            (Some(t), Some(k)) => (t, k),
            _ => {
                element.resolution = Resolution::proved(TypeResolution::Unresolved);
                return Err(ObjectStreamError::UnresolvedElementType { type_id: element.id });
            },
        };
        let state = self.validate_class_version(
            class,
            match element.version {
                Some(v) => v,
                None => 0,
            },
        )?;
        if state.discards_subtree() {
            return Err(ObjectStreamError::DeprecatedClass { type_id });
        }
        self.validate_payload_support(class, element.data.is_some())?;
        element.resolution = Resolution::proved(
            TypeResolution::Resolved {
                type_id,
                class,
                edge: None,
                enum_type_id: self.resolved_enum_type(None, element.name_crc, type_id),
                builtin_serializer: resolved.builtin_serializer,
                is_container: resolved.is_container,
                container_shape: resolved.container_shape,
            },
        );
        element.version_state = state;
        let mut budget: usize = usize::MAX;
        match state {
            VersionConversionState::RegisteredConverter { .. } | VersionConversionState::StrictDefaultStructural {
                ..
            } => {
                self.convert_element_within(converters, class, state, element, stream_version, None, &mut budget)?;
            },
            _ => {
                self.reresolve_descendants_within(converters, class, stream_version, &mut element.elements, &mut budget)?;
            },
        }
        self.validate_container_cardinality(class, element.elements.len())?;
        Ok(())
    }
}

impl ObjectStreamReadContext {
    /// Bind a complete child subtree to its parent's field (see
    /// `bind_reachable_child`); where only the data converter registered
    /// for the field's class can make it fit, run that converter and
    /// re-resolve the rewritten child and its subtree.
    /// At most `usize::MAX` converter calls are made (see the module docs).
    pub fn finalize_reachable_child<C: ObjectStreamConverters>(
        &self,
        converters: &C,
        parent: ReflectedClassKey,
        child: &mut Element,
        stream_version: u32,
    ) -> (r: Result<ChildFate, ObjectStreamError>)
        ensures
            r matches Ok(ChildFate::Retain) ==> spec_bound(*self, *final(child)),
            r matches Ok(ChildFate::Retain) && !(old(child).version_state is RegisteredConverter) ==> spec_settled(
                *self,
                *final(child),
            ),
            ({
                let c1 = self.spec_renamed(parent, old(child)@);
                let res = self.spec_resolve(Self::spec_child_input(stream_version, c1, Some(parent)));
                match (res.type_id, res.class, self.spec_class(parent)) {
                    (Some(t), Some(k), Some(pd)) => match self.spec_bind_outcome(parent, pd, c1, t) {
                        Ok(ChildBinding::Fate(f)) => {
                            &&& r == Ok::<ChildFate, ObjectStreamError>(f)
                            &&& final(child)@ == (crate::tree::ElementView {
                                field: Self::spec_canonical_field(pd, c1),
                                resolution: self.spec_resolved_identity(res, t, k, Some(parent), c1.name_crc),
                                ..c1
                            })
                        },
                        Ok(ChildBinding::ConvertData { .. }) => r matches Ok(ChildFate::Retain) ==> (match final(child).resolution.spec_get() {
                            TypeResolution::Resolved { type_id, class, .. } => match self.spec_class(class) {
                                Some(cd) => {
                                    &&& final(child).version == Some(cd.current_version)
                                    &&& final(child).version_state == VersionConversionState::Current
                                    &&& (crate::context::spec_find_field(pd, c1.name_crc) matches Some(fld)
                                        && self.spec_field_accepts(fld, type_id))
                                },
                                None => false,
                            },
                            _ => false,
                        }),
                        Err(e) => r == Err::<ChildFate, ObjectStreamError>(e),
                    },
                    (Some(_), Some(_), None) => (r matches Err(ObjectStreamError::UnresolvedClassData { class })
                        && class == parent),
                    _ => (r matches Err(ObjectStreamError::UnresolvedElementType { type_id }) && type_id == c1.id),
                }
            }),
    {
        let ghost c1 = self.spec_renamed(parent, child@);
        let ghost input = Self::spec_child_input(stream_version, c1, Some(parent));
        proof {
            crate::context::lemma_resolution_names_defined_class(*self, input);
        }
        match self.bind_reachable_child(parent, child, stream_version)? {
            ChildBinding::Fate(fate) => Ok(fate),
            ChildBinding::ConvertData { target_class, source_type_id, target_type_id } => {
                let slot = child.name_crc;
                let mut budget: usize = usize::MAX;
                self.rebind_converted_child(
                    converters,
                    parent,
                    target_class,
                    source_type_id,
                    target_type_id,
                    slot,
                    child,
                    stream_version,
                    &mut budget,
                )
            },
        }
    }
}

} // verus!
