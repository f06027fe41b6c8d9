//! Lowering captured `GenericClassInfo` records: the checks a record must
//! pass and the canonical generic family its specialized UUID belongs to.
//! The specialized UUIDs the AZ type system derives for a family and its
//! arguments come from outside the library (`GenericTypeIdDerivation`);
//! which families are tried, and what a set of matches decides, is here.
use vstd::prelude::*;

use crate::az_uuid::AzUuid;
use crate::context::ContainerShape;
use crate::container::{
    spec_container_shape_for_generic,
    GENERIC_ARRAY_TYPE_ID, GENERIC_FIXED_VECTOR_TYPE_ID, GENERIC_FORWARD_LIST_TYPE_ID, GENERIC_INTRUSIVE_PTR_TYPE_ID,
    GENERIC_LIST_TYPE_ID, GENERIC_MAP_TYPE_ID, GENERIC_OPTIONAL_TYPE_ID, GENERIC_PAIR_TYPE_ID, GENERIC_SET_TYPE_ID,
    GENERIC_SHARED_PTR_TYPE_ID, GENERIC_TUPLE_TYPE_ID, GENERIC_UNIQUE_PTR_TYPE_ID, GENERIC_UNORDERED_MAP_TYPE_ID,
    GENERIC_UNORDERED_SET_TYPE_ID, GENERIC_VECTOR_TYPE_ID,
};

verus! {

/// Why a captured record cannot be lowered.
#[derive(Clone, Copy, Debug, PartialEq, Eq, Structural)]
pub enum CaptureError {
    /// `templatedArgumentCount` matches neither the type arguments nor the
    /// type and non-type arguments together.
    TemplatedArgumentCount { declared: usize, type_arguments: usize, non_type_arguments: usize },
    /// `classDataElementCount` disagrees with the `ClassData`'s elements.
    ClassDataElementCount { expected: usize, actual: usize },
    /// The specialized UUID is the specialization of two generic families.
    AmbiguousGenericFamily { specialized_type_id: AzUuid, first: AzUuid, second: AzUuid },
}

/// A generic family whose specialized UUIDs the AZ type system derives
/// from the template arguments.
#[derive(Clone, Copy, Debug, PartialEq, Eq, Structural)]
pub enum GenericFamily {
    Vector,
    List,
    ForwardList,
    OrderedSet,
    UnorderedSet,
    SharedPtr,
    IntrusivePtr,
    UniquePtr,
    Optional,
    FixedVector,
    Array,
    Pair,
    OrderedMap,
    UnorderedMap,
    Tuple,
}

/// The generic type id of a family.
pub open spec fn spec_family_type_id(f: GenericFamily) -> u128 {
    match f {
        GenericFamily::Vector => GENERIC_VECTOR_TYPE_ID,
        GenericFamily::List => GENERIC_LIST_TYPE_ID,
        GenericFamily::ForwardList => GENERIC_FORWARD_LIST_TYPE_ID,
        GenericFamily::OrderedSet => GENERIC_SET_TYPE_ID,
        GenericFamily::UnorderedSet => GENERIC_UNORDERED_SET_TYPE_ID,
        GenericFamily::SharedPtr => GENERIC_SHARED_PTR_TYPE_ID,
        GenericFamily::IntrusivePtr => GENERIC_INTRUSIVE_PTR_TYPE_ID,
        GenericFamily::UniquePtr => GENERIC_UNIQUE_PTR_TYPE_ID,
        GenericFamily::Optional => GENERIC_OPTIONAL_TYPE_ID,
        GenericFamily::FixedVector => GENERIC_FIXED_VECTOR_TYPE_ID,
        GenericFamily::Array => GENERIC_ARRAY_TYPE_ID,
        GenericFamily::Pair => GENERIC_PAIR_TYPE_ID,
        GenericFamily::OrderedMap => GENERIC_MAP_TYPE_ID,
        GenericFamily::UnorderedMap => GENERIC_UNORDERED_MAP_TYPE_ID,
        GenericFamily::Tuple => GENERIC_TUPLE_TYPE_ID,
    }
}

impl GenericFamily {
    /// The family's generic type id.
    pub fn type_id(self) -> (r: AzUuid)
        ensures
            r.bits == spec_family_type_id(self),
    {
        let bits = match self {
            GenericFamily::Vector => GENERIC_VECTOR_TYPE_ID,
            GenericFamily::List => GENERIC_LIST_TYPE_ID,
            GenericFamily::ForwardList => GENERIC_FORWARD_LIST_TYPE_ID,
            GenericFamily::OrderedSet => GENERIC_SET_TYPE_ID,
            GenericFamily::UnorderedSet => GENERIC_UNORDERED_SET_TYPE_ID,
            GenericFamily::SharedPtr => GENERIC_SHARED_PTR_TYPE_ID,
            GenericFamily::IntrusivePtr => GENERIC_INTRUSIVE_PTR_TYPE_ID,
            GenericFamily::UniquePtr => GENERIC_UNIQUE_PTR_TYPE_ID,
            GenericFamily::Optional => GENERIC_OPTIONAL_TYPE_ID,
            GenericFamily::FixedVector => GENERIC_FIXED_VECTOR_TYPE_ID,
            GenericFamily::Array => GENERIC_ARRAY_TYPE_ID,
            GenericFamily::Pair => GENERIC_PAIR_TYPE_ID,
            GenericFamily::OrderedMap => GENERIC_MAP_TYPE_ID,
            GenericFamily::UnorderedMap => GENERIC_UNORDERED_MAP_TYPE_ID,
            GenericFamily::Tuple => GENERIC_TUPLE_TYPE_ID,
        };
        AzUuid { bits }
    }
}

/// Each family names its own AZStd generic type id (`AZStd::set` the
/// ordered-set id, `AZStd::unordered_set` the unordered-set id, and so on),
/// and the container classification places that id in the family's shape.
pub proof fn lemma_family_type_ids(f: GenericFamily)
    ensures
        f == GenericFamily::Vector ==> spec_family_type_id(f) == GENERIC_VECTOR_TYPE_ID,
        f == GenericFamily::List ==> spec_family_type_id(f) == GENERIC_LIST_TYPE_ID,
        f == GenericFamily::ForwardList ==> spec_family_type_id(f) == GENERIC_FORWARD_LIST_TYPE_ID,
        f == GenericFamily::OrderedSet ==> spec_family_type_id(f) == GENERIC_SET_TYPE_ID,
        f == GenericFamily::UnorderedSet ==> spec_family_type_id(f) == GENERIC_UNORDERED_SET_TYPE_ID,
        f == GenericFamily::SharedPtr ==> spec_family_type_id(f) == GENERIC_SHARED_PTR_TYPE_ID,
        f == GenericFamily::IntrusivePtr ==> spec_family_type_id(f) == GENERIC_INTRUSIVE_PTR_TYPE_ID,
        f == GenericFamily::UniquePtr ==> spec_family_type_id(f) == GENERIC_UNIQUE_PTR_TYPE_ID,
        f == GenericFamily::Optional ==> spec_family_type_id(f) == GENERIC_OPTIONAL_TYPE_ID,
        f == GenericFamily::FixedVector ==> spec_family_type_id(f) == GENERIC_FIXED_VECTOR_TYPE_ID,
        f == GenericFamily::Array ==> spec_family_type_id(f) == GENERIC_ARRAY_TYPE_ID,
        f == GenericFamily::Pair ==> spec_family_type_id(f) == GENERIC_PAIR_TYPE_ID,
        f == GenericFamily::OrderedMap ==> spec_family_type_id(f) == GENERIC_MAP_TYPE_ID,
        f == GenericFamily::UnorderedMap ==> spec_family_type_id(f) == GENERIC_UNORDERED_MAP_TYPE_ID,
        f == GenericFamily::Tuple ==> spec_family_type_id(f) == GENERIC_TUPLE_TYPE_ID,
        spec_container_shape_for_generic(AzUuid { bits: spec_family_type_id(f) }) == Some(
            match f {
                GenericFamily::Vector | GenericFamily::List | GenericFamily::ForwardList | GenericFamily::FixedVector
                | GenericFamily::Array => ContainerShape::Sequence,
                GenericFamily::OrderedSet | GenericFamily::UnorderedSet => ContainerShape::SetFamily,
                GenericFamily::OrderedMap | GenericFamily::UnorderedMap => ContainerShape::MapFamily,
                GenericFamily::SharedPtr | GenericFamily::IntrusivePtr | GenericFamily::UniquePtr =>
                    ContainerShape::SmartPointer,
                GenericFamily::Optional => ContainerShape::Optional,
                GenericFamily::Pair => ContainerShape::Pair,
                GenericFamily::Tuple => ContainerShape::Tuple,
            },
        ),
{
}

/// Distinct families have distinct generic type ids.
pub proof fn lemma_family_type_id_injective(a: GenericFamily, b: GenericFamily)
    ensures
        spec_family_type_id(a) == spec_family_type_id(b) ==> a == b,
{
}

/// The specialized UUIDs the AZ type system derives for a generic family
/// from its type arguments (and, for fixed-capacity families, the
/// capacity).
pub trait GenericTypeIdDerivation {
    /// The specialized UUID of `family` over `arguments`, where the type
    /// system derives one.
    fn specialized_type_id(&self, family: GenericFamily, arguments: &[AzUuid], capacity: Option<usize>) -> Option<
        AzUuid,
    >;
}

/// The capacity the first non-type template argument gives, where it
/// fits in `usize`.
pub open spec fn spec_capacity(non_type_arguments: Seq<u64>) -> Option<usize> {
    if non_type_arguments.len() > 0 && non_type_arguments[0] <= usize::MAX {
        Some(non_type_arguments[0] as usize)
    } else {
        None
    }
}

/// The families whose specialization a record with `type_arguments` type
/// arguments (and first non-type argument `capacity`) may be, in the
/// order they are tried.
pub open spec fn spec_candidate_families(type_arguments: nat, capacity: Option<usize>) -> Seq<GenericFamily> {
    let by_arity = if type_arguments == 1 {
        seq![
            GenericFamily::Vector,
            GenericFamily::List,
            GenericFamily::ForwardList,
            GenericFamily::OrderedSet,
            GenericFamily::UnorderedSet,
            GenericFamily::SharedPtr,
            GenericFamily::IntrusivePtr,
            GenericFamily::UniquePtr,
            GenericFamily::Optional,
        ] + if capacity is Some {
            seq![GenericFamily::FixedVector, GenericFamily::Array]
        } else {
            Seq::empty()
        }
    } else if type_arguments == 2 {
        seq![GenericFamily::Pair, GenericFamily::OrderedMap, GenericFamily::UnorderedMap]
    } else {
        Seq::empty()
    };
    by_arity.push(GenericFamily::Tuple)
}

/// The capacity the first non-type template argument gives.
pub fn capacity_of(non_type_arguments: &[u64]) -> (r: Option<usize>)
    ensures
        r == spec_capacity(non_type_arguments@),
{
    if non_type_arguments.len() > 0 && non_type_arguments[0] <= usize::MAX as u64 {
        Some(non_type_arguments[0] as usize)
    } else {
        None
    }
}

/// The families tried for a record (see `spec_candidate_families`).
pub fn candidate_families(type_arguments: usize, capacity: Option<usize>) -> (r: Vec<GenericFamily>)
    ensures
        r@ == spec_candidate_families(type_arguments as nat, capacity),
{
    let mut out: Vec<GenericFamily> = Vec::new();
    if type_arguments == 1 {
        out.push(GenericFamily::Vector);
        out.push(GenericFamily::List);
        out.push(GenericFamily::ForwardList);
        out.push(GenericFamily::OrderedSet);
        out.push(GenericFamily::UnorderedSet);
        out.push(GenericFamily::SharedPtr);
        out.push(GenericFamily::IntrusivePtr);
        out.push(GenericFamily::UniquePtr);
        out.push(GenericFamily::Optional);
        if capacity.is_some() {
            out.push(GenericFamily::FixedVector);
            out.push(GenericFamily::Array);
        }
    } else if type_arguments == 2 {
        out.push(GenericFamily::Pair);
        out.push(GenericFamily::OrderedMap);
        out.push(GenericFamily::UnorderedMap);
    }
    out.push(GenericFamily::Tuple);
    proof {
        let c = spec_candidate_families(type_arguments as nat, capacity);
        assert(out@ =~= c);
    }
    out
}

/// The families of `derived` whose derived UUID is `specialized`, in order.
pub open spec fn spec_matching_families(derived: Seq<(GenericFamily, Option<AzUuid>)>, specialized: AzUuid) -> Seq<
    GenericFamily,
>
    decreases derived.len(),
{
    if derived.len() == 0 {
        Seq::empty()
    } else {
        let rest = spec_matching_families(derived.drop_last(), specialized);
        if derived.last().1 == Some(specialized) {
            rest.push(derived.last().0)
        } else {
            rest
        }
    }
}

/// An explicit generic type id a record carries, unless it is nil.
pub open spec fn spec_explicit_generic(generic_type_id: Option<AzUuid>) -> Option<AzUuid> {
    match generic_type_id {
        Some(g) => if g.bits != 0 {
            Some(g)
        } else {
            None
        },
        None => None,
    }
}

/// What the canonical generic type id is, given the specialized UUIDs
/// derived for the candidate families: the record's own non-nil generic
/// id; else the one family the specialized UUID matches; none where it
/// matches no family; an error where it matches two.
pub open spec fn spec_canonical_generic(
    generic_type_id: Option<AzUuid>,
    specialized: AzUuid,
    derived: Seq<(GenericFamily, Option<AzUuid>)>,
) -> Result<Option<AzUuid>, CaptureError> {
    let m = spec_matching_families(derived, specialized);
    if spec_explicit_generic(generic_type_id) is Some {
        Ok(spec_explicit_generic(generic_type_id))
    } else if m.len() == 0 {
        Ok(None)
    } else if forall|i: int| 0 <= i < m.len() ==> #[trigger] m[i] == m[0] {
        Ok(Some(AzUuid { bits: spec_family_type_id(m[0]) }))
    } else {
        let i = choose|i: int| 0 <= i < m.len() && #[trigger] m[i] != m[0] && forall|j: int| 0 <= j < i ==> #[trigger] m[j] == m[0];
        Err(CaptureError::AmbiguousGenericFamily {
            specialized_type_id: specialized,
            first: AzUuid { bits: spec_family_type_id(m[0]) },
            second: AzUuid { bits: spec_family_type_id(m[i]) },
        })
    }
}

/// Decide the canonical generic type id of a record with generic id
/// `generic_type_id` and specialized UUID `specialized`, given the
/// specialized UUIDs `derived` for its candidate families.
pub fn choose_canonical_generic(
    generic_type_id: Option<AzUuid>,
    specialized: AzUuid,
    derived: &[(GenericFamily, Option<AzUuid>)],
) -> (r: Result<Option<AzUuid>, CaptureError>)
    ensures
        r == spec_canonical_generic(generic_type_id, specialized, derived@),
{
    if let Some(g) = generic_type_id {
        if !g.is_nil() {
            return Ok(Some(g));
        }
    }
    let mut found: Option<GenericFamily> = None;
    let mut i: usize = 0;
    while i < derived.len()
        invariant
            i <= derived@.len(),
            spec_explicit_generic(generic_type_id) is None,
            ({
                let m = spec_matching_families(derived@.subrange(0, i as int), specialized);
                &&& (m.len() == 0 <==> found is None)
                &&& (found matches Some(f) ==> m[0] == f)
                &&& forall|k: int| 0 <= k < m.len() ==> #[trigger] m[k] == m[0]
            }),
        decreases derived.len() - i,
    {
        let ghost before = spec_matching_families(derived@.subrange(0, i as int), specialized);
        proof {
            let pre = derived@.subrange(0, i + 1);
            assert(pre.drop_last() =~= derived@.subrange(0, i as int));
            assert(pre.last() == derived@[i as int]);
        }
        let (family, id) = derived[i];
        if id == Some(specialized) {
            match found {
                None => {
                    found = Some(family);
                },
                Some(first) => {
                    if first != family {
                        proof {
                            let m = spec_matching_families(derived@, specialized);
                            lemma_matching_prefix(derived@, specialized, i as int + 1);
                            let now = spec_matching_families(derived@.subrange(0, i + 1), specialized);
                            assert(now == before.push(family));
                            assert(now.len() <= m.len());
                            assert forall|k: int| 0 <= k < now.len() implies #[trigger] m[k] == now[k] by {}
                            let j = before.len() as int;
                            assert(m[j] != m[0]);
                            assert forall|k: int| 0 <= k < j implies #[trigger] m[k] == m[0] by {
                                assert(m[k] == before[k]);
                            }
                            lemma_first_mismatch(m, j);
                        }
                        return Err(CaptureError::AmbiguousGenericFamily {
                            specialized_type_id: specialized,
                            first: first.type_id(),
                            second: family.type_id(),
                        });
                    }
                },
            }
        }
        i = i + 1;
    }
    proof {
        assert(derived@.subrange(0, derived@.len() as int) =~= derived@);
    }
    match found {
        None => Ok(None),
        Some(f) => Ok(Some(f.type_id())),
    }
}

/// A record without a generic id of its own whose specialized UUID was
/// derived for one family `f` only (once or more) lowers to `f`'s generic
/// type id.
pub proof fn lemma_single_family_lowers_to_it(
    generic_type_id: Option<AzUuid>,
    specialized: AzUuid,
    derived: Seq<(GenericFamily, Option<AzUuid>)>,
    f: GenericFamily,
)
    requires
        spec_explicit_generic(generic_type_id) is None,
        exists|i: int| 0 <= i < derived.len() && #[trigger] derived[i] == (f, Some(specialized)),
        forall|i: int| 0 <= i < derived.len() && (#[trigger] derived[i]).1 == Some(specialized) ==> derived[i].0 == f,
    ensures
        spec_canonical_generic(generic_type_id, specialized, derived) == Ok::<Option<AzUuid>, CaptureError>(
            Some(AzUuid { bits: spec_family_type_id(f) }),
        ),
{
    lemma_matches_only(derived, specialized, f);
    let m = spec_matching_families(derived, specialized);
    assert(m[0] == f);
}

/// The matches of `derived` are all `f` where only `f` was derived as
/// `specialized`, and there is one where `f` was.
proof fn lemma_matches_only(derived: Seq<(GenericFamily, Option<AzUuid>)>, specialized: AzUuid, f: GenericFamily)
    requires
        forall|i: int| 0 <= i < derived.len() && (#[trigger] derived[i]).1 == Some(specialized) ==> derived[i].0 == f,
    ensures
        ({
            let m = spec_matching_families(derived, specialized);
            &&& forall|k: int| 0 <= k < m.len() ==> #[trigger] m[k] == f
            &&& (exists|i: int| 0 <= i < derived.len() && #[trigger] derived[i] == (f, Some(specialized))) ==> m.len() > 0
        }),
    decreases derived.len(),
{
    if derived.len() > 0 {
        let d = derived.drop_last();
        assert forall|i: int| 0 <= i < d.len() && (#[trigger] d[i]).1 == Some(specialized) implies d[i].0 == f by {
            assert(d[i] == derived[i]);
        }
        lemma_matches_only(d, specialized, f);
        if exists|i: int| 0 <= i < derived.len() && #[trigger] derived[i] == (f, Some(specialized)) {
            let i = choose|i: int| 0 <= i < derived.len() && #[trigger] derived[i] == (f, Some(specialized));
            if i < d.len() {
                assert(d[i] == derived[i]);
            }
        }
    }
}

/// The matches of a prefix of `derived` begin the matches of `derived`.
proof fn lemma_matching_prefix(derived: Seq<(GenericFamily, Option<AzUuid>)>, specialized: AzUuid, n: int)
    requires
        0 <= n <= derived.len(),
    ensures
        ({
            let p = spec_matching_families(derived.subrange(0, n), specialized);
            let m = spec_matching_families(derived, specialized);
            &&& p.len() <= m.len()
            &&& forall|k: int| 0 <= k < p.len() ==> #[trigger] m[k] == p[k]
        }),
    decreases derived.len() - n,
{
    if n < derived.len() {
        lemma_matching_prefix(derived, specialized, n + 1);
        let q = derived.subrange(0, n + 1);
        assert(q.drop_last() =~= derived.subrange(0, n));
    } else {
        assert(derived.subrange(0, n) =~= derived);
    }
}

/// With `m[j]` the first entry unlike `m[0]`, the specification's choice
/// names the same pair of families.
proof fn lemma_first_mismatch(m: Seq<GenericFamily>, j: int)
    requires
        0 < j < m.len(),
        m[j] != m[0],
        forall|k: int| 0 <= k < j ==> #[trigger] m[k] == m[0],
    ensures
        ({
            let i = choose|i: int| 0 <= i < m.len() && #[trigger] m[i] != m[0] && forall|k: int| 0 <= k < i ==> #[trigger] m[k] == m[0];
            i == j
        }),
{
    let i = choose|i: int| 0 <= i < m.len() && #[trigger] m[i] != m[0] && forall|k: int| 0 <= k < i ==> #[trigger] m[k] == m[0];
    assert(0 <= j < m.len() && m[j] != m[0] && forall|k: int| 0 <= k < j ==> #[trigger] m[k] == m[0]);
    if i < j {
        assert(m[i] == m[0]);
    }
    if j < i {
        assert(m[j] == m[0]);
    }
}

/// The families of a list of derived specialized UUIDs.
pub open spec fn spec_families_of(derived: Seq<(GenericFamily, Option<AzUuid>)>) -> Seq<GenericFamily> {
    derived.map_values(|d: (GenericFamily, Option<AzUuid>)| d.0)
}

/// The generic-class facts a captured `GenericClassInfo` record gives, as
/// plain values.
#[derive(Debug)]
pub struct CapturedGenericRecord {
    pub templated_argument_count: usize,
    pub templated_type_ids: Vec<AzUuid>,
    pub non_type_template_arguments: Vec<u64>,
    pub registered_type_ids: Vec<AzUuid>,
    /// The identity of the record's `ClassData`.
    pub class_data_id: String,
    pub class_name: Option<String>,
    /// The record's `classDataElementCount`, where it gives one.
    pub class_data_element_count: Option<usize>,
    /// How many elements the `ClassData` holds.
    pub class_data_elements: usize,
    pub specialized_type_id: AzUuid,
    pub generic_type_id: Option<AzUuid>,
    pub legacy_specialized_type_id: Option<AzUuid>,
}

/// A lowered `GenericClassInfo`: the record with its canonical generic
/// type id.
#[derive(Debug)]
pub struct GenericMetadata {
    pub class_data_id: String,
    pub class_name: Option<String>,
    pub registered_type_ids: Vec<AzUuid>,
    pub templated_type_ids: Vec<AzUuid>,
    pub specialized_type_id: AzUuid,
    pub generic_type_id: Option<AzUuid>,
    pub legacy_specialized_type_id: Option<AzUuid>,
    pub non_type_template_arguments: Vec<u64>,
}

/// `d` pairs each of its families with what `derivation` answered for it
/// over `arguments` and `capacity`.
pub open spec fn spec_derived_by<D: GenericTypeIdDerivation>(
    derivation: &D,
    arguments: &[AzUuid],
    capacity: Option<usize>,
    d: Seq<(GenericFamily, Option<AzUuid>)>,
) -> bool {
    forall|i: int|
        #![trigger d[i]]
        0 <= i < d.len() ==> call_ensures(D::specialized_type_id, (derivation, d[i].0, arguments, capacity), d[i].1)
}

/// The canonical generic type id of a record: its own non-nil generic id,
/// else the family among its candidates whose derived specialized UUID is
/// the record's (see `spec_canonical_generic`).  The derived UUIDs come
/// from `derivation`; whatever it answers, the result is the decision for
/// some answer for exactly the candidate families.
pub fn canonical_generic_type_id<D: GenericTypeIdDerivation>(
    templated_type_ids: &[AzUuid],
    non_type_template_arguments: &[u64],
    specialized_type_id: AzUuid,
    generic_type_id: Option<AzUuid>,
    derivation: &D,
) -> (r: Result<Option<AzUuid>, CaptureError>)
    ensures
        spec_explicit_generic(generic_type_id) is Some ==> r == Ok::<Option<AzUuid>, CaptureError>(
            spec_explicit_generic(generic_type_id),
        ),
        exists|d: Seq<(GenericFamily, Option<AzUuid>)>|
            spec_families_of(d) == spec_candidate_families(
                templated_type_ids@.len(),
                spec_capacity(non_type_template_arguments@),
            ) && spec_derived_by(derivation, templated_type_ids, spec_capacity(non_type_template_arguments@), d) && r
                == #[trigger] spec_canonical_generic(generic_type_id, specialized_type_id, d),
{
    let capacity = capacity_of(non_type_template_arguments);
    let families = candidate_families(templated_type_ids.len(), capacity);
    let mut derived: Vec<(GenericFamily, Option<AzUuid>)> = Vec::new();
    let mut i: usize = 0;
    while i < families.len()
        invariant
            i <= families@.len(),
            derived@.len() == i,
            spec_families_of(derived@) == families@.subrange(0, i as int),
            capacity == spec_capacity(non_type_template_arguments@),
            spec_derived_by(derivation, templated_type_ids, capacity, derived@),
        decreases families.len() - i,
    {
        let family = families[i];
        let id = derivation.specialized_type_id(family, templated_type_ids, capacity);
        let ghost old_d = derived@;
        derived.push((family, id));
        proof {
            assert(spec_families_of(derived@).len() == i + 1);
            assert forall|k: int| 0 <= k < i + 1 implies #[trigger] spec_families_of(derived@)[k] == families@.subrange(
                0,
                i + 1,
            )[k] by {
                if k < i {
                    assert(derived@[k] == old_d[k]);
                    assert(spec_families_of(old_d)[k] == families@.subrange(0, i as int)[k]);
                }
            }
            assert(spec_families_of(derived@) =~= families@.subrange(0, i + 1));
            assert forall|k: int|
                #![trigger derived@[k]]
                0 <= k < derived@.len() implies call_ensures(
                D::specialized_type_id,
                (derivation, derived@[k].0, templated_type_ids, capacity),
                derived@[k].1,
            ) by {
                if k < i {
                    assert(derived@[k] == old_d[k]);
                }
            }
        }
        i = i + 1;
    }
    proof {
        assert(families@.subrange(0, families@.len() as int) =~= families@);
    }
    choose_canonical_generic(generic_type_id, specialized_type_id, derived.as_slice())
}

/// The error a record's argument and element counts give, if any.
pub open spec fn spec_record_check(
    templated_argument_count: usize,
    type_arguments: nat,
    non_type_arguments: nat,
    class_data_element_count: Option<usize>,
    class_data_elements: usize,
) -> Option<CaptureError> {
    if templated_argument_count != type_arguments && templated_argument_count != type_arguments + non_type_arguments {
        Some(CaptureError::TemplatedArgumentCount {
            declared: templated_argument_count,
            type_arguments: type_arguments as usize,
            non_type_arguments: non_type_arguments as usize,
        })
    } else if class_data_element_count matches Some(expected) && expected != class_data_elements {
        Some(CaptureError::ClassDataElementCount {
            expected: class_data_element_count->0,
            actual: class_data_elements,
        })
    } else {
        None
    }
}

/// Check a captured `GenericClassInfo` record and lower it: its declared
/// argument count must be its type arguments, or its type and non-type
/// arguments together; a declared `ClassData` element count must match;
/// then its generic type id becomes the canonical one.
pub fn parse_generic_metadata<D: GenericTypeIdDerivation>(record: CapturedGenericRecord, derivation: &D) -> (r: Result<
    GenericMetadata,
    CaptureError,
>)
    ensures
        ({
            let check = spec_record_check(
                record.templated_argument_count,
                record.templated_type_ids@.len(),
                record.non_type_template_arguments@.len(),
                record.class_data_element_count,
                record.class_data_elements,
            );
            &&& (check matches Some(e) ==> r == Err::<GenericMetadata, CaptureError>(e))
            &&& (check is None ==> exists|d: Seq<(GenericFamily, Option<AzUuid>)>, arguments: &[AzUuid]|
                #![trigger spec_derived_by(derivation, arguments, spec_capacity(record.non_type_template_arguments@), d)]
                arguments@ == record.templated_type_ids@ && spec_families_of(d) == spec_candidate_families(
                    record.templated_type_ids@.len(),
                    spec_capacity(record.non_type_template_arguments@),
                ) && spec_derived_by(derivation, arguments, spec_capacity(record.non_type_template_arguments@), d)
                    && match spec_canonical_generic(
                    record.generic_type_id,
                    record.specialized_type_id,
                    d,
                ) {
                    Err(e) => r == Err::<GenericMetadata, CaptureError>(e),
                    Ok(g) => r matches Ok(m) && m.generic_type_id == g,
                })
        }),
        r matches Ok(m) ==> {
            &&& m.class_data_id@ == record.class_data_id@
            &&& crate::tree::spec_opt_text(m.class_name) == crate::tree::spec_opt_text(record.class_name)
            &&& m.registered_type_ids@ == record.registered_type_ids@
            &&& m.templated_type_ids@ == record.templated_type_ids@
            &&& m.specialized_type_id == record.specialized_type_id
            &&& m.legacy_specialized_type_id == record.legacy_specialized_type_id
            &&& m.non_type_template_arguments@ == record.non_type_template_arguments@
        },
{
    let type_arguments = record.templated_type_ids.len();
    let non_type_arguments = record.non_type_template_arguments.len();
    let declared = record.templated_argument_count;
    let fits = declared == type_arguments || (declared >= type_arguments && declared - type_arguments
        == non_type_arguments);
    if !fits {
        return Err(CaptureError::TemplatedArgumentCount { declared, type_arguments, non_type_arguments });
    }
    if let Some(expected) = record.class_data_element_count {
        if expected != record.class_data_elements {
            return Err(CaptureError::ClassDataElementCount { expected, actual: record.class_data_elements });
        }
    }
    let generic_type_id = canonical_generic_type_id(
        record.templated_type_ids.as_slice(),
        record.non_type_template_arguments.as_slice(),
        record.specialized_type_id,
        record.generic_type_id,
        derivation,
    )?;
    Ok(GenericMetadata {
        class_data_id: record.class_data_id,
        class_name: record.class_name,
        registered_type_ids: record.registered_type_ids,
        templated_type_ids: record.templated_type_ids,
        specialized_type_id: record.specialized_type_id,
        generic_type_id,
        legacy_specialized_type_id: record.legacy_specialized_type_id,
        non_type_template_arguments: record.non_type_template_arguments,
    })
}

} // verus!
