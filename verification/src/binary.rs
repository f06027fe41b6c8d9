//! The binary `ObjectStream` wire form: the stream header (tag byte and
//! big-endian version), element headers with their payloads, end-of-list
//! bytes, and the reader that drives the element opener and closer over a
//! whole payload.
use vstd::prelude::*;

use crate::az_uuid::AzUuid;
use crate::bytes::spec_be_nat;
use crate::context::ObjectStreamReadContext;
use crate::convert::ObjectStreamConverters;
use crate::error::ObjectStreamError;
use crate::lookup::LumberyardHashes;
use crate::reader::{close_binary_element, open_binary_element, BinaryElementHeader, BinaryListEnd, PendingElement};
use crate::stream::{
    BINARY_STREAM_TAG, MAX_STREAM_VERSION, ST_BINARYFLAG_ELEMENT_END, ST_BINARYFLAG_ELEMENT_HEADER,
    ST_BINARYFLAG_EXTRA_SIZE_FIELD, ST_BINARYFLAG_HAS_NAME, ST_BINARYFLAG_HAS_VALUE, ST_BINARYFLAG_HAS_VERSION,
    ST_BINARY_VALUE_SIZE_MASK, StreamTag,
};
use crate::tree::ObjectStream;

verus! {

/// An `UnexpectedEof` I/O error for a payload that ends inside a header,
/// a payload or before the root terminator.
#[verifier::external_body]
fn truncated_payload_error() -> (r: std::io::Error) {
    std::io::Error::new(std::io::ErrorKind::UnexpectedEof, "truncated ObjectStream payload")
}

/// One binary element header as the wire lays it out.
pub struct HeaderView {
    pub flags: u8,
    pub name_crc: Option<u32>,
    pub version: Option<u32>,
    pub id: AzUuid,
    pub specialization: Option<AzUuid>,
    pub data: Option<Seq<u8>>,
}

/// What one step of the element stream reads at `pos`: an end-of-list
/// byte, or an element header with its payload.
pub enum StepView {
    End,
    Header(HeaderView),
}

/// Why a step cannot be read.
pub enum StepFault {
    /// The payload ends before the step does.
    Truncated,
    /// A non-zero flag byte without the element-header bit.
    Flags(u8),
    /// An extra size field that is not 1, 2 or 4 bytes wide.
    SizeWidth(u8),
}

/// The big-endian `u32` at `at`.
pub open spec fn spec_be_u32_at(b: Seq<u8>, at: int) -> u32 {
    spec_be_nat(b.subrange(at, at + 4)) as u32
}

/// The UUID whose big-endian bytes start at `at`.
pub open spec fn spec_uuid_at(b: Seq<u8>, at: int) -> AzUuid {
    AzUuid { bits: spec_be_nat(b.subrange(at, at + 16)) as u128 }
}

/// The payload of an element whose value fields start at `at`: its size
/// field (inline in the flag byte, or a big-endian extra field of 1, 2
/// or 4 bytes) and the bytes after it; with the position after them.
pub open spec fn spec_value_at(b: Seq<u8>, flags: u8, at: int) -> Result<(Option<Seq<u8>>, int), StepFault> {
    if flags & ST_BINARYFLAG_HAS_VALUE == 0 {
        Ok((None, at))
    } else {
        let w = flags & ST_BINARY_VALUE_SIZE_MASK;
        let sized: Result<(int, int), StepFault> = if flags & ST_BINARYFLAG_EXTRA_SIZE_FIELD != 0 {
            if w != 1 && w != 2 && w != 4 {
                Err(StepFault::SizeWidth(w))
            } else if at + w > b.len() {
                Err(StepFault::Truncated)
            } else {
                Ok((spec_be_nat(b.subrange(at, at + w)) as int, at + w))
            }
        } else {
            Ok((w as int, at))
        };
        match sized {
            Err(f) => Err(f),
            Ok((size, p)) => if p + size > b.len() {
                Err(StepFault::Truncated)
            } else {
                Ok((Some(b.subrange(p, p + size)), p + size))
            },
        }
    }
}

/// The step at `pos` of a stream of version `stream_version`, with the
/// position after it.  A header holds, in order: the flag byte, a
/// big-endian name CRC (when flagged), a version byte (when flagged), the
/// type UUID, the specialization UUID (version-2 streams only) and the
/// value (when flagged).
pub open spec fn spec_step(b: Seq<u8>, pos: int, stream_version: u32) -> Result<(StepView, int), StepFault> {
    if pos < 0 || pos >= b.len() {
        Err(StepFault::Truncated)
    } else {
        let flags = b[pos];
        if flags == ST_BINARYFLAG_ELEMENT_END {
            Ok((StepView::End, pos + 1))
        } else if flags & ST_BINARYFLAG_ELEMENT_HEADER == 0 {
            Err(StepFault::Flags(flags))
        } else {
            let p1 = pos + 1;
            let has_name = flags & ST_BINARYFLAG_HAS_NAME != 0;
            let p2 = if has_name {
                p1 + 4
            } else {
                p1
            };
            let has_version = flags & ST_BINARYFLAG_HAS_VERSION != 0;
            let p3 = if has_version {
                p2 + 1
            } else {
                p2
            };
            let p4 = p3 + 16;
            let p5 = if stream_version == 2 {
                p4 + 16
            } else {
                p4
            };
            if p5 > b.len() {
                Err(StepFault::Truncated)
            } else {
                match spec_value_at(b, flags, p5) {
                    Err(f) => Err(f),
                    Ok((data, next)) => Ok(
                        (
                            StepView::Header(
                                HeaderView {
                                    flags,
                                    name_crc: if has_name {
                                        Some(spec_be_u32_at(b, p1))
                                    } else {
                                        None
                                    },
                                    version: if has_version {
                                        Some(b[p2] as u32)
                                    } else {
                                        None
                                    },
                                    id: spec_uuid_at(b, p3),
                                    specialization: if stream_version == 2 {
                                        Some(spec_uuid_at(b, p4))
                                    } else {
                                        None
                                    },
                                    data,
                                },
                            ),
                            next,
                        ),
                    ),
                }
            }
        }
    }
}

/// The error a step fault is reported as.
pub open spec fn spec_fault_error(f: StepFault, e: ObjectStreamError) -> bool {
    match f {
        StepFault::Truncated => e is Io,
        StepFault::Flags(x) => e == ObjectStreamError::InvalidElementFlags(x),
        StepFault::SizeWidth(x) => e == ObjectStreamError::UnsupportedSizeWidth(x),
    }
}

/// Where the element list open at `pos`, inside `depth` open elements,
/// ends: the position after the root terminator, or the fault that stops
/// the walk.
pub open spec fn spec_list_end(b: Seq<u8>, pos: int, depth: nat, stream_version: u32) -> Result<int, StepFault>
    decreases b.len() - pos,
{
    match spec_step(b, pos, stream_version) {
        Err(f) => Err(f),
        Ok((step, next)) => if next <= pos {
            Err(StepFault::Truncated)
        } else {
            match step {
                StepView::End => if depth == 0 {
                    Ok(next)
                } else {
                    spec_list_end(b, next, (depth - 1) as nat, stream_version)
                },
                StepView::Header(_) => spec_list_end(b, next, depth + 1, stream_version),
            }
        },
    }
}

/// What a binary element step carries: a header and its payload, or an
/// end-of-list byte.
pub enum BinaryStep {
    EndOfList,
    Element { header: BinaryElementHeader, payload: Option<Vec<u8>> },
}

fn read_value(b: &[u8], flags: u8, at: usize) -> (r: Result<(Option<Vec<u8>>, usize), ObjectStreamError>)
    requires
        at <= b@.len(),
    ensures
        match spec_value_at(b@, flags, at as int) {
            Ok((data, next)) => r matches Ok(out) && crate::tree::spec_opt_bytes(out.0) == data && out.1 == next,
            Err(f) => r matches Err(e) && spec_fault_error(f, e),
        },
{
    if flags & ST_BINARYFLAG_HAS_VALUE == 0 {
        return Ok((None, at));
    }
    let w = flags & ST_BINARY_VALUE_SIZE_MASK;
    assert(flags & ST_BINARY_VALUE_SIZE_MASK <= 7) by (bit_vector);
    let (size, p) = if flags & ST_BINARYFLAG_EXTRA_SIZE_FIELD != 0 {
        if w != 1 && w != 2 && w != 4 {
            return Err(ObjectStreamError::UnsupportedSizeWidth(w));
        }
        if w as usize > b.len() - at {
            return Err(ObjectStreamError::Io(truncated_payload_error()));
        }
        let size = crate::bytes::read_be(b, at, w as usize);
        proof {
            crate::bytes::lemma_be_nat_bound(b@.subrange(at as int, at + w));
        }
        (size, at + w as usize)
    } else {
        (w as u64, at)
    };
    if size > (b.len() - p) as u64 {
        return Err(ObjectStreamError::Io(truncated_payload_error()));
    }
    let end = p + size as usize;
    Ok((Some(crate::bytes::copy_range(b, p, end)), end))
}

/// The field name `hashes` gives the name CRC `name_crc`, where it knows it.
pub open spec fn spec_table_field(hashes: Option<&LumberyardHashes>, name_crc: Option<u32>) -> Option<Seq<char>> {
    match (hashes, name_crc) {
        (Some(t), Some(crc)) => t.spec_field_name(crc),
        _ => None,
    }
}

/// The type name `hashes` gives the type `id`; empty where it has none.
pub open spec fn spec_table_type_name(hashes: Option<&LumberyardHashes>, id: AzUuid) -> Seq<char> {
    match hashes {
        Some(t) => match t.spec_type_name(id) {
            Some(n) => n,
            None => Seq::empty(),
        },
        None => Seq::empty(),
    }
}

/// An element carries the names `hashes` gives: the field name of its name
/// CRC (none where the table has none) and the type name of its type id
/// (empty where the table has none).
pub open spec fn spec_carries_table_names(hashes: Option<&LumberyardHashes>, e: crate::tree::ElementView) -> bool {
    &&& e.field == spec_table_field(hashes, e.name_crc)
    &&& e.name == spec_table_type_name(hashes, e.id)
}

/// Every element of `es`, and of every subtree under them, carries the
/// names `hashes` gives.
pub open spec fn spec_tree_named_by(hashes: Option<&LumberyardHashes>, es: Seq<crate::tree::Element>) -> bool
    decreases es,
{
    if es.len() == 0 {
        true
    } else {
        let e = es[es.len() - 1];
        &&& spec_carries_table_names(hashes, e@)
        &&& spec_tree_named_by(hashes, e.elements@)
        &&& spec_tree_named_by(hashes, es.subrange(0, es.len() - 1))
    }
}

/// Every open element of `stack` carries the names `hashes` gives, and so
/// does every subtree already attached under it.
pub open spec fn spec_stack_named_by(hashes: Option<&LumberyardHashes>, stack: Seq<PendingElement>) -> bool {
    forall|i: int|
        0 <= i < stack.len() ==> spec_carries_table_names(hashes, (#[trigger] stack[i]).element@)
            && spec_tree_named_by(hashes, stack[i].element.elements@)
}

proof fn lemma_tree_named_push(hashes: Option<&LumberyardHashes>, es: Seq<crate::tree::Element>, e: crate::tree::Element)
    ensures
        spec_tree_named_by(hashes, es.push(e)) == (spec_tree_named_by(hashes, es) && spec_carries_table_names(
            hashes,
            e@,
        ) && spec_tree_named_by(hashes, e.elements@)),
{
    let s = es.push(e);
    assert(s[s.len() - 1] == e);
    assert(s.subrange(0, s.len() - 1) =~= es);
}

/// Attaching a named subtree to a named stack and stream leaves them named.
proof fn lemma_attach_keeps_names(
    hashes: Option<&LumberyardHashes>,
    old_stack: Seq<PendingElement>,
    new_stack: Seq<PendingElement>,
    old_stream: ObjectStream,
    new_stream: ObjectStream,
    e: crate::tree::Element,
)
    requires
        crate::reader::spec_attached(old_stack, new_stack, old_stream, new_stream, e),
        spec_stack_named_by(hashes, old_stack),
        spec_tree_named_by(hashes, old_stream.elements@),
        spec_carries_table_names(hashes, e@),
        spec_tree_named_by(hashes, e.elements@),
    ensures
        spec_stack_named_by(hashes, new_stack),
        spec_tree_named_by(hashes, new_stream.elements@),
{
    let m = old_stack.len();
    if m > 0 {
        let top = old_stack[m - 1];
        lemma_tree_named_push(hashes, top.element.elements@, e);
        assert(spec_carries_table_names(hashes, top.element@));
        assert forall|i: int| 0 <= i < m implies spec_carries_table_names(hashes, (#[trigger] new_stack[i]).element@)
            && spec_tree_named_by(hashes, new_stack[i].element.elements@) by {
            if i < m - 1 {
                assert(new_stack[i] == old_stack[i]);
            } else {
                assert(new_stack[i].element@.elements == new_stack[i].element.elements@);
            }
        }
    } else {
        lemma_tree_named_push(hashes, old_stream.elements@, e);
    }
}

/// Read the step at `pos` (see `spec_step`).  Field and type names come
/// from `hashes` where it knows the CRC or the type.
pub fn read_step(b: &[u8], pos: usize, stream_version: u32, hashes: Option<&LumberyardHashes>) -> (r: Result<
    (BinaryStep, usize),
    ObjectStreamError,
>)
    ensures
        match spec_step(b@, pos as int, stream_version) {
            Err(f) => r matches Err(e) && spec_fault_error(f, e),
            Ok((StepView::End, next)) => r matches Ok(out) && out.0 is EndOfList && out.1 == next,
            Ok((StepView::Header(h), next)) => r matches Ok(out) && out.1 == next && match out.0 {
                BinaryStep::Element { header, payload } => {
                    &&& header.flags == h.flags
                    &&& header.name_crc == h.name_crc
                    &&& header.version == h.version
                    &&& header.id == h.id
                    &&& header.specialization == h.specialization
                    &&& crate::tree::spec_opt_bytes(payload) == h.data
                    &&& header.data_size == match payload {
                        Some(d) => Some(d.len()),
                        None => None,
                    }
                    &&& crate::tree::spec_opt_text(header.field) == spec_table_field(hashes, h.name_crc)
                    &&& crate::tree::spec_opt_text(header.name) == match hashes {
                        Some(t) => t.spec_type_name(h.id),
                        None => None,
                    }
                },
                BinaryStep::EndOfList => false,
            },
        },
{
    if pos >= b.len() {
        return Err(ObjectStreamError::Io(truncated_payload_error()));
    }
    let flags = b[pos];
    if flags == ST_BINARYFLAG_ELEMENT_END {
        return Ok((BinaryStep::EndOfList, pos + 1));
    }
    if flags & ST_BINARYFLAG_ELEMENT_HEADER == 0 {
        return Err(ObjectStreamError::InvalidElementFlags(flags));
    }
    let n = b.len();
    let p1 = pos + 1;
    let has_name = flags & ST_BINARYFLAG_HAS_NAME != 0;
    let has_version = flags & ST_BINARYFLAG_HAS_VERSION != 0;
    let mut need: usize = 16;
    if has_name {
        need = need + 4;
    }
    if has_version {
        need = need + 1;
    }
    if stream_version == 2 {
        need = need + 16;
    }
    if need > n - p1 {
        return Err(ObjectStreamError::Io(truncated_payload_error()));
    }
    let (name_crc, p2) = if has_name {
        let v = crate::bytes::read_be(b, p1, 4);
        proof {
            crate::bytes::lemma_be_nat_bound(b@.subrange(p1 as int, p1 + 4));
        }
        (Some(v as u32), p1 + 4)
    } else {
        (None, p1)
    };
    let (version, p3) = if has_version {
        (Some(b[p2] as u32), p2 + 1)
    } else {
        (None, p2)
    };
    let id = AzUuid::from_slice(b, p3);
    let p4 = p3 + 16;
    let (specialization, p5) = if stream_version == 2 {
        (Some(AzUuid::from_slice(b, p4)), p4 + 16)
    } else {
        (None, p4)
    };
    let (payload, next) = read_value(b, flags, p5)?;
    let field = match (hashes, name_crc) {
        (Some(h), Some(crc)) => match h.field_name(crc) {
            Some(f) => Some(f.clone()),
            None => None,
        },
        _ => None,
    };
    let name = match hashes {
        Some(h) => match h.name_for_type(&id) {
            Some(t) => Some(t.clone()),
            None => None,
        },
        None => None,
    };
    let data_size = match &payload {
        Some(d) => Some(d.len()),
        None => None,
    };
    let header = BinaryElementHeader { flags, name_crc, version, id, specialization, data_size, name, field };
    Ok((BinaryStep::Element { header, payload }, next))
}

/// The stream version a binary payload's header announces: a zero tag
/// byte and a big-endian `u32`.
pub open spec fn spec_stream_version(b: Seq<u8>) -> u32 {
    spec_be_u32_at(b, 1)
}

/// Read a binary `ObjectStream` payload, resolving its elements through
/// `context` when one is given: check the context is complete, read the
/// stream header (a zero tag byte and a big-endian version no newer than
/// 3), open and close every element until the root terminator, and refuse
/// bytes after it.
#[verifier::loop_isolation(false)]
pub fn read_binary_stream<C: ObjectStreamConverters>(
    bytes: &[u8],
    hashes: Option<&LumberyardHashes>,
    context: Option<&ObjectStreamReadContext>,
    converters: &C,
) -> (r: Result<ObjectStream, ObjectStreamError>)
    ensures
        context matches Some(c) ==> (!c.spec_complete() ==> (r matches Err(ObjectStreamError::IncompleteReadContext(e))
            && c.spec_completeness_error(e))),
        ({
            let ready = match context {
                Some(c) => c.spec_complete(),
                None => true,
            };
            let b = bytes@;
            &&& ready && b.len() == 0 ==> (r matches Err(ObjectStreamError::Io(_)))
            &&& ready && b.len() > 0 && b[0] != BINARY_STREAM_TAG ==> (r matches Err(
                ObjectStreamError::InvalidStreamTag(t),
            ) && t == b[0])
            &&& ready && 0 < b.len() < 5 && b[0] == BINARY_STREAM_TAG ==> (r matches Err(ObjectStreamError::Io(_)))
            &&& ready && b.len() >= 5 && b[0] == BINARY_STREAM_TAG && spec_stream_version(b) > MAX_STREAM_VERSION ==> (
            r matches Err(ObjectStreamError::UnsupportedVersion(v)) && v == spec_stream_version(b))
        }),
        ({
            let b = bytes@;
            let v = spec_stream_version(b);
            context is None && b.len() >= 5 && b[0] == BINARY_STREAM_TAG && v <= MAX_STREAM_VERSION ==> match spec_list_end(
                b,
                5,
                0,
                v,
            ) {
                Err(f) => r matches Err(e) && spec_fault_error(f, e),
                Ok(end) => if end < b.len() {
                    r matches Err(ObjectStreamError::TrailingDataAfterRoot)
                } else {
                    r is Ok
                },
            }
        }),
        context is None ==> (r matches Ok(s) ==> spec_tree_named_by(hashes, s.elements@)),
        r matches Ok(s) ==> {
            &&& bytes@.len() >= 5
            &&& s.tag == StreamTag(BINARY_STREAM_TAG)
            &&& s.version == spec_stream_version(bytes@)
            &&& spec_list_end(bytes@, 5, 0, s.version) == Ok::<int, StepFault>(bytes@.len() as int)
        },
{
    if let Some(c) = context {
        match c.validate_complete() {
            Ok(()) => {},
            Err(e) => {
                return Err(ObjectStreamError::IncompleteReadContext(e));
            },
        }
    }
    if bytes.len() == 0 {
        return Err(ObjectStreamError::Io(crate::error::empty_payload_error()));
    }
    if bytes[0] != BINARY_STREAM_TAG {
        return Err(ObjectStreamError::InvalidStreamTag(bytes[0]));
    }
    if bytes.len() < 5 {
        return Err(ObjectStreamError::Io(truncated_payload_error()));
    }
    let raw = crate::bytes::read_be(bytes, 1, 4);
    proof {
        crate::bytes::lemma_be_nat_bound(bytes@.subrange(1, 5));
    }
    let version = raw as u32;
    if version > MAX_STREAM_VERSION {
        return Err(ObjectStreamError::UnsupportedVersion(version));
    }
    let mut stream = ObjectStream::new(version);
    stream.tag = StreamTag(BINARY_STREAM_TAG);
    let mut stack: Vec<PendingElement> = Vec::new();
    let mut pos: usize = 5;
    let ghost b = bytes@;
    let ghost whole = spec_list_end(b, 5, 0, version);
    loop
        invariant
            5 <= pos <= b.len(),
            stream.tag == StreamTag(BINARY_STREAM_TAG),
            stream.version == version,
            spec_list_end(b, pos as int, stack@.len(), version) == whole,
            context is None ==> spec_stack_named_by(hashes, stack@) && spec_tree_named_by(hashes, stream.elements@),
        decreases b.len() - pos,
    {
        let ghost depth = stack@.len();
        let (step, next) = read_step(bytes, pos, version, hashes)?;
        match step {
            BinaryStep::Element { header, payload } => {
                let pending = open_binary_element(&header, version, hashes, context, stack.as_slice())?;
                let pending = match payload {
                    Some(data) => pending.with_payload(data),
                    None => pending,
                };
                let ghost before = stack@;
                stack.push(pending);
                proof {
                    if context is None {
                        assert(spec_tree_named_by(hashes, pending.element.elements@));
                        assert(spec_carries_table_names(hashes, pending.element@));
                        assert forall|i: int| 0 <= i < stack@.len() implies spec_carries_table_names(
                            hashes,
                            (#[trigger] stack@[i]).element@,
                        ) && spec_tree_named_by(hashes, stack@[i].element.elements@) by {
                            if i < before.len() {
                                assert(stack@[i] == before[i]);
                            }
                        }
                    }
                }
            },
            BinaryStep::EndOfList => {
                let ghost old_stack = stack@;
                let ghost old_stream = stream;
                let end = close_binary_element(&mut stack, &mut stream, context, converters, version)?;
                proof {
                    if context is None && old_stack.len() > 0 {
                        let n = old_stack.len();
                        let pending = old_stack[n - 1];
                        let rest = old_stack.subrange(0, n - 1);
                        assert(spec_stack_named_by(hashes, rest)) by {
                            assert forall|i: int| 0 <= i < rest.len() implies spec_carries_table_names(
                                hashes,
                                (#[trigger] rest[i]).element@,
                            ) && spec_tree_named_by(hashes, rest[i].element.elements@) by {
                                assert(rest[i] == old_stack[i]);
                            }
                        }
                        assert(spec_carries_table_names(hashes, old_stack[n - 1].element@));
                        if !pending.discard_subtree {
                            lemma_attach_keeps_names(hashes, rest, stack@, old_stream, stream, pending.element);
                        }
                    }
                }
                if end == BinaryListEnd::RootTerminator {
                    pos = next;
                    break;
                }
                assert(stack@.len() == depth - 1);
            },
        }
        pos = next;
    }
    if pos != bytes.len() {
        return Err(ObjectStreamError::TrailingDataAfterRoot);
    }
    Ok(stream)
}

} // verus!
