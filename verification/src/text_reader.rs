//! Reading XML and JSON `ObjectStream` elements.  The document is parsed
//! outside the library into `TextElement`s; here each element is checked,
//! resolved against an optional read context, its serializer text decoded,
//! and its subtree read, converted and bound as the binary reader does.
use vstd::prelude::*;

use crate::az_uuid::AzUuid;
use crate::codec::{
    builtin_kind_of, spec_builtin_lookup, BuiltinSerializerKind, BuiltinValueCodec, EncodedPayload, TextEncoding,
    ValueCodecError,
};
use crate::context::{
    ChildBinding, ChildFate, ElementFate, ObjectStreamReadContext, ReflectedClassKey, RegisteredCodec, ResolveTypeInput,
    ResolvedType, VersionConversionState,
};
use crate::convert::ObjectStreamConverters;
use crate::error::ObjectStreamError;
use crate::lookup::LumberyardHashes;
use crate::stream::PayloadEncoding;
use crate::tree::{Element, ObjectStream, Resolution, TypeResolution};

verus! {

/// The `value` slot of a text element: serializer text, or (in JSON) a
/// value that is not a string.
#[derive(Debug)]
pub enum TextValue {
    Text(String),
    Other,
}

/// One XML `Class` or JSON `Objects` element as its document spells it.
#[derive(Debug)]
pub struct TextElement {
    pub name: String,
    pub field: Option<String>,
    pub value: Option<TextValue>,
    pub version: Option<u32>,
    pub id: AzUuid,
    pub specialization: Option<AzUuid>,
    pub children: Vec<TextElement>,
}

/// Number of elements in a text subtree.
pub open spec fn spec_text_size(e: TextElement) -> nat
    decreases e,
{
    1 + spec_text_size_list(e.children@)
}

/// One plus the number of elements in a list of text subtrees.
pub open spec fn spec_text_size_list(l: Seq<TextElement>) -> nat
    decreases l,
{
    if l.len() == 0 {
        1
    } else {
        spec_text_size_list(l.subrange(0, l.len() - 1)) + spec_text_size(l[l.len() - 1])
    }
}

proof fn lemma_text_size_list_member(l: Seq<TextElement>, i: int)
    requires
        0 <= i < l.len(),
    ensures
        spec_text_size(l[i]) < spec_text_size_list(l),
    decreases l.len(),
{
    let init = l.subrange(0, l.len() - 1);
    assert(spec_text_size_list(l) == spec_text_size_list(init) + spec_text_size(l[l.len() - 1]));
    lemma_text_size_list_positive(init);
    if i < l.len() - 1 {
        lemma_text_size_list_member(init, i);
        assert(init[i] == l[i]);
    }
}

proof fn lemma_text_size_list_positive(l: Seq<TextElement>)
    ensures
        spec_text_size_list(l) >= 1,
    decreases l.len(),
{
    if l.len() > 0 {
        lemma_text_size_list_positive(l.subrange(0, l.len() - 1));
    }
}

/// The serializer work a text read hands to code outside the library:
/// codecs registered as executables and the floating-point builtin
/// serializers.
pub trait ObjectStreamTextCodecs {
    /// Decode `text` with the executable codec registered for `class`.
    fn external_text_to_data(
        &self,
        class: ReflectedClassKey,
        type_id: AzUuid,
        text: &str,
        element_version: u32,
        encoding: TextEncoding,
    ) -> Result<EncodedPayload, ValueCodecError>;

    /// Load floating-point serializer text into native payload bytes with
    /// the builtin serializer `descriptor`.
    fn float_text_to_data(
        &self,
        descriptor: crate::codec::BuiltinSerializerDescriptor,
        text: &str,
    ) -> Result<EncodedPayload, ValueCodecError>;

}

/// `name` spells a type rather than a field: one of the intrinsic type
/// names given for `type_id`, a qualified name, or a template name.
pub open spec fn spec_names_type(type_id: AzUuid, name: Seq<char>, intrinsic: Seq<(AzUuid, &str)>) -> bool {
    ||| exists|i: int| 0 <= i < intrinsic.len() && #[trigger] intrinsic[i].0 == type_id && intrinsic[i].1@ == name
    ||| exists|i: int| 0 <= i && i + 1 < name.len() && #[trigger] name[i] == ':' && name[i + 1] == ':'
    ||| (name.contains('<') && name.len() > 0 && name[name.len() - 1] == '>')
}

/// The field an XML element names: its `field` attribute, else its
/// `name` when that does not spell its type.
pub open spec fn spec_xml_field(
    field: Option<Seq<char>>,
    name: Seq<char>,
    type_id: AzUuid,
    intrinsic: Seq<(AzUuid, &str)>,
) -> Option<Seq<char>> {
    match field {
        Some(f) => Some(f),
        None => if name.len() > 0 && !spec_names_type(type_id, name, intrinsic) {
            Some(name)
        } else {
            None
        },
    }
}

fn same_text(a: &str, b: &str) -> (r: bool)
    ensures
        r == (a@ == b@),
{
    let n = a.unicode_len();
    if n != b.unicode_len() {
        return false;
    }
    let mut i: usize = 0;
    while i < n
        invariant
            n == a@.len(),
            n == b@.len(),
            i <= n,
            forall|k: int| 0 <= k < i ==> a@[k] == b@[k],
        decreases n - i,
    {
        if a.get_char(i) != b.get_char(i) {
            return false;
        }
        i = i + 1;
    }
    assert(a@ =~= b@);
    true
}

/// Does `name` spell a type (see `spec_names_type`)?
pub fn xml_name_identifies_type(type_id: AzUuid, name: &str, intrinsic: &[(AzUuid, &str)]) -> (r: bool)
    ensures
        r == spec_names_type(type_id, name@, intrinsic@),
{
    let mut i: usize = 0;
    while i < intrinsic.len()
        invariant
            i <= intrinsic@.len(),
            forall|k: int| 0 <= k < i ==> !(#[trigger] intrinsic@[k].0 == type_id && intrinsic@[k].1@ == name@),
        decreases intrinsic.len() - i,
    {
        let (id, n) = intrinsic[i];
        if id == type_id && same_text(n, name) {
            return true;
        }
        i = i + 1;
    }
    let len = name.unicode_len();
    let mut j: usize = 0;
    let mut has_angle = false;
    while j < len
        invariant
            len == name@.len(),
            j <= len,
            forall|k: int| 0 <= k < j && k + 1 < len ==> !(#[trigger] name@[k] == ':' && name@[k + 1] == ':'),
            has_angle == exists|k: int| 0 <= k < j && #[trigger] name@[k] == '<',
        decreases len - j,
    {
        let c = name.get_char(j);
        if c == ':' && j + 1 < len && name.get_char(j + 1) == ':' {
            return true;
        }
        if c == '<' {
            has_angle = true;
        }
        j = j + 1;
    }
    proof {
        if name@.contains('<') {
            let k = choose|k: int| 0 <= k < name@.len() && name@[k] == '<';
            assert(has_angle);
        }
        if has_angle {
            let k = choose|k: int| 0 <= k < len && name@[k] == '<';
            assert(name@.contains('<'));
        }
    }
    has_angle && len > 0 && name.get_char(len - 1) == '>'
}

/// The field an XML element names (see `spec_xml_field`).
pub fn xml_semantic_field(field: &Option<String>, name: &String, type_id: AzUuid, intrinsic: &[(AzUuid, &str)]) -> (r:
    Option<String>)
    ensures
        match r {
            Some(s) => spec_xml_field(
                match field {
                    Some(f) => Some(f@),
                    None => None,
                },
                name@,
                type_id,
                intrinsic@,
            ) == Some(s@),
            None => spec_xml_field(
                match field {
                    Some(f) => Some(f@),
                    None => None,
                },
                name@,
                type_id,
                intrinsic@,
            ) is None,
        },
{
    match field {
        Some(f) => Some(f.clone()),
        None => if name.unicode_len() > 0 && !xml_name_identifies_type(type_id, name.as_str(), intrinsic) {
            Some(name.clone())
        } else {
            None
        },
    }
}

/// The big-endian wire bytes the builtin serializer `kind` (on
/// Lumberyard's platform, at `element_version`) loads from `text`, or
/// `None` where it rejects the text or its native bytes.
pub open spec fn spec_raw_text_payload(kind: BuiltinSerializerKind, text: Seq<char>, element_version: u32) -> Option<
    Seq<u8>,
> {
    let d = crate::codec::BuiltinSerializerDescriptor {
        kind,
        native_abi: crate::codec::NativeAbi::Llp64,
        native_endian: crate::codec::NativeEndian::Little,
        current_version: element_version,
    };
    match spec_builtin_text(d, text, element_version) {
        Some(native) => match crate::codec::spec_native_to_big(
            kind,
            native,
            crate::codec::NativeAbi::Llp64,
            crate::codec::NativeEndian::Little,
            element_version,
        ) {
            Ok(b) => Some(b),
            Err(_) => None,
        },
        None => None,
    }
}

/// The payload decoding a text `value` gives, where the library decides it
/// and it succeeds: no value gives no payload; a registered non-float
/// builtin serializer gives its native bytes; an element with no
/// registered serializer is loaded by the builtin serializer of its wire
/// type (non-float) into big-endian bytes, or kept as UTF-8 text when its
/// type has none.  `None` where decoding fails or an outside codec decides.
pub open spec fn spec_decoded_payload(
    value: Option<TextValue>,
    raw_type_id: AzUuid,
    element_version: u32,
    context: Option<ObjectStreamReadContext>,
    resolved: Option<ResolvedType>,
    builtin: Seq<(AzUuid, BuiltinSerializerKind)>,
) -> Option<(Option<Seq<u8>>, PayloadEncoding)> {
    match value {
        None => Some((None, PayloadEncoding::Text)),
        Some(TextValue::Other) => None,
        Some(TextValue::Text(t)) => match spec_registered_codec(context, resolved) {
            Some((_, _, RegisteredCodec::Builtin(d))) => if d.kind.spec_is_float() {
                None
            } else {
                match spec_builtin_text(d, t@, element_version) {
                    Some(b) => Some((Some(b), PayloadEncoding::BinaryNativeEndian)),
                    None => None,
                }
            },
            Some((_, _, RegisteredCodec::External)) => None,
            None => match spec_builtin_lookup(builtin, raw_type_id) {
                None => Some((Some(vstd::utf8::encode_utf8(t@)), PayloadEncoding::Text)),
                Some(k) => if k.spec_is_float() {
                    None
                } else {
                    match spec_raw_text_payload(k, t@, element_version) {
                        Some(b) => Some((Some(b), PayloadEncoding::BinaryBigEndian)),
                        None => None,
                    }
                },
            },
        },
    }
}

/// The codec a resolved element's `ClassData` registers, with the
/// element's semantic type.
pub open spec fn spec_registered_codec(
    context: Option<ObjectStreamReadContext>,
    resolved: Option<ResolvedType>,
) -> Option<(AzUuid, ReflectedClassKey, RegisteredCodec)> {
    match (context, resolved) {
        (Some(c), Some(res)) => match (res.type_id, res.class) {
            (Some(t), Some(k)) => match c.spec_codec(k) {
                Some(codec) => Some((t, k, codec)),
                None => None,
            },
            _ => None,
        },
        _ => None,
    }
}

/// The native bytes a builtin serializer loads from `text`, or `None`
/// where it rejects it (kinds without a floating-point text form).
pub open spec fn spec_builtin_text(
    d: crate::codec::BuiltinSerializerDescriptor,
    text: Seq<char>,
    element_version: u32,
) -> Option<Seq<u8>> {
    if d.kind is Asset {
        match crate::asset::spec_asset_from_text(vstd::utf8::encode_utf8(text), element_version) {
            Some(parsed) => if d.current_version <= 2 {
                Some(
                    crate::codec::spec_native_asset(
                        crate::asset::spec_asset_save_fields(parsed, d.current_version),
                        d.current_version,
                        d.native_endian,
                    ),
                )
            } else {
                None
            },
            None => None,
        }
    } else {
        crate::codec::spec_text_payload(d, text)
    }
}

fn local_codec(
    context: Option<&ObjectStreamReadContext>,
    resolved: Option<ResolvedType>,
) -> (r: Option<(AzUuid, ReflectedClassKey, RegisteredCodec)>)
    ensures
        r == spec_registered_codec(
            match context {
                Some(c) => Some(*c),
                None => None,
            },
            resolved,
        ),
{
    match (context, resolved) {
        (Some(c), Some(res)) => match (res.type_id, res.class) {
            (Some(t), Some(k)) => match c.codec(k) {
                Some(codec) => Some((t, k, codec)),
                None => None,
            },
            _ => None,
        },
        _ => None,
    }
}

/// `res` is an answer the executable codec of `class` can give for `text`.
pub open spec fn spec_external_answer<D: ObjectStreamTextCodecs>(
    codecs: &D,
    class: ReflectedClassKey,
    type_id: AzUuid,
    text: &str,
    element_version: u32,
    encoding: TextEncoding,
    res: Result<EncodedPayload, ValueCodecError>,
) -> bool {
    call_ensures(D::external_text_to_data, (codecs, class, type_id, text, element_version, encoding), res)
}

/// `res` is an answer the floating-point serializer `descriptor` can give
/// for `text`.
pub open spec fn spec_float_answer<D: ObjectStreamTextCodecs>(
    codecs: &D,
    descriptor: crate::codec::BuiltinSerializerDescriptor,
    text: &str,
    res: Result<EncodedPayload, ValueCodecError>,
) -> bool {
    call_ensures(D::float_text_to_data, (codecs, descriptor, text), res)
}

/// `r` is what decoding `text` through the executable codec of `class`
/// gives: the codec is handed the class, the element type, the text, the
/// element version and the encoding, and its answer is handed back.
pub open spec fn spec_external_path<D: ObjectStreamTextCodecs>(
    r: Result<(Option<Vec<u8>>, PayloadEncoding), ObjectStreamError>,
    codecs: &D,
    class: ReflectedClassKey,
    type_id: AzUuid,
    text: Seq<char>,
    element_version: u32,
    encoding: TextEncoding,
) -> bool {
    exists|s: &str, res: Result<EncodedPayload, ValueCodecError>|
        s@ == text && #[trigger] spec_external_answer(codecs, class, type_id, s, element_version, encoding, res)
            && spec_handed_back(r, type_id, res)
}

/// `r` is what decoding `text` through the floating-point serializer
/// `descriptor` gives: the serializer is handed the descriptor and the
/// text, and its answer is handed back.
pub open spec fn spec_float_path<D: ObjectStreamTextCodecs>(
    r: Result<(Option<Vec<u8>>, PayloadEncoding), ObjectStreamError>,
    codecs: &D,
    descriptor: crate::codec::BuiltinSerializerDescriptor,
    type_id: AzUuid,
    text: Seq<char>,
) -> bool {
    exists|s: &str, res: Result<EncodedPayload, ValueCodecError>|
        s@ == text && #[trigger] spec_float_answer(codecs, descriptor, s, res) && spec_handed_back(r, type_id, res)
}

/// `r` hands back what an outside codec answered for an element of type
/// `type_id`: its payload bytes and encoding, or its error as a value
/// conversion failure.
pub open spec fn spec_handed_back(
    r: Result<(Option<Vec<u8>>, PayloadEncoding), ObjectStreamError>,
    type_id: AzUuid,
    res: Result<EncodedPayload, ValueCodecError>,
) -> bool {
    match res {
        Ok(p) => r matches Ok(o) && crate::tree::spec_opt_bytes(o.0) == Some(p.bytes@) && o.1 == p.encoding,
        Err(e) => r == Err::<(Option<Vec<u8>>, PayloadEncoding), ObjectStreamError>(
            ObjectStreamError::ValueConversion { type_id, source: e },
        ),
    }
}

/// Decode a text element's `value`: through the serializer its resolved
/// `ClassData` registers, else (raw elements) through the builtin
/// serializer of its wire type, stored as big-endian bytes, else as text.
pub fn decode_text_value<D: ObjectStreamTextCodecs>(
    value: &Option<TextValue>,
    raw_type_id: AzUuid,
    element_version: u32,
    encoding: TextEncoding,
    context: Option<&ObjectStreamReadContext>,
    resolved: Option<ResolvedType>,
    codecs: &D,
    builtin_types: &[(AzUuid, BuiltinSerializerKind)],
) -> (r: Result<(Option<Vec<u8>>, PayloadEncoding), ObjectStreamError>)
    ensures
        ({
            let ctx = match context {
                Some(c) => Some(*c),
                None => None,
            };
            spec_decoded_payload(*value, raw_type_id, element_version, ctx, resolved, builtin_types@) matches Some(out)
                ==> (r matches Ok(o) && crate::tree::spec_opt_bytes(o.0) == out.0 && o.1 == out.1)
        }),
        ({
            let ctx = match context {
                Some(c) => Some(*c),
                None => None,
            };
            value matches Some(TextValue::Text(t)) ==> (spec_registered_codec(ctx, resolved) is None ==> match spec_builtin_lookup(builtin_types@, raw_type_id) {
                Some(k) => !k.spec_is_float() ==> {
                    &&& (r is Ok <==> spec_raw_text_payload(k, t@, element_version) is Some)
                    &&& (r matches Err(e) ==> e matches ObjectStreamError::ValueConversion { type_id, .. } && type_id == raw_type_id)
                },
                None => r is Ok,
            })
        }),
        value is None ==> r == Ok::<(Option<Vec<u8>>, PayloadEncoding), ObjectStreamError>(
            (None, PayloadEncoding::Text),
        ),
        value matches Some(TextValue::Other) ==> (r matches Err(
            ObjectStreamError::ValueConversion { type_id, source: ValueCodecError::NonStringJsonValue },
        ) && type_id == raw_type_id),
        value matches Some(TextValue::Text(t)) ==> match spec_registered_codec(
            match context {
                Some(c) => Some(*c),
                None => None,
            },
            resolved,
        ) {
            Some((rt, _, RegisteredCodec::Builtin(d))) => if d.kind.spec_is_float() {
                spec_float_path(r, codecs, d, rt, t@)
            } else {
                &&& (r is Ok <==> spec_builtin_text(d, t@, element_version) is Some)
                &&& (r matches Ok(out) ==> out.0 matches Some(b) && Some(b@) == spec_builtin_text(
                    d,
                    t@,
                    element_version,
                ) && out.1 is BinaryNativeEndian)
                &&& (r matches Err(e) ==> e matches ObjectStreamError::ValueConversion { type_id, .. } && type_id
                    == rt)
            },
            Some((rt, k, RegisteredCodec::External)) => spec_external_path(r, codecs, k, rt, t@, element_version, encoding),
            None => true,
        },
{
    let text: &String = match value {
        None => {
            return Ok((None, PayloadEncoding::Text));
        },
        Some(TextValue::Other) => {
            return Err(
                ObjectStreamError::ValueConversion { type_id: raw_type_id, source: ValueCodecError::NonStringJsonValue },
            );
        },
        Some(TextValue::Text(t)) => t,
    };
    match local_codec(context, resolved) {
        Some((rt, k, RegisteredCodec::Builtin(d))) => {
            let payload = if d.kind.is_float() {
                let s = text.as_str();
                let res = codecs.float_text_to_data(d, s);
                proof {
                    assert(spec_float_answer(codecs, d, s, res));
                }
                res
            } else {
                d.codec().text_to_data(rt, text.as_str(), element_version, encoding)
            };
            let out = match payload {
                Ok(p) => Ok((Some(p.bytes), p.encoding)),
                Err(source) => Err(ObjectStreamError::ValueConversion { type_id: rt, source }),
            };
            return out;
        },
        Some((rt, k, RegisteredCodec::External)) => {
            let s = text.as_str();
            let res = codecs.external_text_to_data(k, rt, s, element_version, encoding);
            proof {
                assert(spec_external_answer(codecs, k, rt, s, element_version, encoding, res));
            }
            let out = match res {
                Ok(p) => Ok((Some(p.bytes), p.encoding)),
                Err(source) => Err(ObjectStreamError::ValueConversion { type_id: rt, source }),
            };
            proof {
                assert(spec_external_path(out, codecs, k, rt, text@, element_version, encoding));
            }
            return out;
        },
        None => {},
    }
    match builtin_kind_of(builtin_types, raw_type_id) {
        Some(kind) => {
            let codec = BuiltinValueCodec::new(kind, element_version);
            let descriptor = crate::codec::BuiltinSerializerDescriptor::new(kind, element_version);
            let payload = if kind.is_float() {
                codecs.float_text_to_data(descriptor, text.as_str())
            } else {
                codec.text_to_data(raw_type_id, text.as_str(), element_version, encoding)
            };
            let payload = match payload {
                Ok(p) => p,
                Err(source) => {
                    return Err(ObjectStreamError::ValueConversion { type_id: raw_type_id, source });
                },
            };
            match codec.to_big_endian(raw_type_id, payload.bytes.as_slice(), payload.encoding, element_version) {
                Ok(bytes) => Ok((Some(bytes), PayloadEncoding::BinaryBigEndian)),
                Err(source) => Err(ObjectStreamError::ValueConversion { type_id: raw_type_id, source }),
            }
        },
        None => {
            let bytes = text.as_str().as_bytes();
            Ok((Some(crate::bytes::copy_range(bytes, 0, bytes.len())), PayloadEncoding::Text))
        },
    }
}

/// `skipped` after one more subtree was discarded.
pub open spec fn spec_skip_counted(before: usize, after: usize) -> bool {
    after == if before < usize::MAX {
        before + 1
    } else {
        before as int
    }
}

fn count_skip(skipped: &mut usize)
    ensures
        spec_skip_counted(*old(skipped), *final(skipped)),
{
    if *skipped < usize::MAX {
        *skipped = *skipped + 1;
    }
}

/// The field a text element names: for XML its `field` attribute or its
/// non-type `name`, for JSON its `field` member.
pub open spec fn spec_text_field(value: TextElement, xml: bool, intrinsic: Seq<(AzUuid, &str)>) -> Option<Seq<char>> {
    let field = match value.field {
        Some(f) => Some(f@),
        None => None,
    };
    if xml {
        spec_xml_field(field, value.name@, value.id, intrinsic)
    } else {
        field
    }
}

/// The specialization a text element is looked up with: an XML version-2
/// element other than an asset that names none looks up the nil UUID.
pub open spec fn spec_text_lookup_specialization(value: TextElement, xml: bool, stream_version: u32) -> Option<AzUuid> {
    if xml && stream_version == 2 && value.id != crate::context::spec_asset_type_id() && value.specialization is None {
        Some(AzUuid { bits: 0 })
    } else {
        value.specialization
    }
}

/// The header a text element is bound to its parent by: its type,
/// specialization, version, field and field CRC.
pub open spec fn spec_text_header_view(value: TextElement, name_crc: Option<u32>, field: Option<Seq<char>>) -> crate::tree::ElementView {
    crate::tree::ElementView {
        specialization: value.specialization,
        version: value.version,
        name_crc,
        field,
        ..crate::tree::spec_empty_element(value.id)
    }
}

/// The outcome of binding a read child with header `child` to the field of
/// its parent `p` (as `finalize_reachable_child` binds it): the child is
/// renamed onto its parent's field spelling and resolved under `p`; then it
/// is kept, dropped or refused as the binding outcome says.
pub open spec fn spec_text_binding_result(
    c: ObjectStreamReadContext,
    p: ReflectedClassKey,
    child: crate::tree::ElementView,
    stream_version: u32,
    r: Result<Option<Element>, ObjectStreamError>,
) -> bool {
    let c1 = c.spec_renamed(p, child);
    let res = c.spec_resolve(ObjectStreamReadContext::spec_child_input(stream_version, c1, Some(p)));
    match (res.type_id, res.class, c.spec_class(p)) {
        (Some(t), Some(_), Some(pd)) => match c.spec_bind_outcome(p, pd, c1, t) {
            Ok(ChildBinding::Fate(ChildFate::Retain)) => r matches Ok(Some(e)) && e.id == c1.id && e.name_crc
                == c1.name_crc,
            Ok(ChildBinding::Fate(ChildFate::Skip)) => r == Ok::<Option<Element>, ObjectStreamError>(None),
            Ok(ChildBinding::ConvertData { .. }) => true,
            Err(x) => r == Err::<Option<Element>, ObjectStreamError>(x),
        },
        (Some(_), Some(_), None) => r matches Err(ObjectStreamError::UnresolvedClassData { class }) && class == p,
        _ => r matches Err(ObjectStreamError::UnresolvedElementType { type_id }) && type_id == c1.id,
    }
}

/// Binding a read child to its parent (see `spec_text_binding_result`),
/// with the skip count going from `before` to `after`: unchanged when the
/// child is kept, advanced when it is dropped.
pub open spec fn spec_text_bound(
    c: ObjectStreamReadContext,
    p: ReflectedClassKey,
    child: crate::tree::ElementView,
    stream_version: u32,
    before: usize,
    after: usize,
    r: Result<Option<Element>, ObjectStreamError>,
) -> bool {
    &&& spec_text_binding_result(c, p, child, stream_version, r)
    &&& (r matches Ok(Some(_)) ==> after == before)
    &&& (r == Ok::<Option<Element>, ObjectStreamError>(None) ==> spec_skip_counted(before, after))
}

/// Binding depends on a child's header alone: its type, specialization,
/// version and field CRC.
proof fn lemma_text_bound_by_header(
    c: ObjectStreamReadContext,
    p: ReflectedClassKey,
    a: crate::tree::ElementView,
    b: crate::tree::ElementView,
    stream_version: u32,
    before: usize,
    after: usize,
    r: Result<Option<Element>, ObjectStreamError>,
)
    requires
        a.id == b.id,
        a.specialization == b.specialization,
        a.version == b.version,
        a.name_crc == b.name_crc,
    ensures
        spec_text_binding_result(c, p, a, stream_version, r) == spec_text_binding_result(c, p, b, stream_version, r),
        spec_text_bound(c, p, a, stream_version, before, after, r) == spec_text_bound(
            c,
            p,
            b,
            stream_version,
            before,
            after,
            r,
        ),
{
    let a1 = c.spec_renamed(p, a);
    let b1 = c.spec_renamed(p, b);
    assert(a1.id == b1.id && a1.name_crc == b1.name_crc && a1.specialization == b1.specialization && a1.version
        == b1.version);
    assert(ObjectStreamReadContext::spec_child_input(stream_version, a1, Some(p))
        == ObjectStreamReadContext::spec_child_input(stream_version, b1, Some(p)));
    assert forall|pd: crate::context::ReflectedClass, t: AzUuid| #[trigger] c.spec_bind_outcome(p, pd, a1, t)
        == c.spec_bind_outcome(p, pd, b1, t) by {}
}

/// Convert, check and bind a freshly read text element whose `ClassData`
/// is known; `Ok(None)` when the default filter dropped it.
fn finalize_text_element<C: ObjectStreamConverters>(
    element: Element,
    stream_version: u32,
    context: Option<&ObjectStreamReadContext>,
    converters: &C,
    resolved: Option<ResolvedType>,
    parent: Option<ReflectedClassKey>,
    defer_parent_validation: bool,
    skipped: &mut usize,
) -> (r: Result<Option<Element>, ObjectStreamError>)
    ensures
        *final(skipped) >= *old(skipped),
        (context is None || resolved is None || resolved->0.class is None) ==> (r matches Ok(Some(e)) && e == element
            && *final(skipped) == *old(skipped)),
        ({
            let converting = element.version_state is StrictDefaultStructural || element.version_state is RegisteredConverter;
            match (context, resolved) {
                (Some(c), Some(res)) => match res.class {
                    Some(k) => !converting && (parent is None || defer_parent_validation) ==> {
                        &&& *final(skipped) == *old(skipped)
                        &&& if defer_parent_validation {
                            r matches Ok(Some(e)) && e@ == element@
                        } else {
                            match c.spec_cardinality_check(k, element.elements.len()) {
                                Ok(_) => r matches Ok(Some(e)) && e@ == element@,
                                Err(err) => r == Err::<Option<Element>, ObjectStreamError>(err),
                            }
                        }
                    },
                    None => true,
                },
                _ => true,
            }
        }),
        ({
            let converting = element.version_state is StrictDefaultStructural || element.version_state is RegisteredConverter;
            match (context, resolved, parent) {
                (Some(c), Some(res), Some(p)) => match res.class {
                    Some(k) => !converting && !defer_parent_validation ==> match c.spec_cardinality_check(
                        k,
                        element.elements.len(),
                    ) {
                        Err(err) => r == Err::<Option<Element>, ObjectStreamError>(err),
                        Ok(_) => spec_text_bound(*c, p, element@, stream_version, *old(skipped), *final(skipped), r),
                    },
                    None => true,
                },
                _ => true,
            }
        }),
{
    let mut element = element;
    let (ctx, class) = match (context, resolved) {
        (Some(c), Some(res)) => match res.class {
            Some(k) => (c, k),
            None => {
                return Ok(Some(element));
            },
        },
        _ => {
            return Ok(Some(element));
        },
    };
    let state = element.version_state;
    let converted = ctx.convert_element(converters, class, state, &mut element, stream_version, parent)?;
    if !defer_parent_validation {
        ctx.validate_container_cardinality(converted, element.elements.len())?;
    }
    if let Some(p) = parent {
        if !defer_parent_validation {
            match ctx.finalize_reachable_child(converters, p, &mut element, stream_version)? {
                ChildFate::Retain => {},
                ChildFate::Skip => {
                    count_skip(skipped);
                    return Ok(None);
                },
            }
        }
    }
    Ok(Some(element))
}

/// The payload size an element with payload `data` records.
pub open spec fn spec_data_size(data: Option<Vec<u8>>) -> Option<usize> {
    match data {
        Some(d) => Some(d.len()),
        None => None,
    }
}

/// A text subtree that reads without a read context no matter what code
/// outside the library answers: every element passes the specialization
/// check and has a value the library itself decodes.
pub open spec fn spec_raw_readable(
    value: TextElement,
    stream_version: u32,
    builtin: Seq<(AzUuid, BuiltinSerializerKind)>,
) -> bool
    decreases value,
{
    let v0: u32 = match value.version {
        Some(v) => v,
        None => 0,
    };
    &&& crate::stream::spec_specialization_check(stream_version, value.id, value.specialization) is Ok
    &&& spec_decoded_payload(value.value, value.id, v0, None, None, builtin) is Some
    &&& spec_raw_readable_list(value.children@, stream_version, builtin)
}

/// Every subtree of a list reads without a read context (see
/// `spec_raw_readable`).
pub open spec fn spec_raw_readable_list(
    l: Seq<TextElement>,
    stream_version: u32,
    builtin: Seq<(AzUuid, BuiltinSerializerKind)>,
) -> bool
    decreases l,
{
    if l.len() == 0 {
        true
    } else {
        spec_raw_readable_list(l.subrange(0, l.len() - 1), stream_version, builtin) && spec_raw_readable(
            l[l.len() - 1],
            stream_version,
            builtin,
        )
    }
}

proof fn lemma_raw_readable_member(
    l: Seq<TextElement>,
    stream_version: u32,
    builtin: Seq<(AzUuid, BuiltinSerializerKind)>,
    i: int,
)
    requires
        spec_raw_readable_list(l, stream_version, builtin),
        0 <= i < l.len(),
    ensures
        spec_raw_readable(l[i], stream_version, builtin),
    decreases l.len(),
{
    if i < l.len() - 1 {
        let init = l.subrange(0, l.len() - 1);
        lemma_raw_readable_member(init, stream_version, builtin, i);
        assert(init[i] == l[i]);
    }
}

/// What reading text element `value` without a read context gives for
/// the element itself: the header as the document spells it, a raw
/// resolution, the current conversion state, and the payload decoding
/// gives where the library decides it.
pub open spec fn spec_raw_node(
    value: TextElement,
    e: Element,
    xml: bool,
    intrinsic: Seq<(AzUuid, &str)>,
    builtin: Seq<(AzUuid, BuiltinSerializerKind)>,
) -> bool {
    let field = spec_text_field(value, xml, intrinsic);
    let v0: u32 = match value.version {
        Some(v) => v,
        None => 0,
    };
    &&& e.id == value.id
    &&& e.specialization == value.specialization
    &&& e.version == value.version
    &&& e.name@ == value.name@
    &&& crate::tree::spec_opt_text(e.field) == field
    &&& e.name_crc == match field {
        Some(f) => Some(crate::crc::spec_field_name_crc(f)),
        None => None,
    }
    &&& e.resolution.spec_get() == TypeResolution::Raw
    &&& e.version_state == VersionConversionState::Current
    &&& e.data_size == spec_data_size(e.data)
    &&& (spec_decoded_payload(value.value, value.id, v0, None, None, builtin) matches Some(out) ==> crate::tree::spec_opt_bytes(
        e.data,
    ) == out.0 && e.payload_encoding == out.1)
}

/// Reading the text subtrees `kids` without a read context gives `out`:
/// one element per input, in input order, each the read of its own input
/// (`spec_raw_node`) with its own children read the same way, to any
/// depth.
pub open spec fn spec_raw_children(
    kids: Seq<TextElement>,
    out: Seq<Element>,
    xml: bool,
    intrinsic: Seq<(AzUuid, &str)>,
    builtin: Seq<(AzUuid, BuiltinSerializerKind)>,
) -> bool
    decreases kids,
{
    if kids.len() == 0 {
        out.len() == 0
    } else {
        &&& out.len() == kids.len()
        &&& spec_raw_children(
            kids.subrange(0, kids.len() - 1),
            out.subrange(0, out.len() - 1),
            xml,
            intrinsic,
            builtin,
        )
        &&& spec_raw_node(kids[kids.len() - 1], out[out.len() - 1], xml, intrinsic, builtin)
        &&& spec_raw_children(
            kids[kids.len() - 1].children@,
            out[out.len() - 1].elements@,
            xml,
            intrinsic,
            builtin,
        )
    }
}

/// Reading one more child without a read context extends the reads of
/// the children before it.
proof fn lemma_raw_children_step(
    kids: Seq<TextElement>,
    idx: int,
    prev: Seq<Element>,
    x: Element,
    xml: bool,
    intrinsic: Seq<(AzUuid, &str)>,
    builtin: Seq<(AzUuid, BuiltinSerializerKind)>,
)
    requires
        0 <= idx < kids.len(),
        spec_raw_children(kids.subrange(0, idx), prev, xml, intrinsic, builtin),
        spec_raw_node(kids[idx], x, xml, intrinsic, builtin),
        spec_raw_children(kids[idx].children@, x.elements@, xml, intrinsic, builtin),
    ensures
        spec_raw_children(kids.subrange(0, idx + 1), prev.push(x), xml, intrinsic, builtin),
{
    let pre = kids.subrange(0, idx + 1);
    let out = prev.push(x);
    assert(pre.subrange(0, pre.len() - 1) =~= kids.subrange(0, idx));
    assert(out.subrange(0, out.len() - 1) =~= prev);
    assert(pre[pre.len() - 1] == kids[idx]);
    if idx == 0 {
        assert(prev.len() == 0);
    }
}

/// What reading text element `value` (XML when `xml`) gives, with the
/// skip count going from `before` to `after`.
pub open spec fn spec_text_read(
    value: TextElement,
    xml: bool,
    stream_version: u32,
    context: Option<ObjectStreamReadContext>,
    intrinsic: Seq<(AzUuid, &str)>,
    builtin: Seq<(AzUuid, BuiltinSerializerKind)>,
    parent: Option<ReflectedClassKey>,
    defer_parent_validation: bool,
    before: usize,
    after: usize,
    r: Result<Option<Element>, ObjectStreamError>,
) -> bool {
    let field = spec_text_field(value, xml, intrinsic);
    let crc = match field {
        Some(f) => Some(crate::crc::spec_field_name_crc(f)),
        None => None,
    };
    let v0: u32 = match value.version {
        Some(v) => v,
        None => 0,
    };
    &&& after >= before
    &&& (crate::stream::spec_specialization_check(stream_version, value.id, value.specialization) matches Err(e) ==> r
        == Err::<Option<Element>, ObjectStreamError>(e))
    &&& (context is None ==> !(r matches Ok(None)) && after == before)
    &&& (context is None && crate::stream::spec_specialization_check(stream_version, value.id, value.specialization) is Ok
        && (value.value matches Some(TextValue::Other)) ==> (r matches Err(
        ObjectStreamError::ValueConversion { type_id, source: ValueCodecError::NonStringJsonValue },
    ) && type_id == value.id))
    &&& (context is None && spec_raw_readable(value, stream_version, builtin) ==> r matches Ok(Some(_)))
    &&& (context is None ==> (r matches Ok(Some(e)) ==> spec_raw_node(value, e, xml, intrinsic, builtin)
        && spec_raw_children(value.children@, e.elements@, xml, intrinsic, builtin)))
    &&& (context is None ==> (r matches Ok(Some(e)) ==> {
        &&& e.data_size == spec_data_size(e.data)
        &&& (spec_decoded_payload(value.value, value.id, v0, None, None, builtin) matches Some(out) ==> crate::tree::spec_opt_bytes(
            e.data,
        ) == out.0 && e.payload_encoding == out.1)
    }))
    &&& (context is None ==> (r matches Ok(Some(e)) ==> {
        &&& e.id == value.id
        &&& e.specialization == value.specialization
        &&& e.version == value.version
        &&& e.name@ == value.name@
        &&& crate::tree::spec_opt_text(e.field) == field
        &&& e.name_crc == crc
        &&& e.resolution.spec_get() == TypeResolution::Raw
        &&& e.version_state == VersionConversionState::Current
        &&& e.elements@.len() == value.children@.len()
    }))
    &&& (match context {
        Some(c) => crate::stream::spec_specialization_check(stream_version, value.id, value.specialization) is Ok ==> {
            let res = c.spec_resolve(
                ResolveTypeInput {
                    stream_version,
                    raw_type_id: value.id,
                    specialization_type_id: spec_text_lookup_specialization(value, xml, stream_version),
                    element_version: v0,
                    name_crc: crc,
                    parent,
                },
            );
            match c.spec_fate_check(res, value.id) {
                Err(e) => r == Err::<Option<Element>, ObjectStreamError>(e),
                Ok(ElementFate::Skip) => r == Ok::<Option<Element>, ObjectStreamError>(None) && spec_skip_counted(
                    before,
                    after,
                ),
                Ok(ElementFate::Retain) => match c.spec_version_check(res.class->0, v0) {
                    Err(e) => r == Err::<Option<Element>, ObjectStreamError>(e),
                    Ok(st) => if st is DeprecatedDiscard && !defer_parent_validation {
                        r == Ok::<Option<Element>, ObjectStreamError>(None) && spec_skip_counted(before, after)
                    } else {
                        match c.spec_payload_check(res.class->0, value.value is Some) {
                            Err(e) => r == Err::<Option<Element>, ObjectStreamError>(e),
                            Ok(_) => {
                                &&& ((value.value matches Some(TextValue::Other)) ==> (r matches Err(
                                    ObjectStreamError::ValueConversion {
                                        type_id,
                                        source: ValueCodecError::NonStringJsonValue,
                                    },
                                ) && type_id == value.id))
                                &&& (value.value is None && value.children@.len() == 0 && !(st is StrictDefaultStructural)
                                    && !(st is RegisteredConverter) && (parent is None || defer_parent_validation) ==> if defer_parent_validation {
                                    r matches Ok(Some(_))
                                } else {
                                    match c.spec_cardinality_check(res.class->0, 0) {
                                        Ok(_) => r matches Ok(Some(_)),
                                        Err(x) => r == Err::<Option<Element>, ObjectStreamError>(x),
                                    }
                                })
                                &&& (spec_decoded_payload(value.value, value.id, v0, Some(c), Some(res), builtin) is Some
                                    && value.children@.len() == 0 && !(st is StrictDefaultStructural)
                                    && !(st is RegisteredConverter) && !defer_parent_validation ==> match parent {
                                    Some(p) => match c.spec_cardinality_check(res.class->0, 0) {
                                        Err(x) => r == Err::<Option<Element>, ObjectStreamError>(x),
                                        Ok(_) => spec_text_bound(
                                            c,
                                            p,
                                            spec_text_header_view(value, crc, field),
                                            stream_version,
                                            before,
                                            after,
                                            r,
                                        ),
                                    },
                                    None => true,
                                })
                                &&& (!(st is StrictDefaultStructural) && !(st is RegisteredConverter)
                                    && !defer_parent_validation ==> match parent {
                                    Some(p) => r is Ok ==> spec_text_binding_result(
                                        c,
                                        p,
                                        spec_text_header_view(value, crc, field),
                                        stream_version,
                                        r,
                                    ),
                                    None => true,
                                })
                                &&& (!(st is StrictDefaultStructural) && !(st is RegisteredConverter) && (parent is None
                                    || defer_parent_validation) ==> (r matches Ok(Some(e)) ==> {
                                    &&& e.id == value.id
                                    &&& e.specialization == value.specialization
                                    &&& e.version == value.version
                                    &&& crate::tree::spec_opt_text(e.field) == field
                                    &&& e.name_crc == crc
                                    &&& e.version_state == st
                                    &&& e.resolution.spec_get() == crate::reader::spec_resolution_state(
                                        Some(c),
                                        Some(res),
                                        parent,
                                        crc,
                                    )
                                    &&& e.data_size == spec_data_size(e.data)
                                    &&& (spec_decoded_payload(value.value, value.id, v0, Some(c), Some(res), builtin) matches Some(
                                        out,
                                    ) ==> crate::tree::spec_opt_bytes(e.data) == out.0 && e.payload_encoding == out.1)
                                }))
                            },
                        }
                    },
                },
            }
        },
        None => true,
    })
}

#[verifier::loop_isolation(false)]
#[verifier::rlimit(100)]
fn read_text_element<C: ObjectStreamConverters, D: ObjectStreamTextCodecs>(
    value: TextElement,
    xml: bool,
    stream_version: u32,
    hashes: Option<&LumberyardHashes>,
    context: Option<&ObjectStreamReadContext>,
    converters: &C,
    codecs: &D,
    intrinsic: &[(AzUuid, &str)],
    builtin_types: &[(AzUuid, BuiltinSerializerKind)],
    parent: Option<ReflectedClassKey>,
    defer_parent_validation: bool,
    skipped: &mut usize,
) -> (r: Result<Option<Element>, ObjectStreamError>)
    ensures
        spec_text_read(
            value,
            xml,
            stream_version,
            match context {
                Some(c) => Some(*c),
                None => None,
            },
            intrinsic@,
            builtin_types@,
            parent,
            defer_parent_validation,
            *old(skipped),
            *final(skipped),
            r,
        ),
    decreases spec_text_size(value),
{
    let ghost whole = value;
    crate::stream::validate_element_specialization(stream_version, value.id, value.specialization)?;
    let field: Option<String> = if xml {
        xml_semantic_field(&value.field, &value.name, value.id, intrinsic)
    } else {
        match &value.field {
            Some(f) => Some(f.clone()),
            None => None,
        }
    };
    let name_crc: Option<u32> = match &field {
        Some(f) => Some(crate::crc::field_name_crc(f.as_str())),
        None => None,
    };
    let asset = crate::context::asset_type_id_constant();
    let lookup_specialization = if xml && stream_version == 2 && value.id != asset && value.specialization.is_none() {
        Some(AzUuid::nil())
    } else {
        value.specialization
    };
    let element_version: u32 = match value.version {
        Some(v) => v,
        None => 0,
    };
    let resolved = match context {
        Some(c) => Some(
            c.resolve_type(
                ResolveTypeInput {
                    stream_version,
                    raw_type_id: value.id,
                    specialization_type_id: lookup_specialization,
                    element_version,
                    name_crc,
                    parent,
                },
            ),
        ),
        None => None,
    };
    if let (Some(c), Some(res)) = (context, resolved) {
        if let ElementFate::Skip = c.resolved_element_fate(res, value.id)? {
            count_skip(skipped);
            return Ok(None);
        }
    }
    let class = match resolved {
        Some(res) => res.class,
        None => None,
    };
    let version_state = match (context, class) {
        (Some(c), Some(k)) => c.validate_class_version(k, element_version)?,
        _ => VersionConversionState::Current,
    };
    if version_state.discards_subtree() && !defer_parent_validation {
        count_skip(skipped);
        return Ok(None);
    }
    if let (Some(c), Some(k)) = (context, class) {
        c.validate_payload_support(k, value.value.is_some())?;
    }
    let encoding = if xml {
        TextEncoding::Xml
    } else {
        TextEncoding::Json
    };
    let (data, payload_encoding) = decode_text_value(
        &value.value,
        value.id,
        element_version,
        encoding,
        context,
        resolved,
        codecs,
        builtin_types,
    )?;
    let child_defer = defer_parent_validation || version_state.requires_dom_converter();
    let ghost kids0 = value.children@;
    let mut pending = value.children;
    let mut elements: Vec<Element> = Vec::new();
    let ghost start = *skipped;
    assert(start == *old(skipped));
    let mut i: usize = 0;
    let n_kids = pending.len();
    while pending.len() > 0
        invariant
            kids0.len() == n_kids,
            i <= kids0.len(),
            pending@ == kids0.subrange(i as int, kids0.len() as int),
            *skipped >= start,
            start >= *old(skipped),
            context is None ==> *skipped == *old(skipped),
            context is None ==> elements@.len() == i,
            elements@.len() <= i,
            kids0 == value.children@,
            context is None ==> spec_raw_children(kids0.subrange(0, i as int), elements@, xml, intrinsic@, builtin_types@),
            i == 0 ==> *skipped == start,
        decreases pending.len(),
    {
        assert(pending@.len() > 0);
        assert(i < kids0.len());
        let child = pending.remove(0);
        assert(child == kids0[i as int]);
        assert(pending@ =~= kids0.subrange(i + 1, kids0.len() as int));
        proof {
            lemma_text_size_list_member(kids0, i as int);
            if context is None && spec_raw_readable(value, stream_version, builtin_types@) {
                lemma_raw_readable_member(kids0, stream_version, builtin_types@, i as int);
            }
        }
        let ghost idx = i as int;
        let ghost prev_elements = elements@;
        i = i + 1;
        let got = read_text_element(
            child,
            xml,
            stream_version,
            hashes,
            context,
            converters,
            codecs,
            intrinsic,
            builtin_types,
            class,
            child_defer,
            skipped,
        )?;
        match got {
            Some(e) => {
                elements.push(e);
            },
            None => {},
        }
        proof {
            if context is None {
                lemma_raw_children_step(kids0, idx, prev_elements, elements@[elements@.len() - 1], xml, intrinsic@, builtin_types@);
                assert(prev_elements.push(elements@[elements@.len() - 1]) =~= elements@);
            }
        }
    }
    proof {
        assert(kids0.subrange(0, i as int) =~= kids0);
        if context is None {
            assert(spec_raw_children(value.children@, elements@, xml, intrinsic@, builtin_types@));
        }
    }
    let semantic_name: Option<&String> = match (resolved, hashes) {
        (Some(res), Some(h)) => match res.type_id {
            Some(t) => h.name_for_type(&t),
            None => None,
        },
        _ => None,
    };
    let name = match semantic_name {
        Some(n) => n.clone(),
        None => value.name,
    };
    let data_size = match &data {
        Some(d) => Some(d.len()),
        None => None,
    };
    let mut element = Element::new(value.id);
    element.specialization = value.specialization;
    element.resolution = Resolution::proved(crate::reader::resolution_state(context, resolved, parent, name_crc));
    element.version_state = version_state;
    element.name = name;
    element.field = field;
    element.name_crc = name_crc;
    element.version = value.version;
    element.data_size = data_size;
    element.data = data;
    element.payload_encoding = payload_encoding;
    element.elements = elements;
    let ghost read = element@;
    let ghost mid = *skipped;
    let out = finalize_text_element(
        element,
        stream_version,
        context,
        converters,
        resolved,
        parent,
        defer_parent_validation,
        skipped,
    );
    proof {
        if let (Some(c), Some(p)) = (context, parent) {
            let header = spec_text_header_view(whole, name_crc, read.field);
            lemma_text_bound_by_header(*c, p, read, header, stream_version, mid, *skipped, out);
        }
    }
    out
}

/// Read one XML `Class` element and its subtree.  `intrinsic_types` lists
/// the AZ type-info names of the intrinsic types (by UUID) that an XML
/// `name` attribute may spell instead of a field; resolution, version and
/// payload checks, text decoding, conversion and binding follow the read
/// context when one is given.  `Ok(None)` means the subtree was discarded
/// and counted in `skipped`.
pub fn xml_element<C: ObjectStreamConverters, D: ObjectStreamTextCodecs>(
    value: TextElement,
    stream_version: u32,
    hashes: Option<&LumberyardHashes>,
    context: Option<&ObjectStreamReadContext>,
    converters: &C,
    codecs: &D,
    intrinsic_types: &[(AzUuid, &str)],
    builtin_types: &[(AzUuid, BuiltinSerializerKind)],
    parent: Option<ReflectedClassKey>,
    defer_parent_validation: bool,
    skipped: &mut usize,
) -> (r: Result<Option<Element>, ObjectStreamError>)
    ensures
        spec_text_read(
            value,
            true,
            stream_version,
            match context {
                Some(c) => Some(*c),
                None => None,
            },
            intrinsic_types@,
            builtin_types@,
            parent,
            defer_parent_validation,
            *old(skipped),
            *final(skipped),
            r,
        ),
{
    read_text_element(
        value,
        true,
        stream_version,
        hashes,
        context,
        converters,
        codecs,
        intrinsic_types,
        builtin_types,
        parent,
        defer_parent_validation,
        skipped,
    )
}

/// Read one JSON `Objects` element and its subtree (see `xml_element`;
/// JSON names its field in `field` alone, and its `value` must be a
/// string).
pub fn json_element<C: ObjectStreamConverters, D: ObjectStreamTextCodecs>(
    value: TextElement,
    stream_version: u32,
    hashes: Option<&LumberyardHashes>,
    context: Option<&ObjectStreamReadContext>,
    converters: &C,
    codecs: &D,
    builtin_types: &[(AzUuid, BuiltinSerializerKind)],
    parent: Option<ReflectedClassKey>,
    defer_parent_validation: bool,
    skipped: &mut usize,
) -> (r: Result<Option<Element>, ObjectStreamError>)
    ensures
        spec_text_read(
            value,
            false,
            stream_version,
            match context {
                Some(c) => Some(*c),
                None => None,
            },
            Seq::empty(),
            builtin_types@,
            parent,
            defer_parent_validation,
            *old(skipped),
            *final(skipped),
            r,
        ),
{
    let none: [(AzUuid, &str); 0] = [];
    assert(none@ =~= Seq::<(AzUuid, &str)>::empty());
    read_text_element(
        value,
        false,
        stream_version,
        hashes,
        context,
        converters,
        codecs,
        &none,
        builtin_types,
        parent,
        defer_parent_validation,
        skipped,
    )
}

/// The read context a borrowed optional context stands for.
pub open spec fn spec_context_of(context: Option<&ObjectStreamReadContext>) -> Option<ObjectStreamReadContext> {
    match context {
        Some(c) => Some(*c),
        None => None,
    }
}

/// `origin` names, for each element of `out`, the root of `roots` whose
/// read gave it and the skip counts before and after that read.
pub open spec fn spec_read_origins(
    roots: Seq<TextElement>,
    xml: bool,
    version: u32,
    context: Option<ObjectStreamReadContext>,
    intrinsic: Seq<(AzUuid, &str)>,
    builtin: Seq<(AzUuid, BuiltinSerializerKind)>,
    out: Seq<Element>,
    origin: Seq<(int, usize, usize)>,
) -> bool {
    &&& origin.len() == out.len()
    &&& forall|i: int|
        0 <= i < out.len() ==> 0 <= (#[trigger] origin[i]).0 < roots.len() && spec_text_read(
            roots[origin[i].0],
            xml,
            version,
            context,
            intrinsic,
            builtin,
            None,
            false,
            origin[i].1,
            origin[i].2,
            Ok(Some(out[i])),
        )
}

/// Every element of `out` is what reading one of `roots` as a root gave.
pub open spec fn spec_roots_read(
    roots: Seq<TextElement>,
    xml: bool,
    version: u32,
    context: Option<ObjectStreamReadContext>,
    intrinsic: Seq<(AzUuid, &str)>,
    builtin: Seq<(AzUuid, BuiltinSerializerKind)>,
    out: Seq<Element>,
) -> bool {
    exists|origin: Seq<(int, usize, usize)>| #[trigger] spec_read_origins(roots, xml, version, context, intrinsic, builtin, out, origin)
}

/// Read the root elements of an XML (`xml`) or JSON document of stream
/// version `version` into an `ObjectStream`: check that a given read
/// context is complete and the version supported, read every
/// root in order (see `xml_element` and `json_element`), keep those not
/// discarded, and count the discarded subtrees.  The first failing root
/// ends the read with its error.
#[verifier::loop_isolation(false)]
pub fn read_text_stream<C: ObjectStreamConverters, D: ObjectStreamTextCodecs>(
    xml: bool,
    version: u32,
    roots: Vec<TextElement>,
    hashes: Option<&LumberyardHashes>,
    context: Option<&ObjectStreamReadContext>,
    converters: &C,
    codecs: &D,
    intrinsic_types: &[(AzUuid, &str)],
    builtin_types: &[(AzUuid, BuiltinSerializerKind)],
) -> (r: Result<ObjectStream, ObjectStreamError>)
    ensures
        context matches Some(c) ==> (!c.spec_complete() ==> (r matches Err(ObjectStreamError::IncompleteReadContext(e))
            && c.spec_completeness_error(e))),
        (context matches Some(c) ==> c.spec_complete()) && version > crate::stream::MAX_STREAM_VERSION ==> (r matches Err(
            ObjectStreamError::UnsupportedVersion(v),
        ) && v == version),
        r matches Ok(s) ==> {
            &&& s.tag.0 == (if xml {
                crate::stream::XML_STREAM_TAG
            } else {
                crate::stream::JSON_STREAM_TAG
            })
            &&& s.version == version
            &&& spec_roots_read(roots@, xml, version, spec_context_of(context), intrinsic_types@, builtin_types@, s.elements@)
        },
        (context matches Some(c) ==> c.spec_complete()) && version <= crate::stream::MAX_STREAM_VERSION ==> (r matches Err(
            e,
        ) ==> exists|j: int, b: usize, a: usize|
            0 <= j < roots@.len() && #[trigger] spec_text_read(
                roots@[j],
                xml,
                version,
                spec_context_of(context),
                intrinsic_types@,
                builtin_types@,
                None,
                false,
                b,
                a,
                Err(e),
            )),
        context is None ==> (r matches Ok(s) ==> {
            &&& s.skipped_children == 0
            &&& s.elements@.len() == roots@.len()
            &&& forall|i: int|
                0 <= i < s.elements@.len() ==> #[trigger] spec_text_read(
                    roots@[i],
                    xml,
                    version,
                    None,
                    intrinsic_types@,
                    builtin_types@,
                    None,
                    false,
                    0,
                    0,
                    Ok(Some(s.elements@[i])),
                )
        }),
{
    if let Some(c) = context {
        match c.validate_complete() {
            Ok(()) => {},
            Err(e) => {
                return Err(ObjectStreamError::IncompleteReadContext(e));
            },
        }
    }
    crate::stream::validate_stream_version(version)?;
    let ghost ctx = spec_context_of(context);
    let ghost all = roots@;
    let mut pending = roots;
    let mut elements: Vec<Element> = Vec::new();
    let ghost mut origin: Seq<(int, usize, usize)> = Seq::empty();
    let mut skipped: usize = 0;
    let mut i: usize = 0;
    let n = pending.len();
    while pending.len() > 0
        invariant
            all.len() == n,
            i <= n,
            pending@ == all.subrange(i as int, n as int),
            spec_read_origins(all, xml, version, ctx, intrinsic_types@, builtin_types@, elements@, origin),
            ctx is None ==> skipped == 0 && elements@.len() == i,
            ctx is None ==> forall|k: int| 0 <= k < elements@.len() ==> origin[k] == (k, 0usize, 0usize),
        decreases pending.len(),
    {
        assert(i < n);
        let value = pending.remove(0);
        assert(value == all[i as int]);
        assert(pending@ =~= all.subrange(i + 1, n as int));
        let ghost before = skipped;
        let read = read_text_element(
            value,
            xml,
            version,
            hashes,
            context,
            converters,
            codecs,
            intrinsic_types,
            builtin_types,
            None,
            false,
            &mut skipped,
        );
        let ghost after = skipped;
        assert(spec_text_read(all[i as int], xml, version, ctx, intrinsic_types@, builtin_types@, None, false, before, after, read));
        match read {
            Err(e) => {
                return Err(e);
            },
            Ok(Some(e)) => {
                let ghost kept = elements@;
                let ghost kept_origin = origin;
                elements.push(e);
                proof {
                    origin = origin.push((i as int, before, after));
                    assert forall|k: int| 0 <= k < elements@.len() implies 0 <= (#[trigger] origin[k]).0 < all.len()
                        && spec_text_read(
                        all[origin[k].0],
                        xml,
                        version,
                        ctx,
                        intrinsic_types@,
                        builtin_types@,
                        None,
                        false,
                        origin[k].1,
                        origin[k].2,
                        Ok(Some(elements@[k])),
                    ) by {
                        if k < kept.len() {
                            assert(elements@[k] == kept[k]);
                            assert(origin[k] == kept_origin[k]);
                        }
                    }
                    assert(spec_read_origins(all, xml, version, ctx, intrinsic_types@, builtin_types@, elements@, origin));
                }
            },
            Ok(None) => {},
        }
        i = i + 1;
    }
    let tag = if xml {
        crate::stream::StreamTag::xml()
    } else {
        crate::stream::StreamTag::json()
    };
    let out = ObjectStream { tag, version, elements, skipped_children: skipped };
    proof {
        assert(spec_read_origins(
            roots@,
            xml,
            version,
            spec_context_of(context),
            intrinsic_types@,
            builtin_types@,
            out.elements@,
            origin,
        ));
        assert(spec_roots_read(roots@, xml, version, spec_context_of(context), intrinsic_types@, builtin_types@, out.elements@));
        if ctx is None {
            assert forall|k: int| 0 <= k < out.elements@.len() implies #[trigger] spec_text_read(
                roots@[k],
                xml,
                version,
                None,
                intrinsic_types@,
                builtin_types@,
                None,
                false,
                0,
                0,
                Ok(Some(out.elements@[k])),
            ) by {
                assert(origin[k] == (k, 0usize, 0usize));
            }
        }
    }
    Ok(out)
}

/// Binary, XML and JSON reads normalize to one in-memory shape: read
/// without a read context, an element that a binary header announces and
/// the same element spelled in an XML or JSON document (the same type,
/// specialization and version, and the field the header names) come out
/// with the same type, specialization, version, field, field CRC, raw
/// resolution and conversion state.
pub proof fn lemma_raw_reads_agree(
    header: crate::reader::BinaryElementHeader,
    opened: crate::reader::PendingElement,
    value: TextElement,
    xml: bool,
    stream_version: u32,
    intrinsic: Seq<(AzUuid, &str)>,
    builtin: Seq<(AzUuid, BuiltinSerializerKind)>,
    before: usize,
    after: usize,
    read: Element,
)
    requires
        crate::reader::spec_raw_opened(header, opened),
        spec_text_read(value, xml, stream_version, None, intrinsic, builtin, None, false, before, after, Ok(Some(read))),
        value.id == header.id,
        value.specialization == header.specialization,
        value.version == header.version,
        crate::tree::spec_opt_text(header.field) == spec_text_field(value, xml, intrinsic),
        header.name_crc == match spec_text_field(value, xml, intrinsic) {
            Some(f) => Some(crate::crc::spec_field_name_crc(f)),
            None => None,
        },
    ensures
        read.id == opened.element.id,
        read.specialization == opened.element.specialization,
        read.version == opened.element.version,
        read.name_crc == opened.element.name_crc,
        crate::tree::spec_opt_text(read.field) == crate::tree::spec_opt_text(opened.element.field),
        read.resolution.spec_get() == opened.element.resolution.spec_get(),
        read.version_state == opened.element.version_state,
{
}

/// The same shape holds with a payload: a binary element that a header
/// with a value announces, carrying payload `payload` (the header's size
/// being its length), and the same element spelled in an XML or JSON
/// document whose value the library decodes to the big-endian bytes
/// `payload`, read without a read context to the same type,
/// specialization, version, field, field CRC, resolution, conversion
/// state, payload, payload size and payload encoding.
pub proof fn lemma_raw_payload_reads_agree(
    header: crate::reader::BinaryElementHeader,
    opened: crate::reader::PendingElement,
    binary: Element,
    payload: Seq<u8>,
    value: TextElement,
    xml: bool,
    stream_version: u32,
    intrinsic: Seq<(AzUuid, &str)>,
    builtin: Seq<(AzUuid, BuiltinSerializerKind)>,
    before: usize,
    after: usize,
    read: Element,
)
    requires
        crate::reader::spec_raw_opened(header, opened),
        header.data_size == Some(payload.len() as usize),
        binary@ == (crate::tree::ElementView { data: Some(payload), ..opened.element@ }),
        spec_text_read(value, xml, stream_version, None, intrinsic, builtin, None, false, before, after, Ok(Some(read))),
        value.id == header.id,
        value.specialization == header.specialization,
        value.version == header.version,
        crate::tree::spec_opt_text(header.field) == spec_text_field(value, xml, intrinsic),
        header.name_crc == match spec_text_field(value, xml, intrinsic) {
            Some(f) => Some(crate::crc::spec_field_name_crc(f)),
            None => None,
        },
        spec_decoded_payload(
            value.value,
            value.id,
            match value.version {
                Some(v) => v,
                None => 0,
            },
            None,
            None,
            builtin,
        ) == Some((Some(payload), PayloadEncoding::BinaryBigEndian)),
    ensures
        read@.id == binary@.id,
        read@.specialization == binary@.specialization,
        read@.version == binary@.version,
        read@.name_crc == binary@.name_crc,
        read@.field == binary@.field,
        read@.resolution == binary@.resolution,
        read@.version_state == binary@.version_state,
        read@.data == binary@.data,
        read@.data_size == binary@.data_size,
        read@.payload_encoding == binary@.payload_encoding,
{
}

/// A text child read with a read context under a resolved parent `p`, with
/// no converting ancestor, is bound to its parent's field as the binary
/// reader binds it (`finalize_reachable_child`): once it has passed its own
/// resolution, version and payload checks, a successful read has the
/// outcome of binding the child renamed under `p`, and a child with no
/// children of its own whose value the library decodes gets exactly that
/// outcome (or its own cardinality error).  So a child whose field CRC,
/// after the parent's import renames, names no field of the parent's class
/// never reads under the strict unmatched-child policy (a leaf fails with
/// `UnexpectedReachableChild`), and under the skipping policy it is dropped
/// (a leaf is dropped and counted).
pub proof fn lemma_text_child_is_bound(
    value: TextElement,
    xml: bool,
    stream_version: u32,
    c: ObjectStreamReadContext,
    intrinsic: Seq<(AzUuid, &str)>,
    builtin: Seq<(AzUuid, BuiltinSerializerKind)>,
    p: ReflectedClassKey,
    before: usize,
    after: usize,
    r: Result<Option<Element>, ObjectStreamError>,
)
    requires
        spec_text_read(value, xml, stream_version, Some(c), intrinsic, builtin, Some(p), false, before, after, r),
        ({
            let field = spec_text_field(value, xml, intrinsic);
            let crc = match field {
                Some(f) => Some(crate::crc::spec_field_name_crc(f)),
                None => None,
            };
            let v0: u32 = match value.version {
                Some(v) => v,
                None => 0,
            };
            let res = c.spec_resolve(
                ResolveTypeInput {
                    stream_version,
                    raw_type_id: value.id,
                    specialization_type_id: spec_text_lookup_specialization(value, xml, stream_version),
                    element_version: v0,
                    name_crc: crc,
                    parent: Some(p),
                },
            );
            &&& crate::stream::spec_specialization_check(stream_version, value.id, value.specialization) is Ok
            &&& c.spec_fate_check(res, value.id) == Ok::<ElementFate, ObjectStreamError>(ElementFate::Retain)
            &&& c.spec_version_check(res.class->0, v0) matches Ok(st) && !(st is StrictDefaultStructural)
                && !(st is RegisteredConverter) && !(st is DeprecatedDiscard)
            &&& c.spec_payload_check(res.class->0, value.value is Some) is Ok
        }),
    ensures
        ({
            let field = spec_text_field(value, xml, intrinsic);
            let crc = match field {
                Some(f) => Some(crate::crc::spec_field_name_crc(f)),
                None => None,
            };
            let v0: u32 = match value.version {
                Some(v) => v,
                None => 0,
            };
            let res = c.spec_resolve(
                ResolveTypeInput {
                    stream_version,
                    raw_type_id: value.id,
                    specialization_type_id: spec_text_lookup_specialization(value, xml, stream_version),
                    element_version: v0,
                    name_crc: crc,
                    parent: Some(p),
                },
            );
            let leaf = value.children@.len() == 0 && spec_decoded_payload(
                value.value,
                value.id,
                v0,
                Some(c),
                Some(res),
                builtin,
            ) is Some && c.spec_cardinality_check(res.class->0, 0) is Ok;
            let header = spec_text_header_view(value, crc, field);
            let c1 = c.spec_renamed(p, header);
            let res1 = c.spec_resolve(ObjectStreamReadContext::spec_child_input(stream_version, c1, Some(p)));
            &&& (r is Ok ==> spec_text_binding_result(c, p, header, stream_version, r))
            &&& (leaf ==> spec_text_bound(c, p, header, stream_version, before, after, r))
            &&& (res1.type_id is Some && res1.class is Some ==> (c.spec_class(p) matches Some(pd) ==> (!(pd.type_id.bits
                == crate::context::DYNAMIC_SERIALIZABLE_FIELD_TYPE_ID && c1.name_crc == Some(
                crate::context::spec_m_data_crc(),
            )) && crate::context::spec_find_field(pd, c1.name_crc) is None ==> {
                &&& c.spec_unmatched_policy() == crate::context::UnmatchedChildPolicy::Fail ==> r is Err
                &&& c.spec_unmatched_policy() == crate::context::UnmatchedChildPolicy::NativeSkip ==> (r is Ok ==> r
                    == Ok::<Option<Element>, ObjectStreamError>(None))
                &&& leaf && c.spec_unmatched_policy() == crate::context::UnmatchedChildPolicy::Fail ==> r == Err::<
                    Option<Element>,
                    ObjectStreamError,
                >(
                    ObjectStreamError::UnexpectedReachableChild {
                        parent_type_id: pd.type_id,
                        child_type_id: value.id,
                        name_crc: c1.name_crc,
                    },
                )
                &&& leaf && c.spec_unmatched_policy() == crate::context::UnmatchedChildPolicy::NativeSkip ==> r == Ok::<
                    Option<Element>,
                    ObjectStreamError,
                >(None) && spec_skip_counted(before, after)
            })))
        }),
{
}

} // verus!
