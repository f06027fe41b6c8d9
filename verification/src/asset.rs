//! Native `AssetSerializer` payload layouts for `AZ::Data::Asset<T>` and
//! `SimpleAssetReference` values, and the historical hint layouts found in
//! older binary dumps.
use vstd::prelude::*;

use crate::az_uuid::AzUuid;
use crate::bytes::{read_be, read_le, spec_be_nat, spec_le_nat, sub_slice};
use vstd::string::StrSliceExecFns;
use crate::codec::{spec_strip_braces, BuiltinSerializerKind, NativeEndian};
use crate::az_uuid::{spec_uuid_braced_upper, spec_uuid_hyphenated, spec_uuid_parse, uuid_braced_upper, uuid_hyphenated};
use crate::scan::{
    ascii_cut, find_from, lemma_find_from_found, lemma_rfind_found, matches_at, rfind_byte, spec_find_from,
    spec_matches_at, spec_rfind_byte,
};
use crate::text::{
    parse_hex_u32, spec_parse_hex_u32, spec_trim, spec_u32_upper_hex, spec_u64_decimal, u32_upper_hex, u64_decimal,
};
use vstd::string::StringExecFns;

verus! {

/// Payload offset of the asset type UUID.
pub const ASSET_TYPE_OFFSET: usize = 32;
/// End of the fixed part (`guid`, `subId`, padding, asset type).
pub const ASSET_TYPE_END: usize = 48;
/// Offset of the 8-byte hint length (serializer version 1 and later).
pub const ASSET_HINT_LEN_OFFSET: usize = 48;
/// Offset of the hint bytes (serializer version 1 and later).
pub const ASSET_HINT_OFFSET: usize = 56;
/// `AssetLoadBehavior::PreLoad`.
pub const DEFAULT_LOAD_BEHAVIOR: u8 = 1;

/// Decoded `AZ::Data::Asset<T>` value borrowing its hint from the payload.
#[derive(Clone, Copy, Debug, PartialEq, Eq)]
pub struct AssetValue<'a> {
    guid: AzUuid,
    sub_id: u32,
    asset_type: AzUuid,
    hint: &'a str,
    load_behavior: Option<u8>,
}

impl<'a> AssetValue<'a> {
    pub closed spec fn spec_guid(self) -> AzUuid {
        self.guid
    }

    pub closed spec fn spec_sub_id(self) -> u32 {
        self.sub_id
    }

    pub closed spec fn spec_asset_type(self) -> AzUuid {
        self.asset_type
    }

    pub closed spec fn spec_hint(self) -> Seq<char> {
        self.hint@
    }

    pub closed spec fn spec_load_behavior(self) -> Option<u8> {
        self.load_behavior
    }

    pub fn new(guid: AzUuid, sub_id: u32, asset_type: AzUuid, hint: &'a str) -> (r: Self)
        ensures
            r.spec_guid() == guid,
            r.spec_sub_id() == sub_id,
            r.spec_asset_type() == asset_type,
            r.spec_hint() == hint@,
            r.spec_load_behavior() is None,
    {
        AssetValue { guid, sub_id, asset_type, hint, load_behavior: None }
    }

    pub fn with_load_behavior(self, load_behavior: u8) -> (r: Self)
        ensures
            r.spec_guid() == self.spec_guid(),
            r.spec_sub_id() == self.spec_sub_id(),
            r.spec_asset_type() == self.spec_asset_type(),
            r.spec_hint() == self.spec_hint(),
            r.spec_load_behavior() == Some(load_behavior),
    {
        AssetValue { load_behavior: Some(load_behavior), ..self }
    }

    pub fn guid(self) -> (r: AzUuid)
        ensures
            r == self.spec_guid(),
    {
        self.guid
    }

    pub fn sub_id(self) -> (r: u32)
        ensures
            r == self.spec_sub_id(),
    {
        self.sub_id
    }

    pub fn asset_type(self) -> (r: AzUuid)
        ensures
            r == self.spec_asset_type(),
    {
        self.asset_type
    }

    pub fn hint(self) -> (r: &'a str)
        ensures
            r@ == self.spec_hint(),
    {
        self.hint
    }

    pub fn load_behavior(self) -> (r: Option<u8>)
        ensures
            r == self.spec_load_behavior(),
    {
        self.load_behavior
    }
}

#[derive(Debug)]
#[allow(inconsistent_fields)]
pub enum AssetValueError {
    /// Expected `AZ::Data::Asset`, got another type.
    UnexpectedType { actual: AzUuid },
    /// The asset element has no value bytes.
    MissingData,
    /// The payload is shorter than its serializer version requires.
    TooShort { expected: usize, actual: usize },
    /// The declared hint length exceeds the available bytes.
    InvalidHintLength { declared: u64, actual: usize },
    /// The sub id does not fit `u32`.
    SubIdOverflow,
    /// Text does not match the `AssetSerializer` syntax.
    InvalidText,
    /// The serializer version is above 2.
    UnsupportedVersion(u32),
    /// A native-endian payload carries no serializer endian metadata.
    MissingNativeEndianMetadata,
    /// The hint is not valid UTF-8.
    Utf8(std::str::Utf8Error),
    /// No known value layout matches the payload length.
    UnsupportedLayout(usize),
}

/// Integer field read in the given byte order.
pub open spec fn spec_endian_nat(s: Seq<u8>, endian: NativeEndian) -> nat {
    match endian {
        NativeEndian::Little => spec_le_nat(s),
        NativeEndian::Big => spec_be_nat(s),
    }
}

fn read_endian(data: &[u8], start: usize, width: usize, endian: NativeEndian) -> (r: u64)
    requires
        width <= 8,
        start + width <= data@.len(),
    ensures
        r as nat == spec_endian_nat(data@.subrange(start as int, start + width), endian),
{
    match endian {
        NativeEndian::Little => read_le(data, start, width),
        NativeEndian::Big => read_be(data, start, width),
    }
}

/// Minimum payload length a serializer version needs.
pub open spec fn spec_asset_min_len(version: u32) -> nat {
    48 + (if version > 0 { 8nat } else { 0nat }) + (if version > 1 { 1nat } else { 0nat })
}

/// Declared hint length of a version 1+ payload.
pub open spec fn spec_hint_len(data: Seq<u8>, endian: NativeEndian) -> nat {
    spec_endian_nat(data.subrange(48, 56), endian)
}

/// Bytes available for the hint in a version 1+ payload.
pub open spec fn spec_hint_room(data: Seq<u8>, version: u32) -> int {
    data.len() - 56 - (if version > 1 { 1int } else { 0int })
}

/// The hint bytes of a version 1+ payload whose declared length fits.
pub open spec fn spec_hint_bytes(data: Seq<u8>, endian: NativeEndian) -> Seq<u8> {
    data.subrange(56, 56 + spec_hint_len(data, endian) as int)
}

/// Logical value the native `AssetSerializer` load/save operations act on.
#[derive(Debug, PartialEq, Eq)]
pub struct AssetValueLayout {
    pub guid: AzUuid,
    pub sub_id: u32,
    pub asset_type: AzUuid,
    pub hint: String,
    pub load_behavior: u8,
}

/// `data` is a loadable payload for `version` in byte order `endian`.
pub open spec fn spec_asset_loadable(data: Seq<u8>, version: u32, endian: NativeEndian) -> bool {
    &&& version <= 2
    &&& data.len() >= spec_asset_min_len(version)
    &&& version > 0 ==> spec_hint_len(data, endian) <= spec_hint_room(data, version)
    &&& version > 0 ==> vstd::utf8::valid_utf8(spec_hint_bytes(data, endian))
}

/// The fields a successful load reads out of `data`.
pub open spec fn spec_asset_loaded(v: AssetValueLayout, data: Seq<u8>, version: u32, endian: NativeEndian) -> bool {
    &&& v.guid.bits as nat == spec_be_nat(data.subrange(0, 16))
    &&& v.sub_id as nat == spec_endian_nat(data.subrange(16, 20), endian)
    &&& v.asset_type.bits as nat == spec_be_nat(data.subrange(32, 48))
    &&& v.hint@ == (if version == 0 {
        Seq::<char>::empty()
    } else {
        vstd::utf8::decode_utf8(spec_hint_bytes(data, endian))
    })
    &&& v.load_behavior == (if version > 1 {
        data[56 + spec_hint_len(data, endian) as int]
    } else {
        DEFAULT_LOAD_BEHAVIOR
    })
}

impl AssetValueLayout {
    /// The fields `(guid, subId, assetType, hint, loadBehavior)`.
    pub open spec fn spec_fields(self) -> (u128, u32, u128, Seq<char>, u8) {
        (self.guid.bits, self.sub_id, self.asset_type.bits, self.hint@, self.load_behavior)
    }

    /// Native load: consume the fields the serialized element version
    /// defines.  Later bytes are ignored, as the native load does when text
    /// conversion saved a newer layout.
    pub fn load_owned(data: &[u8], element_version: u32, endian: NativeEndian) -> (r: Result<Self, AssetValueError>)
        ensures
            element_version > 2 ==> (r matches Err(AssetValueError::UnsupportedVersion(v)) && v == element_version),
            element_version <= 2 && data@.len() < spec_asset_min_len(element_version) ==> (r matches Err(
                AssetValueError::TooShort { expected, actual },
            ) && expected == spec_asset_min_len(element_version) && actual == data@.len()),
            element_version > 0 && element_version <= 2 && data@.len() >= spec_asset_min_len(element_version)
                && spec_hint_len(data@, endian) > spec_hint_room(data@, element_version) ==> (r matches Err(
                AssetValueError::InvalidHintLength { declared, actual },
            ) && declared == spec_hint_len(data@, endian) && actual == spec_hint_room(data@, element_version)),
            element_version > 0 && element_version <= 2 && data@.len() >= spec_asset_min_len(element_version)
                && spec_hint_len(data@, endian) <= spec_hint_room(data@, element_version)
                && !vstd::utf8::valid_utf8(spec_hint_bytes(data@, endian)) ==> r matches Err(AssetValueError::Utf8(_)),
            r is Ok <==> spec_asset_loadable(data@, element_version, endian),
            r matches Ok(v) ==> spec_asset_loaded(v, data@, element_version, endian),
    {
        if element_version > 2 {
            return Err(AssetValueError::UnsupportedVersion(element_version));
        }
        let minimum: usize = 48 + (if element_version > 0 { 8 } else { 0 }) + (if element_version > 1 { 1 } else { 0 });
        if data.len() < minimum {
            return Err(AssetValueError::TooShort { expected: minimum, actual: data.len() });
        }
        let guid = AzUuid::from_slice(data, 0);
        let sub_id = read_endian(data, 16, 4, endian);
        proof {
            crate::bytes::lemma_pow256_values();
            crate::bytes::lemma_be_nat_bound(data@.subrange(16, 20).reverse());
            crate::bytes::lemma_be_nat_bound(data@.subrange(16, 20));
        }
        let asset_type = AzUuid::from_slice(data, ASSET_TYPE_OFFSET);
        if element_version == 0 {
            return Ok(AssetValueLayout {
                guid,
                sub_id: sub_id as u32,
                asset_type,
                hint: String::new(),
                load_behavior: DEFAULT_LOAD_BEHAVIOR,
            });
        }
        let hint_len = read_endian(data, ASSET_HINT_LEN_OFFSET, 8, endian);
        let trailing: usize = if element_version > 1 { 1 } else { 0 };
        let available = data.len() - ASSET_HINT_OFFSET - trailing;
        if hint_len > available as u64 {
            return Err(AssetValueError::InvalidHintLength { declared: hint_len, actual: available });
        }
        let hint_end = ASSET_HINT_OFFSET + hint_len as usize;
        let hint_bytes = sub_slice(data, ASSET_HINT_OFFSET, hint_end);
        let hint = match crate::text::utf8_str(hint_bytes) {
            Ok(text) => text.to_owned(),
            Err(error) => {
                return Err(AssetValueError::Utf8(error));
            },
        };
        let behavior = if element_version > 1 { data[hint_end] } else { DEFAULT_LOAD_BEHAVIOR };
        Ok(AssetValueLayout { guid, sub_id: sub_id as u32, asset_type, hint, load_behavior: behavior })
    }

    /// Native load in big-endian wire order.
    pub fn load(data: &[u8], element_version: u32) -> (r: Result<AssetValue<'_>, AssetValueError>)
        ensures
            r is Ok <==> spec_asset_loadable(data@, element_version, NativeEndian::Big),
            r matches Ok(v) ==> spec_asset_value_loaded(v, data@, element_version, NativeEndian::Big),
            r matches Err(e) ==> Self::load_owned_error(e, data@, element_version, NativeEndian::Big),
    {
        Self::load_with_endian(data, element_version, NativeEndian::Big)
    }

    /// Native load in the given byte order, borrowing the hint from `data`.
    /// The load behavior is reported only for serializer version 2 payloads.
    pub fn load_with_endian(data: &[u8], element_version: u32, endian: NativeEndian) -> (r: Result<AssetValue<'_>, AssetValueError>)
        ensures
            r is Ok <==> spec_asset_loadable(data@, element_version, endian),
            r matches Ok(v) ==> spec_asset_value_loaded(v, data@, element_version, endian),
            r matches Err(e) ==> Self::load_owned_error(e, data@, element_version, endian),
    {
        let n = data.len();
        let logical = match Self::load_owned(data, element_version, endian) {
            Ok(logical) => logical,
            Err(error) => {
                return Err(error);
            },
        };
        let hint: &str = if element_version == 0 {
            ""
        } else {
            let hint_len = read_endian(data, ASSET_HINT_LEN_OFFSET, 8, endian);
            assert(hint_len as nat == spec_hint_len(data@, endian));
            assert(hint_len <= n - 56);
            let hint_end = ASSET_HINT_OFFSET + hint_len as usize;
            assert(data@.subrange(56, hint_end as int) == spec_hint_bytes(data@, endian));
            match crate::text::utf8_str(sub_slice(data, ASSET_HINT_OFFSET, hint_end)) {
                Ok(text) => text,
                Err(error) => {
                    return Err(AssetValueError::Utf8(error));
                },
            }
        };
        proof {
            reveal_strlit("");
        }
        let value = AssetValue::new(logical.guid, logical.sub_id, logical.asset_type, hint);
        assert(spec_asset_loaded(logical, data@, element_version, endian));
        assert(value.spec_hint() == logical.hint@);
        if element_version > 1 {
            Ok(value.with_load_behavior(logical.load_behavior))
        } else {
            Ok(value)
        }
    }

    /// Native save for the registered serializer generation, in big-endian
    /// wire order: `guid`, `subId`, twelve padding bytes, the asset type,
    /// then (version 1+) the hint length and hint, then (version 2) the load
    /// behavior.
    pub fn to_big_endian_bytes(&self, serializer_version: u32) -> (r: Result<Vec<u8>, AssetValueError>)
        ensures
            serializer_version > 2 ==> (r matches Err(AssetValueError::UnsupportedVersion(v)) && v == serializer_version),
            serializer_version <= 2 ==> (r matches Ok(bytes) && bytes@ == spec_asset_save(*self, serializer_version)),
    {
        if serializer_version > 2 {
            return Err(AssetValueError::UnsupportedVersion(serializer_version));
        }
        let mut bytes = self.guid.to_bytes();
        let sub_id = crate::bytes::write_be(self.sub_id as u64, 4);
        crate::bytes::extend_bytes(&mut bytes, sub_id.as_slice());
        let padding = crate::bytes::write_be(0, 12);
        crate::bytes::extend_bytes(&mut bytes, padding.as_slice());
        let asset_type = self.asset_type.to_bytes();
        crate::bytes::extend_bytes(&mut bytes, asset_type.as_slice());
        if serializer_version > 0 {
            let hint = self.hint.as_str().as_bytes();
            let hint_len = crate::bytes::write_be(hint.len() as u64, 8);
            crate::bytes::extend_bytes(&mut bytes, hint_len.as_slice());
            crate::bytes::extend_bytes(&mut bytes, hint);
        }
        if serializer_version > 1 {
            bytes.push(self.load_behavior);
        }
        Ok(bytes)
    }

    /// The failure `load_owned` reports for an unloadable payload.
    pub open spec fn load_owned_error(e: AssetValueError, data: Seq<u8>, version: u32, endian: NativeEndian) -> bool {
        &&& version > 2 ==> (e matches AssetValueError::UnsupportedVersion(v) && v == version)
        &&& version <= 2 && data.len() < spec_asset_min_len(version) ==> (e matches AssetValueError::TooShort {
            expected,
            actual,
        } && expected == spec_asset_min_len(version) && actual == data.len())
        &&& version > 0 && version <= 2 && data.len() >= spec_asset_min_len(version) && spec_hint_len(data, endian)
            > spec_hint_room(data, version) ==> (e matches AssetValueError::InvalidHintLength { declared, actual }
            && declared == spec_hint_len(data, endian) && actual == spec_hint_room(data, version))
        &&& version > 0 && version <= 2 && data.len() >= spec_asset_min_len(version) && spec_hint_len(data, endian)
            <= spec_hint_room(data, version) && !vstd::utf8::valid_utf8(spec_hint_bytes(data, endian))
            ==> e matches AssetValueError::Utf8(_)
    }
}

/// Bytes the native save writes for the fields `(guid, subId, assetType,
/// hint, loadBehavior)` at `version`.
pub open spec fn spec_asset_save_fields(f: (u128, u32, u128, Seq<char>, u8), version: u32) -> Seq<u8> {
    let fixed = crate::bytes::spec_be_bytes(f.0 as nat, 16) + crate::bytes::spec_be_bytes(f.1 as nat, 4)
        + crate::bytes::spec_be_bytes(0, 12) + crate::bytes::spec_be_bytes(f.2 as nat, 16);
    let hint = vstd::utf8::encode_utf8(f.3);
    let with_hint = if version > 0 {
        fixed + crate::bytes::spec_be_bytes(hint.len(), 8) + hint
    } else {
        fixed
    };
    if version > 1 {
        with_hint.push(f.4)
    } else {
        with_hint
    }
}

/// Bytes the native save writes for `v` at `version`.
pub open spec fn spec_asset_save(v: AssetValueLayout, version: u32) -> Seq<u8> {
    spec_asset_save_fields(v.spec_fields(), version)
}

/// Loading what the native save wrote, at the same serializer version and in
/// wire order, gives back the saved identity and sub id, the saved hint from
/// version 1 on (empty before), and the saved load behavior at version 2
/// (`PreLoad` before).
pub proof fn lemma_asset_save_load_roundtrip(v: AssetValueLayout, version: u32)
    requires
        version <= 2,
        vstd::utf8::encode_utf8(v.hint@).len() <= usize::MAX,
    ensures
        spec_asset_loadable(spec_asset_save(v, version), version, NativeEndian::Big),
        forall|w: AssetValueLayout| #[trigger] spec_asset_loaded(w, spec_asset_save(v, version), version, NativeEndian::Big) ==> {
            &&& w.guid == v.guid
            &&& w.sub_id == v.sub_id
            &&& w.asset_type == v.asset_type
            &&& w.hint@ == (if version == 0 { Seq::<char>::empty() } else { v.hint@ })
            &&& w.load_behavior == (if version > 1 { v.load_behavior } else { DEFAULT_LOAD_BEHAVIOR })
        },
{
    let data = spec_asset_save(v, version);
    let hint = vstd::utf8::encode_utf8(v.hint@);
    crate::bytes::lemma_be_bytes_len(v.guid.bits as nat, 16);
    crate::bytes::lemma_be_bytes_len(v.sub_id as nat, 4);
    crate::bytes::lemma_be_bytes_len(0, 12);
    crate::bytes::lemma_be_bytes_len(v.asset_type.bits as nat, 16);
    crate::bytes::lemma_be_bytes_len(hint.len(), 8);
    crate::bytes::lemma_pow256_values();
    let fixed = v.guid.spec_bytes() + crate::bytes::spec_be_bytes(v.sub_id as nat, 4)
        + crate::bytes::spec_be_bytes(0, 12) + v.asset_type.spec_bytes();
    assert(fixed.len() == 48);
    assert(data.subrange(0, 16) =~= v.guid.spec_bytes());
    assert(data.subrange(16, 20) =~= crate::bytes::spec_be_bytes(v.sub_id as nat, 4));
    assert(data.subrange(32, 48) =~= v.asset_type.spec_bytes());
    crate::bytes::lemma_be_roundtrip_fits(v.guid.bits as nat, 16);
    crate::bytes::lemma_be_roundtrip_fits(v.sub_id as nat, 4);
    crate::bytes::lemma_be_roundtrip_fits(v.asset_type.bits as nat, 16);
    if version > 0 {
        vstd::utf8::encode_utf8_valid_utf8(v.hint@);
        vstd::utf8::encode_utf8_decode_utf8(v.hint@);
        assert(data.subrange(48, 56) =~= crate::bytes::spec_be_bytes(hint.len(), 8));
        crate::bytes::lemma_be_roundtrip_fits(hint.len(), 8);
        assert(spec_hint_len(data, NativeEndian::Big) == hint.len());
        assert(spec_hint_bytes(data, NativeEndian::Big) =~= hint);
        if version > 1 {
            assert(data[56 + hint.len() as int] == v.load_behavior);
        }
    }
}

/// The fields a borrowed load reports.
pub open spec fn spec_asset_value_loaded(v: AssetValue, data: Seq<u8>, version: u32, endian: NativeEndian) -> bool {
    &&& v.spec_guid().bits as nat == spec_be_nat(data.subrange(0, 16))
    &&& v.spec_sub_id() as nat == spec_endian_nat(data.subrange(16, 20), endian)
    &&& v.spec_asset_type().bits as nat == spec_be_nat(data.subrange(32, 48))
    &&& v.spec_hint() == (if version == 0 {
        Seq::<char>::empty()
    } else {
        vstd::utf8::decode_utf8(spec_hint_bytes(data, endian))
    })
    &&& v.spec_load_behavior() == (if version > 1 {
        Some(data[56 + spec_hint_len(data, endian) as int])
    } else {
        None
    })
}

// === AssetSerializer text form ===

/// UUID of serializer text: trimmed, braces stripped, parsed by `uuid`.
pub open spec fn spec_text_uuid(text: Seq<char>) -> Option<u128> {
    spec_uuid_parse(spec_strip_braces(vstd::utf8::encode_utf8(spec_trim(text))))
}

/// The byte pieces of `id={guid}:{subId},type={type}` text, with
/// `,hint={hint}` from version 1 and `,loadBehavior={behavior}` from
/// version 2: the guid text, sub id text, type text before its closing
/// brace, hint text and load-behavior text.
pub open spec fn spec_asset_text_parts(b: Seq<u8>, version: u32) -> Option<(Seq<u8>, Seq<u8>, Seq<u8>, Seq<u8>, Seq<u8>)> {
    if !spec_matches_at(b, seq![105u8, 100, 61], 0) {
        None
    } else {
        match spec_find_from(b, seq![44u8, 116, 121, 112, 101, 61], 3) {
            None => None,
            Some(i1) => match spec_rfind_byte(b, 58, 3, i1) {
                None => None,
                Some(c) => match spec_find_from(b, seq![125u8], i1 + 6) {
                    None => None,
                    Some(j) => {
                        let guid = b.subrange(3, c);
                        let sub = b.subrange(c + 1, i1);
                        let ty = b.subrange(i1 + 6, j);
                        if version == 0 {
                            Some((guid, sub, ty, Seq::empty(), Seq::empty()))
                        } else if !spec_matches_at(b, seq![44u8, 104, 105, 110, 116, 61, 123], j + 1) {
                            None
                        } else {
                            match spec_find_from(b, seq![125u8], j + 8) {
                                None => None,
                                Some(k) => {
                                    let hint = b.subrange(j + 8, k);
                                    if version == 1 {
                                        Some((guid, sub, ty, hint, Seq::empty()))
                                    } else if !spec_matches_at(
                                        b,
                                        seq![44u8, 108, 111, 97, 100, 66, 101, 104, 97, 118, 105, 111, 114, 61],
                                        k + 1,
                                    ) {
                                        None
                                    } else {
                                        Some((guid, sub, ty, hint, b.subrange(k + 15, b.len() as int)))
                                    }
                                }
                            }
                        }
                    }
                }
            }
        }
    }
}

/// The value `AssetSerializer` text of `version` spells: guid bits, sub id
/// (hexadecimal), asset type bits, hint and load behavior (hexadecimal,
/// version 2 only; `PreLoad` before).
pub open spec fn spec_asset_from_text(b: Seq<u8>, version: u32) -> Option<(u128, u32, u128, Seq<char>, u8)> {
    match spec_asset_text_parts(b, version) {
        None => None,
        Some(parts) => {
            let guid = spec_text_uuid(vstd::utf8::decode_utf8(parts.0));
            let sub_id = spec_parse_hex_u32(vstd::utf8::decode_utf8(parts.1));
            let asset_type = spec_text_uuid(vstd::utf8::decode_utf8(parts.2).push('}'));
            let behavior: Option<u8> = if version > 1 {
                match spec_parse_hex_u32(vstd::utf8::decode_utf8(parts.4)) {
                    Some(v) => if v <= 255 {
                        Some(v as u8)
                    } else {
                        None
                    },
                    None => None,
                }
            } else {
                Some(DEFAULT_LOAD_BEHAVIOR)
            };
            if guid is Some && sub_id is Some && asset_type is Some && behavior is Some {
                Some((guid->0, sub_id->0, asset_type->0, vstd::utf8::decode_utf8(parts.3), behavior->0))
            } else {
                None
            }
        },
    }
}

/// Parse an asset UUID field: trimmed, braces stripped, then `uuid`.
pub fn parse_asset_uuid(text: &str) -> (r: Result<AzUuid, AssetValueError>)
    ensures
        r matches Ok(u) ==> spec_text_uuid(text@) == Some(u.bits),
        r is Err ==> spec_text_uuid(text@) is None,
        r matches Err(e) ==> e is InvalidText,
{
    match crate::codec::parse_uuid(text) {
        Ok(u) => Ok(u),
        Err(_) => Err(AssetValueError::InvalidText),
    }
}

impl AssetValueLayout {
    /// Native `TextToData`: parse `AssetSerializer` text written by serializer
    /// version `text_version`.
    pub fn from_text(text: &str, text_version: u32) -> (r: Result<Self, AssetValueError>)
        ensures
            r is Ok <==> spec_asset_from_text(vstd::utf8::encode_utf8(text@), text_version) is Some,
            r matches Ok(v) ==> spec_asset_from_text(vstd::utf8::encode_utf8(text@), text_version) == Some(
                (v.guid.bits, v.sub_id, v.asset_type.bits, v.hint@, v.load_behavior),
            ),
            r matches Err(e) ==> e is InvalidText,
    {
        let b = text.as_bytes();
        let ghost s = b@;
        let n = b.len();
        let id_pat = vec![105u8, 100, 61];
        let type_pat = vec![44u8, 116, 121, 112, 101, 61];
        let close = vec![125u8];
        let hint_pat = vec![44u8, 104, 105, 110, 116, 61, 123];
        let behavior_pat = vec![44u8, 108, 111, 97, 100, 66, 101, 104, 97, 118, 105, 111, 114, 61];
        assert(id_pat@ =~= seq![105u8, 100, 61]);
        assert(type_pat@ =~= seq![44u8, 116, 121, 112, 101, 61]);
        assert(close@ =~= seq![125u8]);
        assert(hint_pat@ =~= seq![44u8, 104, 105, 110, 116, 61, 123]);
        assert(behavior_pat@ =~= seq![44u8, 108, 111, 97, 100, 66, 101, 104, 97, 118, 105, 111, 114, 61]);
        if !matches_at(b, id_pat.as_slice(), 0) {
            return Err(AssetValueError::InvalidText);
        }
        assert(s[2] == 61);
        let i1 = match find_from(b, type_pat.as_slice(), 3) {
            Some(i) => i,
            None => {
                return Err(AssetValueError::InvalidText);
            },
        };
        proof {
            assert(spec_matches_at(s, type_pat@, i1 as int)) by {
                lemma_find_from_found(s, type_pat@, 3, i1 as int);
            }
            assert(s[i1 as int] == s.subrange(i1 as int, i1 + 6)[0]);
            assert(s[i1 + 5] == s.subrange(i1 as int, i1 + 6)[5]);
        }
        let c = match rfind_byte(b, 58, 3, i1) {
            Some(c) => c,
            None => {
                return Err(AssetValueError::InvalidText);
            },
        };
        proof {
            lemma_rfind_found(s, 58, 3, i1 as int, c as int);
        }
        let j = match find_from(b, close.as_slice(), i1 + 6) {
            Some(j) => j,
            None => {
                return Err(AssetValueError::InvalidText);
            },
        };
        proof {
            lemma_find_from_found(s, close@, i1 + 6, j as int);
            assert(s[j as int] == s.subrange(j as int, j + 1)[0]);
        }
        let guid_text = ascii_cut(text, 3, c);
        let sub_text = ascii_cut(text, c + 1, i1);
        let type_text = ascii_cut(text, i1 + 6, j);
        let type_closed = type_text.to_owned().concat("}");
        proof {
            reveal_strlit("}");
            assert(type_closed@ =~= vstd::utf8::decode_utf8(s.subrange(i1 + 6, j as int)).push('}'));
        }
        let asset_type = match parse_asset_uuid(type_closed.as_str()) {
            Ok(u) => u,
            Err(e) => {
                return Err(e);
            },
        };
        let mut hint = String::new();
        let mut load_behavior = DEFAULT_LOAD_BEHAVIOR;
        let ghost mut hint_bytes: Seq<u8> = Seq::empty();
        let ghost mut behavior_bytes: Seq<u8> = Seq::empty();
        proof {
            reveal_strlit("");
        }
        if text_version > 0 {
            if !matches_at(b, hint_pat.as_slice(), j + 1) {
                return Err(AssetValueError::InvalidText);
            }
            proof {
                assert(s[j + 7] == s.subrange(j + 1, j + 8)[6]);
            }
            let k = match find_from(b, close.as_slice(), j + 8) {
                Some(k) => k,
                None => {
                    return Err(AssetValueError::InvalidText);
                },
            };
            proof {
                lemma_find_from_found(s, close@, j + 8, k as int);
                assert(s[k as int] == s.subrange(k as int, k + 1)[0]);
            }
            let hint_text = ascii_cut(text, j + 8, k);
            hint = hint_text.to_owned();
            proof {
                hint_bytes = s.subrange(j + 8, k as int);
            }
            if text_version > 1 {
                if !matches_at(b, behavior_pat.as_slice(), k + 1) {
                    return Err(AssetValueError::InvalidText);
                }
                proof {
                    assert(s[k + 14] == s.subrange(k + 1, k + 15)[13]);
                }
                let behavior_text = ascii_cut(text, k + 15, n);
                proof {
                    behavior_bytes = s.subrange(k + 15, n as int);
                }
                load_behavior = match parse_hex_u32(behavior_text) {
                    Some(v) => if v <= 255 {
                        v as u8
                    } else {
                        return Err(AssetValueError::InvalidText);
                    },
                    None => {
                        return Err(AssetValueError::InvalidText);
                    },
                };
            }
        }
        let guid = match parse_asset_uuid(guid_text) {
            Ok(u) => u,
            Err(e) => {
                return Err(e);
            },
        };
        let sub_id = match parse_hex_u32(sub_text) {
            Some(v) => v,
            None => {
                return Err(AssetValueError::InvalidText);
            },
        };
        assert(spec_asset_text_parts(s, text_version) == Some(
            (s.subrange(3, c as int), s.subrange(c + 1, i1 as int), s.subrange(i1 + 6, j as int), hint_bytes, behavior_bytes),
        ));
        Ok(AssetValueLayout { guid, sub_id, asset_type, hint, load_behavior })
    }
}

/// Display text of an asset payload error.
pub open spec fn spec_asset_error_message(e: AssetValueError) -> Seq<char> {
    match e {
        AssetValueError::UnexpectedType { actual } => "expected AZ::Data::Asset, got "@ + spec_uuid_hyphenated(
            actual.bits,
        ),
        AssetValueError::MissingData => "AZ::Data::Asset has no value bytes"@,
        AssetValueError::TooShort { expected, actual } => "AZ::Data::Asset has "@ + spec_u64_decimal(actual as u64)
            + " bytes, expected at least "@ + spec_u64_decimal(expected as u64),
        AssetValueError::InvalidHintLength { declared, actual } => "AZ::Data::Asset hint length "@
            + spec_u64_decimal(declared) + " exceeds "@ + spec_u64_decimal(actual as u64) + " available bytes"@,
        AssetValueError::SubIdOverflow => "AZ::Data::Asset sub id overflows u32"@,
        AssetValueError::InvalidText => "AZ::Data::Asset text does not match AssetSerializer syntax"@,
        AssetValueError::UnsupportedVersion(v) => "AZ::Data::Asset serializer version "@ + spec_u64_decimal(v as u64)
            + " is unsupported"@,
        AssetValueError::MissingNativeEndianMetadata => "AZ::Data::Asset native-endian payload has no serializer endian metadata"@,
        AssetValueError::Utf8(_) => "AZ::Data::Asset hint is not valid UTF-8"@,
        AssetValueError::UnsupportedLayout(n) => "AZ::Data::Asset does not match a known value layout in "@
            + spec_u64_decimal(n as u64) + " bytes"@,
    }
}

impl AssetValueError {
    /// The error's display text.
    pub fn message(&self) -> (r: String)
        ensures
            r@ == spec_asset_error_message(*self),
    {
        match self {
            AssetValueError::UnexpectedType { actual } => "expected AZ::Data::Asset, got ".to_owned().concat(
                uuid_hyphenated(*actual).as_str(),
            ),
            AssetValueError::MissingData => "AZ::Data::Asset has no value bytes".to_owned(),
            AssetValueError::TooShort { expected, actual } => "AZ::Data::Asset has ".to_owned().concat(
                u64_decimal(*actual as u64).as_str(),
            ).concat(" bytes, expected at least ").concat(u64_decimal(*expected as u64).as_str()),
            AssetValueError::InvalidHintLength { declared, actual } => "AZ::Data::Asset hint length ".to_owned().concat(
                u64_decimal(*declared).as_str(),
            ).concat(" exceeds ").concat(u64_decimal(*actual as u64).as_str()).concat(" available bytes"),
            AssetValueError::SubIdOverflow => "AZ::Data::Asset sub id overflows u32".to_owned(),
            AssetValueError::InvalidText => "AZ::Data::Asset text does not match AssetSerializer syntax".to_owned(),
            AssetValueError::UnsupportedVersion(v) => "AZ::Data::Asset serializer version ".to_owned().concat(
                u64_decimal(*v as u64).as_str(),
            ).concat(" is unsupported"),
            AssetValueError::MissingNativeEndianMetadata => "AZ::Data::Asset native-endian payload has no serializer endian metadata".to_owned(),
            AssetValueError::Utf8(_) => "AZ::Data::Asset hint is not valid UTF-8".to_owned(),
            AssetValueError::UnsupportedLayout(n) => "AZ::Data::Asset does not match a known value layout in ".to_owned().concat(
                u64_decimal(*n as u64).as_str(),
            ).concat(" bytes"),
        }
    }
}

/// `AssetSerializer` text of the fields at `version`:
/// `id={GUID}:{SUBID},type={TYPE}`, then `,hint={hint}` from version 1 and
/// `,loadBehavior={n}` at version 2 (UUIDs braced uppercase, the sub id in
/// uppercase hexadecimal, the load behavior in decimal).
pub open spec fn spec_asset_text(f: (u128, u32, u128, Seq<char>, u8), version: u32) -> Seq<char> {
    let head = "id="@ + spec_uuid_braced_upper(f.0) + ":"@ + spec_u32_upper_hex(f.1) + ",type="@
        + spec_uuid_braced_upper(f.2);
    let with_hint = if version > 0 {
        head + ",hint={"@ + f.3 + "}"@
    } else {
        head
    };
    if version > 1 {
        with_hint + ",loadBehavior="@ + spec_u64_decimal(f.4 as u64)
    } else {
        with_hint
    }
}

/// The fields a load of `data` reads.
pub open spec fn spec_loaded_fields(data: Seq<u8>, version: u32, endian: NativeEndian) -> (u128, u32, u128, Seq<char>, u8) {
    (
        spec_be_nat(data.subrange(0, 16)) as u128,
        spec_endian_nat(data.subrange(16, 20), endian) as u32,
        spec_be_nat(data.subrange(32, 48)) as u128,
        if version == 0 {
            Seq::<char>::empty()
        } else {
            vstd::utf8::decode_utf8(spec_hint_bytes(data, endian))
        },
        if version > 1 {
            data[56 + spec_hint_len(data, endian) as int]
        } else {
            DEFAULT_LOAD_BEHAVIOR
        },
    )
}

impl AssetValueLayout {
    /// Native `DataToText` for the registered serializer generation.
    pub fn to_text(&self, text_version: u32) -> (r: Result<String, AssetValueError>)
        ensures
            text_version > 2 ==> (r matches Err(AssetValueError::UnsupportedVersion(v)) && v == text_version),
            text_version <= 2 ==> (r matches Ok(t) && t@ == spec_asset_text(self.spec_fields(), text_version)),
    {
        if text_version > 2 {
            return Err(AssetValueError::UnsupportedVersion(text_version));
        }
        let mut text = "id=".to_owned().concat(uuid_braced_upper(self.guid).as_str()).concat(":").concat(
            u32_upper_hex(self.sub_id).as_str(),
        ).concat(",type=").concat(uuid_braced_upper(self.asset_type).as_str());
        if text_version > 0 {
            text = text.concat(",hint={").concat(self.hint.as_str()).concat("}");
        }
        if text_version > 1 {
            text = text.concat(",loadBehavior=").concat(u64_decimal(self.load_behavior as u64).as_str());
        }
        Ok(text)
    }

    /// Native serializer transcode: load with the serialized element
    /// version, then write text with the current serializer generation.
    pub fn historical_data_to_current_text(
        data: &[u8],
        element_version: u32,
        payload_endian: NativeEndian,
        current_version: u32,
    ) -> (r: Result<String, AssetValueError>)
        ensures
            !spec_asset_loadable(data@, element_version, payload_endian) ==> (r matches Err(e)
                && Self::load_owned_error(e, data@, element_version, payload_endian)),
            spec_asset_loadable(data@, element_version, payload_endian) && current_version > 2 ==> (r matches Err(
                AssetValueError::UnsupportedVersion(v),
            ) && v == current_version),
            spec_asset_loadable(data@, element_version, payload_endian) && current_version <= 2 ==> (r matches Ok(t)
                && t@ == spec_asset_text(spec_loaded_fields(data@, element_version, payload_endian), current_version)),
    {
        let loaded = match Self::load_owned(data, element_version, payload_endian) {
            Ok(v) => v,
            Err(e) => {
                return Err(e);
            },
        };
        assert(loaded.spec_fields() == spec_loaded_fields(data@, element_version, payload_endian));
        loaded.to_text(current_version)
    }
}

/// Display text of the error a load of an unloadable payload reports.
pub open spec fn spec_load_failure_message(data: Seq<u8>, version: u32, endian: NativeEndian) -> Seq<char> {
    if version > 2 {
        spec_asset_error_message(AssetValueError::UnsupportedVersion(version))
    } else if data.len() < spec_asset_min_len(version) {
        "AZ::Data::Asset has "@ + spec_u64_decimal(data.len() as u64) + " bytes, expected at least "@
            + spec_u64_decimal(spec_asset_min_len(version) as u64)
    } else if spec_hint_len(data, endian) > spec_hint_room(data, version) {
        "AZ::Data::Asset hint length "@ + spec_u64_decimal(spec_hint_len(data, endian) as u64) + " exceeds "@
            + spec_u64_decimal(spec_hint_room(data, version) as u64) + " available bytes"@
    } else {
        "AZ::Data::Asset hint is not valid UTF-8"@
    }
}

/// Length of what the native save writes.
pub proof fn lemma_asset_save_len(f: (u128, u32, u128, Seq<char>, u8), version: u32)
    ensures
        spec_asset_save_fields(f, version).len() == 48 + (if version > 0 {
            8 + vstd::utf8::encode_utf8(f.3).len()
        } else {
            0
        }) + (if version > 1 { 1int } else { 0int }),
{
    crate::bytes::lemma_be_bytes_len(f.0 as nat, 16);
    crate::bytes::lemma_be_bytes_len(f.1 as nat, 4);
    crate::bytes::lemma_be_bytes_len(0, 12);
    crate::bytes::lemma_be_bytes_len(f.2 as nat, 16);
    crate::bytes::lemma_be_bytes_len(vstd::utf8::encode_utf8(f.3).len(), 8);
}

// === historical hint layouts ===

/// Errors reading an asset hint.
#[derive(Debug)]
pub enum AssetHintError {
    /// The versioned asset load failed.
    Asset(AssetValueError),
    /// Expected `AZ::Data::Asset`, got another type.
    UnexpectedType(AzUuid),
    /// The asset reference has no value bytes.
    MissingData,
    /// A short payload holds no textual hint.
    TooShort { expected: usize, actual: usize },
    /// No known hint layout matches the payload.
    InvalidHintLayout(usize),
    /// The hint is not valid UTF-8.
    Utf8(std::str::Utf8Error),
}

/// Shortest payload a binary hint layout can describe.
pub const ASSET_HINT_MINIMUM_LEN: usize = 44;

/// A historical binary hint layout: the 8-byte hint length sits at
/// `hint_size_offset` (the offset depends on the `AssetId` padding width)
/// and the hint fills the rest of the payload.
#[derive(Clone, Copy, Debug)]
pub struct AssetHintLayout {
    pub hint_size_offset: usize,
}

/// The layout at `offset` describes `data`: its declared length, read
/// big- or little-endian, is exactly the rest of the payload.
pub open spec fn spec_hint_layout_fits(data: Seq<u8>, offset: nat) -> bool {
    &&& offset + 8 <= data.len()
    &&& (spec_be_nat(data.subrange(offset as int, offset + 8int)) == data.len() - offset - 8 || spec_le_nat(
        data.subrange(offset as int, offset + 8int),
    ) == data.len() - offset - 8)
}

/// The bytes after the length field of the layout at `offset`.
pub open spec fn spec_layout_hint_bytes(data: Seq<u8>, offset: nat) -> Seq<u8> {
    data.subrange(offset + 8int, data.len() as int)
}

impl AssetHintLayout {
    /// The layouts historical dumps use, in the order they are tried.
    pub fn candidates() -> (r: [AssetHintLayout; 3])
        ensures
            r[0].hint_size_offset == 40,
            r[1].hint_size_offset == 36,
            r[2].hint_size_offset == 48,
    {
        [
            AssetHintLayout { hint_size_offset: 40 },
            AssetHintLayout { hint_size_offset: 36 },
            AssetHintLayout { hint_size_offset: 48 },
        ]
    }

    /// The hint this layout finds in `data`: `None` when the layout does not
    /// fit the payload exactly.
    pub fn read_hint(self, data: &[u8]) -> (r: Result<Option<&str>, AssetHintError>)
        ensures
            !spec_hint_layout_fits(data@, self.hint_size_offset as nat) ==> (r matches Ok(None)),
            spec_hint_layout_fits(data@, self.hint_size_offset as nat) ==> {
                &&& (r is Ok <==> vstd::utf8::valid_utf8(spec_layout_hint_bytes(data@, self.hint_size_offset as nat)))
                &&& (r matches Ok(h) ==> (h matches Some(s) && s@ == vstd::utf8::decode_utf8(
                    spec_layout_hint_bytes(data@, self.hint_size_offset as nat),
                )))
                &&& (r matches Err(e) ==> e is Utf8)
            },
    {
        let offset = self.hint_size_offset;
        let n = data.len();
        if offset > n || n - offset < 8 {
            return Ok(None);
        }
        let hint_start = offset + 8;
        let available = n - hint_start;
        let be = read_be(data, offset, 8);
        let le = read_le(data, offset, 8);
        if be as u128 == available as u128 || le as u128 == available as u128 {
            match crate::text::utf8_str(sub_slice(data, hint_start, n)) {
                Ok(text) => Ok(Some(text)),
                Err(error) => Err(AssetHintError::Utf8(error)),
            }
        } else {
            Ok(None)
        }
    }
}

/// Bytes of the trimmed text of `data` (decoded as UTF-8).
pub open spec fn spec_trimmed_bytes(data: Seq<u8>) -> Seq<u8> {
    vstd::utf8::encode_utf8(spec_trim(vstd::utf8::decode_utf8(data)))
}

/// The hint spelled `hint={...}` inside textual asset data: the text after
/// the first `hint={` up to the next `}` (or the end), trimmed; `None` when
/// there is no such marker or the hint is blank.
pub open spec fn spec_text_hint(data: Seq<u8>) -> Option<Seq<char>> {
    let v = spec_trimmed_bytes(data);
    match spec_find_from(v, seq![104u8, 105, 110, 116, 61, 123], 0) {
        None => None,
        Some(i) => {
            let end = match spec_find_from(v, seq![125u8], i + 6) {
                Some(j) => j,
                None => v.len() as int,
            };
            let hint = spec_trim(vstd::utf8::decode_utf8(v.subrange(i + 6, end)));
            if hint.len() == 0 {
                None
            } else {
                Some(hint)
            }
        },
    }
}

/// Read a hint from payload bytes that hold asset text.
pub fn asset_hint_from_text(data: &[u8]) -> (r: Result<Option<&str>, std::str::Utf8Error>)
    ensures
        r is Ok <==> vstd::utf8::valid_utf8(data@),
        r matches Ok(h) ==> match spec_text_hint(data@) {
            Some(t) => h matches Some(s) && s@ == t,
            None => h is None,
        },
{
    let whole = match crate::text::utf8_str(data) {
        Ok(text) => text,
        Err(error) => {
            return Err(error);
        },
    };
    let value = spec_trim_str(whole);
    let v = value.as_bytes();
    let vlen = v.len();
    let ghost vb = v@;
    assert(vb.len() == vlen);
    assert(vb == spec_trimmed_bytes(data@));
    let marker = vec![104u8, 105, 110, 116, 61, 123];
    let close = vec![125u8];
    assert(marker@ =~= seq![104u8, 105, 110, 116, 61, 123]);
    assert(close@ =~= seq![125u8]);
    let i = match find_from(v, marker.as_slice(), 0) {
        Some(i) => i,
        None => {
            return Ok(None);
        },
    };
    proof {
        lemma_find_from_found(vb, marker@, 0, i as int);
        assert(vb[i + 5] == vb.subrange(i as int, i + 6)[5]);
    }
    let end = match find_from(v, close.as_slice(), i + 6) {
        Some(j) => {
            proof {
                lemma_find_from_found(vb, close@, i + 6, j as int);
                assert(vb[j as int] == vb.subrange(j as int, j + 1)[0]);
            }
            j
        },
        None => v.len(),
    };
    let hint = spec_trim_str(ascii_cut(value, i + 6, end));
    if hint.unicode_len() == 0 {
        Ok(None)
    } else {
        Ok(Some(hint))
    }
}

fn spec_trim_str(text: &str) -> (r: &str)
    ensures
        r@ == spec_trim(text@),
{
    crate::text::trim(text)
}

/// Non-blank trimmed hint, or `None`.
pub open spec fn spec_nonblank(h: Seq<char>) -> Option<Seq<char>> {
    if spec_trim(h).len() == 0 {
        None
    } else {
        Some(spec_trim(h))
    }
}

/// `h` reports `expected` (`None`, or a hint with those characters).
pub open spec fn spec_hint_is(h: Option<&str>, expected: Option<Seq<char>>) -> bool {
    match expected {
        Some(t) => h matches Some(s) && s@ == t,
        None => h is None,
    }
}

/// First of the historical layouts (offsets 40, 36, 48) that fits `data`.
pub open spec fn spec_first_hint_layout(data: Seq<u8>) -> Option<nat> {
    if spec_hint_layout_fits(data, 40) {
        Some(40nat)
    } else if spec_hint_layout_fits(data, 36) {
        Some(36nat)
    } else if spec_hint_layout_fits(data, 48) {
        Some(48nat)
    } else {
        None
    }
}

/// What reading a hint from asset payload bytes gives.
pub open spec fn spec_asset_hint_from_bytes(
    r: Result<Option<&str>, AssetHintError>,
    data: Seq<u8>,
    element_version: Option<u32>,
) -> bool {
    if data.len() < 44 {
        &&& (!vstd::utf8::valid_utf8(data) ==> (r matches Err(e) && e is Utf8))
        &&& (vstd::utf8::valid_utf8(data) && spec_text_hint(data) is None ==> (r matches Err(
            AssetHintError::TooShort { expected, actual },
        ) && expected == 44 && actual == data.len()))
        &&& (vstd::utf8::valid_utf8(data) && spec_text_hint(data) is Some ==> (r matches Ok(h) && spec_hint_is(
            h,
            spec_text_hint(data),
        )))
    } else {
        match spec_first_hint_layout(data) {
            Some(offset) => {
                let bytes = spec_layout_hint_bytes(data, offset);
                &&& (!vstd::utf8::valid_utf8(bytes) ==> (r matches Err(e) && e is Utf8))
                &&& (vstd::utf8::valid_utf8(bytes) ==> (r matches Ok(h) && spec_hint_is(
                    h,
                    spec_nonblank(vstd::utf8::decode_utf8(bytes)),
                )))
            },
            None => {
                &&& (!vstd::utf8::valid_utf8(data) ==> (r matches Err(e) && e is Utf8))
                &&& (vstd::utf8::valid_utf8(data) && spec_text_hint(data) is Some ==> (r matches Ok(h)
                    && spec_hint_is(h, spec_text_hint(data))))
                &&& (vstd::utf8::valid_utf8(data) && spec_text_hint(data) is None ==> match element_version {
                    Some(v) => {
                        &&& (!spec_asset_loadable(data, v, NativeEndian::Big) ==> (r matches Err(
                            AssetHintError::Asset(e),
                        ) && AssetValueLayout::load_owned_error(e, data, v, NativeEndian::Big)))
                        &&& (spec_asset_loadable(data, v, NativeEndian::Big) ==> (r matches Ok(h)
                            && spec_hint_is(h, spec_nonblank(spec_loaded_fields(data, v, NativeEndian::Big).3))))
                    },
                    None => r matches Err(AssetHintError::InvalidHintLayout(n)) && n == data.len(),
                })
            },
        }
    }
}

fn nonblank(text: &str) -> (r: Option<&str>)
    ensures
        spec_hint_is(r, spec_nonblank(text@)),
{
    let t = spec_trim_str(text);
    if t.unicode_len() == 0 {
        None
    } else {
        Some(t)
    }
}

/// Read an asset hint from value bytes: the historical binary layouts
/// first, then asset text, then (with an element version) the versioned
/// asset load.
pub fn asset_hint_from_bytes(data: &[u8], element_version: Option<u32>) -> (r: Result<Option<&str>, AssetHintError>)
    ensures
        spec_asset_hint_from_bytes(r, data@, element_version),
{
    if data.len() < ASSET_HINT_MINIMUM_LEN {
        return match asset_hint_from_text(data) {
            Err(error) => Err(AssetHintError::Utf8(error)),
            Ok(None) => Err(AssetHintError::TooShort { expected: ASSET_HINT_MINIMUM_LEN, actual: data.len() }),
            Ok(Some(hint)) => Ok(Some(hint)),
        };
    }
    let layouts = AssetHintLayout::candidates();
    let mut idx: usize = 0;
    while idx < 3
        invariant
            0 <= idx <= 3,
            layouts[0].hint_size_offset == 40,
            layouts[1].hint_size_offset == 36,
            layouts[2].hint_size_offset == 48,
            idx > 0 ==> !spec_hint_layout_fits(data@, 40),
            idx > 1 ==> !spec_hint_layout_fits(data@, 36),
            idx > 2 ==> !spec_hint_layout_fits(data@, 48),
        decreases 3 - idx,
    {
        match layouts[idx].read_hint(data) {
            Err(error) => {
                return Err(error);
            },
            Ok(Some(hint)) => {
                return Ok(nonblank(hint));
            },
            Ok(None) => {},
        }
        idx = idx + 1;
    }
    match asset_hint_from_text(data) {
        Err(error) => {
            return Err(AssetHintError::Utf8(error));
        },
        Ok(Some(hint)) => {
            return Ok(Some(hint));
        },
        Ok(None) => {},
    }
    match element_version {
        Some(version) => match AssetValueLayout::load(data, version) {
            Ok(value) => {
                proof {
                    reveal_strlit("");
                }
                Ok(nonblank(value.hint()))
            },
            Err(error) => Err(AssetHintError::Asset(error)),
        },
        None => Err(AssetHintError::InvalidHintLayout(data.len())),
    }
}

// === SimpleAssetReference ===

/// Reflected name of the `SimpleAssetReference` base class.
pub const SIMPLE_ASSET_REFERENCE_BASE: &'static str = "SimpleAssetReferenceBase";
/// Field holding the asset path inside the base class.
pub const ASSET_PATH_FIELD: &'static str = "AssetPath";
/// Field-name CRC of `BaseClass1`.
pub const BASE_CLASS_FIELD_CRC: u32 = 3_566_360_373;
/// Field-name CRC of `AssetPath`.
pub const ASSET_PATH_FIELD_CRC: u32 = 741_691_769;

/// `AZ::Data::Asset` type id, shared by `SimpleAssetReference` payloads.
pub fn simple_asset_reference_type_id() -> (r: AzUuid)
    ensures
        r.bits == 0x77A19D40_8731_4D3C_9041_1B43047366A4,
{
    AzUuid::from_u128(0x77A19D40_8731_4D3C_9041_1B43047366A4)
}

/// `SimpleAssetReference<TextureAsset>` type id.
pub fn simple_texture_asset_reference_type_id() -> (r: AzUuid)
    ensures
        r.bits == 0x68e92460_5c0c_4031_9620_6f1a08763243,
{
    AzUuid::from_u128(0x68e92460_5c0c_4031_9620_6f1a08763243)
}

/// `SimpleAssetReferenceBase` type id.
pub fn simple_asset_reference_base_type_id() -> (r: AzUuid)
    ensures
        r.bits == 0xe16ca6c5_5c78_4ad9_8e9b_f8c1fb4d1db8,
{
    AzUuid::from_u128(0xe16ca6c5_5c78_4ad9_8e9b_f8c1fb4d1db8)
}

/// A `SimpleAssetReference` value borrowing its path from the payload.
#[derive(Clone, Copy, Debug, PartialEq, Eq)]
pub struct SimpleAssetReferenceValue<'a> {
    guid: AzUuid,
    asset_type: AzUuid,
    path: &'a str,
}

impl<'a> SimpleAssetReferenceValue<'a> {
    pub closed spec fn spec_guid(self) -> AzUuid {
        self.guid
    }

    pub closed spec fn spec_asset_type(self) -> AzUuid {
        self.asset_type
    }

    pub closed spec fn spec_path(self) -> Seq<char> {
        self.path@
    }

    pub fn new(guid: AzUuid, asset_type: AzUuid, path: &'a str) -> (r: Self)
        ensures
            r.spec_guid() == guid,
            r.spec_asset_type() == asset_type,
            r.spec_path() == path@,
    {
        SimpleAssetReferenceValue { guid, asset_type, path }
    }

    pub fn guid(self) -> (r: AzUuid)
        ensures
            r == self.spec_guid(),
    {
        self.guid
    }

    pub fn asset_type(self) -> (r: AzUuid)
        ensures
            r == self.spec_asset_type(),
    {
        self.asset_type
    }

    pub fn path(self) -> (r: &'a str)
        ensures
            r@ == self.spec_path(),
    {
        self.path
    }
}

/// Errors decoding a `SimpleAssetReference` payload.
#[derive(Debug)]
pub enum SimpleAssetReferenceValueError {
    /// Expected `SimpleAssetReference`, got another type.
    UnexpectedType { actual: AzUuid },
    /// The element has no value bytes.
    MissingData,
    /// The payload is shorter than the fixed fields.
    TooShort { expected: usize, actual: usize },
    /// The reserved `AssetId` bytes are not zero.
    NonZeroAssetIdExtension,
    /// The declared path length does not match the bytes after it.
    InvalidPathLength { declared: usize, actual: usize },
    /// The declared path length does not fit `usize`.
    PathLengthOverflow,
    /// The path is not valid UTF-8.
    Utf8(std::str::Utf8Error),
}

/// Offset of the path bytes in a `SimpleAssetReference` payload.
pub const SIMPLE_ASSET_PATH_START: usize = 56;

/// Declared path length of a `SimpleAssetReference` payload.
pub open spec fn spec_path_len(data: Seq<u8>) -> nat {
    spec_be_nat(data.subrange(48, 56))
}

/// Layout of a `SimpleAssetReference` payload: `guid` (16 bytes), sixteen
/// reserved zero bytes, asset type (16 bytes), big-endian 8-byte path
/// length, then exactly that many path bytes.
pub struct SimpleAssetReferenceLayout;

impl SimpleAssetReferenceLayout {
    pub fn read(data: &[u8]) -> (r: Result<SimpleAssetReferenceValue<'_>, SimpleAssetReferenceValueError>)
        ensures
            data@.len() < 56 ==> (r matches Err(SimpleAssetReferenceValueError::TooShort { expected, actual })
                && expected == 56 && actual == data@.len()),
            data@.len() >= 56 && (exists|k: int| 16 <= k < 32 && data@[k] != 0) ==> (r matches Err(
                SimpleAssetReferenceValueError::NonZeroAssetIdExtension,
            )),
            data@.len() >= 56 && (forall|k: int| 16 <= k < 32 ==> data@[k] == 0) ==> {
                &&& (spec_path_len(data@) > usize::MAX ==> (r matches Err(
                    SimpleAssetReferenceValueError::PathLengthOverflow,
                )))
                &&& (spec_path_len(data@) <= usize::MAX && spec_path_len(data@) != data@.len() - 56 ==> (r matches Err(
                    SimpleAssetReferenceValueError::InvalidPathLength { declared, actual },
                ) && declared == spec_path_len(data@) && actual == data@.len() - 56))
                &&& (spec_path_len(data@) == data@.len() - 56 ==> {
                    &&& (r is Ok <==> vstd::utf8::valid_utf8(data@.subrange(56, data@.len() as int)))
                    &&& (r matches Ok(v) ==> {
                        &&& v.spec_guid().bits as nat == spec_be_nat(data@.subrange(0, 16))
                        &&& v.spec_asset_type().bits as nat == spec_be_nat(data@.subrange(32, 48))
                        &&& v.spec_path() == vstd::utf8::decode_utf8(data@.subrange(56, data@.len() as int))
                    })
                    &&& (r matches Err(e) ==> e is Utf8)
                })
            },
    {
        let n = data.len();
        if n < SIMPLE_ASSET_PATH_START {
            return Err(SimpleAssetReferenceValueError::TooShort { expected: SIMPLE_ASSET_PATH_START, actual: n });
        }
        let mut k: usize = 16;
        while k < 32
            invariant
                16 <= k <= 32,
                n == data@.len(),
                n >= 56,
                forall|j: int| 16 <= j < k ==> data@[j] == 0,
            decreases 32 - k,
        {
            if data[k] != 0 {
                return Err(SimpleAssetReferenceValueError::NonZeroAssetIdExtension);
            }
            k = k + 1;
        }
        let guid = AzUuid::from_slice(data, 0);
        let asset_type = AzUuid::from_slice(data, 32);
        let declared = read_be(data, 48, 8);
        if declared as u128 > usize::MAX as u128 {
            return Err(SimpleAssetReferenceValueError::PathLengthOverflow);
        }
        let path_len = declared as usize;
        if path_len != n - SIMPLE_ASSET_PATH_START {
            return Err(SimpleAssetReferenceValueError::InvalidPathLength {
                declared: path_len,
                actual: n - SIMPLE_ASSET_PATH_START,
            });
        }
        match crate::text::utf8_str(sub_slice(data, SIMPLE_ASSET_PATH_START, n)) {
            Ok(path) => Ok(SimpleAssetReferenceValue::new(guid, asset_type, path)),
            Err(error) => Err(SimpleAssetReferenceValueError::Utf8(error)),
        }
    }
}

// === element-level hints ===

/// The element is an `AZ::Data::Asset` by its proven serializer, else by
/// its semantic type, else (unresolved) by its wire UUID.
pub open spec fn spec_is_asset_element(e: crate::tree::ElementView) -> bool {
    ||| (e.resolution matches crate::tree::TypeResolution::Resolved { builtin_serializer: Some(d), .. } && d.kind
        is Asset)
    ||| (match e.resolution {
        crate::tree::TypeResolution::Resolved { type_id, .. } => type_id,
        _ => e.id,
    }) == crate::context::spec_asset_type_id()
}

pub fn is_asset_wire_type(element: &crate::tree::Element) -> (r: bool)
    ensures
        r == spec_is_asset_element(element@),
{
    let by_serializer = match element.builtin_serializer() {
        Some(d) => match d.kind {
            BuiltinSerializerKind::Asset => true,
            _ => false,
        },
        None => false,
    };
    if by_serializer {
        return true;
    }
    let semantic = match element.resolved_type_id() {
        Some(t) => t,
        None => element.id,
    };
    semantic.bits == crate::context::asset_type_id_constant().bits
}

/// The hint of an element's asset value bytes, requiring a payload.
pub fn asset_hint_from_data(element: &crate::tree::Element) -> (r: Result<Option<&str>, AssetHintError>)
    ensures
        match element@.data {
            None => r matches Err(AssetHintError::MissingData),
            Some(d) => spec_asset_hint_from_bytes(r, d, element.version),
        },
{
    match element.data() {
        Some(d) => asset_hint_from_bytes(d, element.version),
        None => Err(AssetHintError::MissingData),
    }
}

/// The hint of an element's asset value bytes; no payload is no hint.
pub fn optional_asset_hint_from_data(element: &crate::tree::Element) -> (r: Result<Option<&str>, AssetHintError>)
    ensures
        match element@.data {
            None => r matches Ok(None),
            Some(d) => spec_asset_hint_from_bytes(r, d, element.version),
        },
{
    match element.data() {
        Some(d) => asset_hint_from_bytes(d, element.version),
        None => Ok(None),
    }
}

/// The hint of a typed `AZ::Data::Asset` element.
pub fn asset_hint(element: &crate::tree::Element) -> (r: Result<Option<&str>, AssetHintError>)
    ensures
        !spec_is_asset_element(element@) ==> (r matches Err(AssetHintError::UnexpectedType(t)) && t == element.id),
        spec_is_asset_element(element@) ==> match element@.data {
            None => r matches Err(AssetHintError::MissingData),
            Some(d) => spec_asset_hint_from_bytes(r, d, element.version),
        },
{
    if !is_asset_wire_type(element) {
        return Err(AssetHintError::UnexpectedType(element.id));
    }
    asset_hint_from_data(element)
}

/// An owned copy of a borrowed hint result.
pub open spec fn spec_owned_hint(
    r: Result<Option<String>, AssetHintError>,
    b: Result<Option<&str>, AssetHintError>,
) -> bool {
    match b {
        Ok(Some(h)) => r matches Ok(Some(o)) && o@ == h@,
        Ok(None) => r matches Ok(None),
        Err(e) => r == Err::<Option<String>, AssetHintError>(e),
    }
}

fn owned_hint(b: Result<Option<&str>, AssetHintError>) -> (r: Result<Option<String>, AssetHintError>)
    ensures
        spec_owned_hint(r, b),
{
    match b {
        Ok(Some(h)) => Ok(Some(h.to_owned())),
        Ok(None) => Ok(None),
        Err(e) => Err(e),
    }
}

/// Owning form of `asset_hint`.
pub fn asset_hint_owned(element: &crate::tree::Element) -> (r: Result<Option<String>, AssetHintError>)
    ensures
        exists|b: Result<Option<&str>, AssetHintError>|
            spec_owned_hint(r, b) && {
                &&& !spec_is_asset_element(element@) ==> (b matches Err(AssetHintError::UnexpectedType(t)) && t == element.id)
                &&& spec_is_asset_element(element@) ==> match element@.data {
                    None => b matches Err(AssetHintError::MissingData),
                    Some(d) => spec_asset_hint_from_bytes(b, d, element.version),
                }
            },
{
    owned_hint(asset_hint(element))
}

/// Owning form of `asset_hint_from_data`.
pub fn asset_hint_from_data_owned(element: &crate::tree::Element) -> (r: Result<Option<String>, AssetHintError>)
    ensures
        exists|b: Result<Option<&str>, AssetHintError>|
            spec_owned_hint(r, b) && match element@.data {
                None => b matches Err(AssetHintError::MissingData),
                Some(d) => spec_asset_hint_from_bytes(b, d, element.version),
            },
{
    owned_hint(asset_hint_from_data(element))
}

/// Owning form of `optional_asset_hint_from_data`.
pub fn optional_asset_hint_from_data_owned(element: &crate::tree::Element) -> (r: Result<Option<String>, AssetHintError>)
    ensures
        exists|b: Result<Option<&str>, AssetHintError>|
            spec_owned_hint(r, b) && match element@.data {
                None => b matches Ok(None),
                Some(d) => spec_asset_hint_from_bytes(b, d, element.version),
            },
{
    owned_hint(optional_asset_hint_from_data(element))
}

// === text round trip ===

/// The bytes of the `id={GUID}:{SUB},type={TYPE}` head of asset text.
proof fn lemma_asset_text_head(f0: u128, f1: u32, f2: u128)
    ensures
        ({
            let g1 = spec_uuid_braced_upper(f0);
            let h = spec_u32_upper_hex(f1);
            let g2 = spec_uuid_braced_upper(f2);
            let head = "id="@ + g1 + ":"@ + h + ",type="@ + g2;
            let e = vstd::utf8::encode_utf8(head);
            let n = h.len() as int;
            &&& n > 0
            &&& e.len() == 86 + n
            &&& forall|k: int| 0 <= k < e.len() ==> #[trigger] e[k] < 128
            &&& e.subrange(0, 3) == seq![105u8, 100, 61]
            &&& e.subrange(3, 41) == vstd::utf8::encode_utf8(g1)
            &&& e[41] == 58
            &&& e.subrange(42, 42 + n) == vstd::utf8::encode_utf8(h)
            &&& e.subrange(42 + n, 48 + n) == seq![44u8, 116, 121, 112, 101, 61]
            &&& e.subrange(48 + n, 85 + n) == vstd::utf8::encode_utf8(g2.subrange(0, 37))
            &&& e[85 + n] == 125
            &&& forall|k: int| 3 <= k < 42 + n ==> #[trigger] e[k] != 44
            &&& forall|k: int| 41 < k < 42 + n ==> #[trigger] e[k] != 58
            &&& forall|k: int| 48 + n <= k < 85 + n ==> #[trigger] e[k] != 125
        }),
{
    let g1 = spec_uuid_braced_upper(f0);
    let h = spec_u32_upper_hex(f1);
    let g2 = spec_uuid_braced_upper(f2);
    reveal_strlit("id=");
    reveal_strlit(":");
    reveal_strlit(",type=");
    let head = "id="@ + g1 + ":"@ + h + ",type="@ + g2;
    crate::az_uuid::lemma_braced_upper_chars(f0);
    crate::az_uuid::lemma_braced_upper_chars(f2);
    crate::text::lemma_nat_upper_hex(f1 as nat);
    let n = h.len() as int;
    assert(head.len() == 86 + n);
    assert forall|k: int| 0 <= k < head.len() implies (#[trigger] head[k] as u32) < 128 by {
        if 3 <= k < 41 {
            assert(head[k] == g1[k - 3]);
        } else if 42 <= k < 42 + n {
            assert(head[k] == h[k - 42]);
        } else if 48 + n <= k {
            assert(head[k] == g2[k - 48 - n]);
        }
    }
    crate::scan::lemma_encode_ascii(head);
    let e = vstd::utf8::encode_utf8(head);
    crate::scan::lemma_encode_ascii(g1);
    crate::scan::lemma_encode_ascii(h);
    let g2p = g2.subrange(0, 37);
    crate::scan::lemma_encode_ascii(g2p);
    assert(e.subrange(0, 3) =~= seq![105u8, 100, 61]) by {
        assert(e[0] as u32 == head[0] as u32);
        assert(e[1] as u32 == head[1] as u32);
        assert(e[2] as u32 == head[2] as u32);
    }
    assert(e.subrange(3, 41) =~= vstd::utf8::encode_utf8(g1)) by {
        assert forall|i: int| 0 <= i < 38 implies e.subrange(3, 41)[i] == #[trigger] vstd::utf8::encode_utf8(g1)[i] by {
            assert(e[3 + i] as u32 == head[3 + i] as u32);
            assert(head[3 + i] == g1[i]);
        }
    }
    assert(e[41] as u32 == head[41] as u32);
    assert(e.subrange(42, 42 + n) =~= vstd::utf8::encode_utf8(h)) by {
        assert forall|i: int| 0 <= i < n implies e.subrange(42, 42 + n)[i] == #[trigger] vstd::utf8::encode_utf8(h)[i] by {
            assert(e[42 + i] as u32 == head[42 + i] as u32);
            assert(head[42 + i] == h[i]);
        }
    }
    assert(e.subrange(42 + n, 48 + n) =~= seq![44u8, 116, 121, 112, 101, 61]) by {
        let tp = seq![44u8, 116, 121, 112, 101, 61];
        assert forall|i: int| 0 <= i < 6 implies #[trigger] e.subrange(42 + n, 48 + n)[i] == tp[i] by {
            assert(e[42 + n + i] as u32 == head[42 + n + i] as u32);
        }
    }
    assert(e.subrange(48 + n, 85 + n) =~= vstd::utf8::encode_utf8(g2p)) by {
        assert forall|i: int| 0 <= i < 37 implies e.subrange(48 + n, 85 + n)[i] == #[trigger] vstd::utf8::encode_utf8(g2p)[i] by {
            assert(e[48 + n + i] as u32 == head[48 + n + i] as u32);
            assert(head[48 + n + i] == g2[i]);
        }
    }
    assert(e[85 + n] as u32 == head[85 + n] as u32);
    assert(head[85 + n] == g2[37]);
    assert forall|k: int| 3 <= k < 42 + n implies #[trigger] e[k] != 44 by {
        assert(e[k] as u32 == head[k] as u32);
        if k < 41 {
            assert(head[k] == g1[k - 3]);
        } else if k > 41 {
            assert(head[k] == h[k - 42]);
        }
    }
    assert forall|k: int| 41 < k < 42 + n implies #[trigger] e[k] != 58 by {
        assert(e[k] as u32 == head[k] as u32);
        assert(head[k] == h[k - 42]);
    }
    assert forall|k: int| 48 + n <= k < 85 + n implies #[trigger] e[k] != 125 by {
        assert(e[k] as u32 == head[k] as u32);
        assert(head[k] == g2[k - 48 - n]);
    }
    assert forall|k: int| 0 <= k < e.len() implies #[trigger] e[k] < 128 by {
        assert(e[k] as u32 == head[k] as u32);
    }
}

/// `,hint={` as bytes.
spec fn spec_hint_pat() -> Seq<u8> {
    seq![44u8, 104, 105, 110, 116, 61, 123]
}

/// `,loadBehavior=` as bytes.
spec fn spec_behavior_pat() -> Seq<u8> {
    seq![44u8, 108, 111, 97, 100, 66, 101, 104, 97, 118, 105, 111, 114, 61]
}

/// The `id={GUID}:{SUB},type={TYPE}` head of asset text.
spec fn spec_asset_text_head(f0: u128, f1: u32, f2: u128) -> Seq<char> {
    "id="@ + spec_uuid_braced_upper(f0) + ":"@ + spec_u32_upper_hex(f1) + ",type="@ + spec_uuid_braced_upper(f2)
}

/// The bytes of asset text, piece by piece.
proof fn lemma_asset_text_bytes(f: (u128, u32, u128, Seq<char>, u8), version: u32)
    requires
        version <= 2,
        version == 2 ==> f.4 < 10,
    ensures
        ({
            let b = vstd::utf8::encode_utf8(spec_asset_text(f, version));
            let eh = vstd::utf8::encode_utf8(spec_asset_text_head(f.0, f.1, f.2));
            let e3 = vstd::utf8::encode_utf8(f.3);
            let l = eh.len() as int;
            let kk = l + 7 + e3.len();
            let d = crate::text::spec_u64_decimal(f.4 as u64);
            &&& b.len() == if version == 0 { l } else if version == 1 { kk + 1 } else { kk + 16 }
            &&& forall|k: int| 0 <= k < l ==> #[trigger] b[k] == eh[k]
            &&& version > 0 ==> {
                &&& b.subrange(l, l + 7) == spec_hint_pat()
                &&& b.subrange(l + 7, kk) == e3
                &&& b[kk] == 125
            }
            &&& version > 1 ==> {
                &&& b.subrange(kk + 1, kk + 15) == spec_behavior_pat()
                &&& b.subrange(kk + 15, b.len() as int) == vstd::utf8::encode_utf8(d)
                &&& d == seq![crate::text::spec_dec_char(f.4 as nat)]
            }
        }),
{
    reveal_strlit(",hint={");
    reveal_strlit("}");
    reveal_strlit(",loadBehavior=");
    let head = spec_asset_text_head(f.0, f.1, f.2);
    let eh = vstd::utf8::encode_utf8(head);
    let e3 = vstd::utf8::encode_utf8(f.3);
    let hint_pat = spec_hint_pat();
    let behavior_pat = spec_behavior_pat();
    let hp = ",hint={"@;
    let close = "}"@;
    let bp = ",loadBehavior="@;
    crate::scan::lemma_encode_ascii(hp);
    crate::scan::lemma_encode_ascii(close);
    crate::scan::lemma_encode_ascii(bp);
    assert(vstd::utf8::encode_utf8(hp) =~= hint_pat) by {
        assert forall|i: int| 0 <= i < 7 implies #[trigger] vstd::utf8::encode_utf8(hp)[i] == hint_pat[i] by {
            assert(vstd::utf8::encode_utf8(hp)[i] as u32 == hp[i] as u32);
        }
    }
    assert(vstd::utf8::encode_utf8(close) =~= seq![125u8]) by {
        assert(vstd::utf8::encode_utf8(close)[0] as u32 == close[0] as u32);
    }
    assert(vstd::utf8::encode_utf8(bp) =~= behavior_pat) by {
        assert forall|i: int| 0 <= i < 14 implies #[trigger] vstd::utf8::encode_utf8(bp)[i] == behavior_pat[i] by {
            assert(vstd::utf8::encode_utf8(bp)[i] as u32 == bp[i] as u32);
        }
    }
    let wh = head + hp + f.3 + close;
    crate::scan::lemma_encode_concat(head, hp);
    crate::scan::lemma_encode_concat(head + hp, f.3);
    crate::scan::lemma_encode_concat(head + hp + f.3, close);
    let ewh = vstd::utf8::encode_utf8(wh);
    assert(ewh == eh + hint_pat + e3 + seq![125u8]);
    let d = crate::text::spec_u64_decimal(f.4 as u64);
    if version == 2 {
        assert(d =~= seq![crate::text::spec_dec_char(f.4 as nat)]);
        crate::scan::lemma_encode_concat(wh, bp);
        crate::scan::lemma_encode_concat(wh + bp, d);
    }
    let l = eh.len() as int;
    let kk = l + 7 + e3.len();
    if version == 0 {
        assert(spec_asset_text(f, version) == head);
    } else if version == 1 {
        assert(spec_asset_text(f, version) == wh);
        assert(ewh.subrange(l, l + 7) =~= hint_pat);
        assert(ewh.subrange(l + 7, kk) =~= e3);
        assert(ewh[kk] == 125);
        assert(ewh.len() == kk + 1);
        assert forall|k: int| 0 <= k < l implies #[trigger] ewh[k] == eh[k] by {}
    } else if version == 2 {
        assert(spec_asset_text(f, version) == wh + bp + d);
        let b = ewh + behavior_pat + vstd::utf8::encode_utf8(d);
        assert(b.subrange(l, l + 7) =~= hint_pat);
        assert(b.subrange(l + 7, kk) =~= e3);
        assert(b.subrange(kk + 1, kk + 15) =~= behavior_pat);
        assert(b.subrange(kk + 15, b.len() as int) =~= vstd::utf8::encode_utf8(d));
        assert forall|k: int| 0 <= k < l implies #[trigger] b[k] == eh[k] by {
            assert(b[k] == ewh[k]);
        }
        assert(b[kk] == ewh[kk]);
        assert(vstd::utf8::encode_utf8(d).len() == 1) by {
            crate::scan::lemma_encode_ascii(d);
        }
        assert(b.len() == kk + 16);
    }
}

/// Where the scan of asset text finds its delimiters.
proof fn lemma_asset_text_parts(f: (u128, u32, u128, Seq<char>, u8), version: u32)
    requires
        version <= 2,
        forall|i: int| 0 <= i < f.3.len() ==> f.3[i] != '}',
        version == 2 ==> f.4 < 10,
    ensures
        spec_asset_text_parts(vstd::utf8::encode_utf8(spec_asset_text(f, version)), version) == Some(
            (
                vstd::utf8::encode_utf8(spec_uuid_braced_upper(f.0)),
                vstd::utf8::encode_utf8(spec_u32_upper_hex(f.1)),
                vstd::utf8::encode_utf8(spec_uuid_braced_upper(f.2).subrange(0, 37)),
                if version > 0 {
                    vstd::utf8::encode_utf8(f.3)
                } else {
                    Seq::<u8>::empty()
                },
                if version > 1 {
                    vstd::utf8::encode_utf8(crate::text::spec_u64_decimal(f.4 as u64))
                } else {
                    Seq::<u8>::empty()
                },
            ),
        ),
{
    lemma_asset_text_head(f.0, f.1, f.2);
    lemma_asset_text_bytes(f, version);
    let b = vstd::utf8::encode_utf8(spec_asset_text(f, version));
    let eh = vstd::utf8::encode_utf8(spec_asset_text_head(f.0, f.1, f.2));
    let n = spec_u32_upper_hex(f.1).len() as int;
    let e3 = vstd::utf8::encode_utf8(f.3);
    let l = eh.len() as int;
    let kk = l + 7 + e3.len();
    let i1 = 42 + n;
    let j = 85 + n;
    let type_pat = seq![44u8, 116, 121, 112, 101, 61];
    assert(b.subrange(0, 3) =~= eh.subrange(0, 3));
    assert(crate::scan::spec_matches_at(b, seq![105u8, 100, 61], 0));
    assert(b.subrange(i1, i1 + 6) =~= eh.subrange(i1, i1 + 6));
    crate::scan::lemma_find_from_exact(b, type_pat, 3, i1);
    crate::scan::lemma_rfind_exact(b, 58, 3, i1, 41);
    assert(b.subrange(j, j + 1) =~= seq![125u8]);
    crate::scan::lemma_find_from_exact(b, seq![125u8], i1 + 6, j);
    assert(b.subrange(3, 41) =~= eh.subrange(3, 41));
    assert(b.subrange(42, i1) =~= eh.subrange(42, i1));
    assert(b.subrange(i1 + 6, j) =~= eh.subrange(i1 + 6, j));
    if version > 0 {
        assert(crate::scan::spec_matches_at(b, spec_hint_pat(), j + 1));
        assert forall|i: int| 0 <= i < f.3.len() implies (#[trigger] f.3[i] as u32) != 125u8 as u32 by {
            let c = f.3[i];
            if c as u32 == 125 {
                vstd::utf8::char_u32_cast(c, 125);
                vstd::utf8::char_u32_cast('}', 125);
            }
        }
        crate::scan::lemma_encode_avoids(f.3, 125);
        assert forall|k: int| j + 8 <= k < kk implies #[trigger] b[k] != 125u8 by {
            assert(b[k] == b.subrange(l + 7, kk)[k - j - 8]);
        }
        assert(b.subrange(kk, kk + 1) =~= seq![125u8]);
        crate::scan::lemma_find_from_exact(b, seq![125u8], j + 8, kk);
        if version > 1 {
            assert(crate::scan::spec_matches_at(b, spec_behavior_pat(), kk + 1));
        }
    }
}

/// Text written for a value at serializer version `version` reads back the
/// same value: identity, sub id and asset type always, the hint from
/// version 1 on (empty before), and the load behavior at version 2
/// (`PreLoad` before).  A hint holding `}` ends early in the text, and a
/// version-2 load behavior is written in decimal but read in hexadecimal,
/// so those inputs are left out.
pub proof fn lemma_asset_text_roundtrip(f: (u128, u32, u128, Seq<char>, u8), version: u32)
    requires
        version <= 2,
        forall|i: int| 0 <= i < f.3.len() ==> f.3[i] != '}',
        version == 2 ==> f.4 < 10,
    ensures
        spec_asset_from_text(vstd::utf8::encode_utf8(spec_asset_text(f, version)), version) == Some(
            (
                f.0,
                f.1,
                f.2,
                if version > 0 {
                    f.3
                } else {
                    Seq::<char>::empty()
                },
                if version > 1 {
                    f.4
                } else {
                    DEFAULT_LOAD_BEHAVIOR
                },
            ),
        ),
{
    lemma_asset_text_parts(f, version);
    let g1 = spec_uuid_braced_upper(f.0);
    let h = spec_u32_upper_hex(f.1);
    let g2 = spec_uuid_braced_upper(f.2);
    let g2p = g2.subrange(0, 37);
    vstd::utf8::encode_utf8_decode_utf8(g1);
    vstd::utf8::encode_utf8_decode_utf8(h);
    vstd::utf8::encode_utf8_decode_utf8(g2p);
    vstd::utf8::encode_utf8_decode_utf8(f.3);
    assert(vstd::utf8::decode_utf8(Seq::<u8>::empty()) =~= Seq::<char>::empty());
    crate::codec::lemma_uuid_text_roundtrip(f.0);
    crate::codec::lemma_uuid_text_roundtrip(f.2);
    crate::az_uuid::lemma_braced_upper_chars(f.2);
    assert(g2p.push('}') =~= g2);
    crate::text::lemma_u32_upper_hex_roundtrip(f.1);
    if version > 1 {
        let d = crate::text::spec_u64_decimal(f.4 as u64);
        lemma_asset_text_bytes(f, version);
        vstd::utf8::encode_utf8_decode_utf8(d);
        assert(crate::text::spec_unsigned_digits(d) == d);
        assert(d.subrange(0, 0) =~= Seq::<char>::empty());
        assert(crate::text::spec_hex_run(d) == crate::text::spec_hex_run(d.subrange(0, 0)) * 16
            + crate::text::spec_hex_value(d[0]));
        assert(crate::text::spec_parse_hex_u32(d) == Some(f.4 as u32));
    }
}

} // verus!
