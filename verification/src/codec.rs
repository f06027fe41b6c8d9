//! Builtin `IDataSerializer` semantics for leaf payloads: text to native
//! bytes, native bytes to the canonical big-endian wire form, and back to
//! serializer text.  Floating-point text forms are handled outside the
//! verified core.
use vstd::prelude::*;
use vstd::string::StrSliceExecFns;

use crate::az_uuid::{parse_uuid_ascii, spec_uuid_braced_upper, spec_uuid_parse, AzUuid};
use crate::az_uuid::uuid_braced_upper;
use crate::bytes::{
    read_be, lemma_be_bytes_len, pow256, spec_be_bytes, spec_be_nat, spec_le_bytes, spec_twos, write_be,
    write_le,
};
use crate::asset::{
    lemma_asset_save_len, spec_asset_error_message, spec_asset_from_text,
    spec_asset_loadable, spec_asset_save_fields, spec_asset_text, spec_load_failure_message, spec_loaded_fields,
    AssetValueError, AssetValueLayout,
};
use crate::stream::PayloadEncoding;
use crate::text::{
    hex_decode, hex_encode_upper, i64_decimal, parse_i64, parse_u64, u64_decimal, utf8_str, spec_hex_decode, spec_hex_encode_upper, spec_i64_decimal, spec_parse_i64, spec_parse_u64,
    spec_trim, spec_trim_start, spec_u64_decimal,
};

verus! {

#[derive(Clone, Copy, Debug, PartialEq, Eq, Structural)]
pub enum TextEncoding {
    Xml,
    Json,
}

#[derive(Clone, Copy, Debug, PartialEq, Eq, Structural)]
pub enum NativeEndian {
    Little,
    Big,
}

#[derive(Clone, Copy, Debug, PartialEq, Eq, Structural)]
pub enum NativeAbi {
    /// Windows ABI used by Lumberyard: C/C++ `long` is 32-bit.
    Llp64,
    /// Unix 64-bit ABI: C/C++ `long` is 64-bit.
    Lp64,
}

#[derive(Clone, Copy, Debug, PartialEq, Eq, Structural)]
pub enum BuiltinSerializerKind {
    Empty,
    /// `AZStd::ranged_int<Unsigned, Min, Max>` delegates binary width and
    /// text formatting to its unsigned storage type.
    RangedUnsigned { bytes: u8 },
    I8,
    I16,
    I32,
    Long,
    I64,
    U8,
    U16,
    U32,
    UnsignedLong,
    U64,
    F32,
    F64,
    Bool,
    Uuid,
    Asset,
    F32Sequence { count: usize },
    String,
    ByteStream,
}

impl BuiltinSerializerKind {
    /// Kinds whose text form is a floating-point number.
    pub open spec fn spec_is_float(self) -> bool {
        self is F32 || self is F64 || self is F32Sequence
    }

    pub fn is_float(self) -> (r: bool)
        ensures
            r == self.spec_is_float(),
    {
        match self {
            BuiltinSerializerKind::F32 => true,
            BuiltinSerializerKind::F64 => true,
            BuiltinSerializerKind::F32Sequence { .. } => true,
            _ => false,
        }
    }

    /// The exact ranged-unsigned serializer family for a captured primitive
    /// underlying descriptor.
    pub fn ranged_from_underlying(underlying: Self) -> (r: Option<Self>)
        ensures
            r == (match underlying {
                BuiltinSerializerKind::U8 => Some(BuiltinSerializerKind::RangedUnsigned { bytes: 1 }),
                BuiltinSerializerKind::U16 => Some(BuiltinSerializerKind::RangedUnsigned { bytes: 2 }),
                BuiltinSerializerKind::U32 => Some(BuiltinSerializerKind::RangedUnsigned { bytes: 4 }),
                BuiltinSerializerKind::UnsignedLong => Some(
                    BuiltinSerializerKind::RangedUnsigned { bytes: 4 },
                ),
                BuiltinSerializerKind::U64 => Some(BuiltinSerializerKind::RangedUnsigned { bytes: 8 }),
                _ => None,
            }),
    {
        let bytes: u8 = match underlying {
            BuiltinSerializerKind::U8 => 1,
            BuiltinSerializerKind::U16 => 2,
            BuiltinSerializerKind::U32 => 4,
            BuiltinSerializerKind::UnsignedLong => 4,
            BuiltinSerializerKind::U64 => 8,
            _ => {
                return None;
            },
        };
        Some(BuiltinSerializerKind::RangedUnsigned { bytes })
    }
}

#[derive(Clone, Debug, PartialEq, Eq)]
pub struct EncodedPayload {
    pub bytes: Vec<u8>,
    pub encoding: PayloadEncoding,
}

impl EncodedPayload {
    pub fn new(bytes: Vec<u8>, encoding: PayloadEncoding) -> (r: Self)
        ensures
            r.bytes == bytes,
            r.encoding == encoding,
    {
        EncodedPayload { bytes, encoding }
    }

    pub fn binary_big_endian(bytes: Vec<u8>) -> (r: Self)
        ensures
            r.bytes == bytes,
            r.encoding == PayloadEncoding::BinaryBigEndian,
    {
        EncodedPayload::new(bytes, PayloadEncoding::BinaryBigEndian)
    }
}

#[derive(Debug)]
pub enum ValueCodecError {
    /// An `ObjectStream` JSON `value` member must be a string.
    NonStringJsonValue,
    InvalidText { expected: &'static str, value: String },
    InvalidLength { expected: &'static str, actual: usize },
    /// The payload is not valid UTF-8.
    Utf8(std::str::Utf8Error),
    /// Invalid hexadecimal byte stream.
    Hex(hex::FromHexError),
    /// The asset payload is invalid.
    Asset(String),
    /// The codec does not support payloads in this encoding.
    UnsupportedPayloadEncoding { encoding: PayloadEncoding },
}

pub open spec fn spec_invalid_length(e: ValueCodecError, expected: &'static str, actual: nat) -> bool {
    e matches ValueCodecError::InvalidLength { expected: x, actual: a } && x@ == expected@ && a == actual
}

pub open spec fn spec_invalid_text(e: ValueCodecError, expected: &'static str, value: Seq<char>) -> bool {
    e matches ValueCodecError::InvalidText { expected: x, value: v } && x@ == expected@ && v@ == value
}

// === fixed-width layouts ===

/// Native (platform byte order) bytes of a two's-complement pattern.
pub open spec fn spec_native_bytes(pattern: nat, width: nat, endian: NativeEndian) -> Seq<u8> {
    match endian {
        NativeEndian::Little => spec_le_bytes(pattern, width),
        NativeEndian::Big => spec_be_bytes(pattern, width),
    }
}

fn native_bytes(pattern: u64, width: usize, endian: NativeEndian) -> (r: Vec<u8>)
    ensures
        r@ == spec_native_bytes(pattern as nat, width as nat, endian),
{
    match endian {
        NativeEndian::Little => write_le(pattern, width),
        NativeEndian::Big => write_be(pattern, width),
    }
}

/// Two's-complement pattern of a signed value that fits `width` bytes.
fn twos_pattern(v: i64, width: usize) -> (r: u64)
    requires
        1 <= width <= 8,
        -(pow256(width as nat) / 2) <= v < pow256(width as nat) / 2,
    ensures
        r as nat == spec_twos(v as int, width as nat),
{
    proof {
        crate::bytes::lemma_pow256_values();
        crate::bytes::lemma_pow256_monotone(width as nat, 8);
    }
    if v < 0 {
        if width == 8 {
            // v + 2^64 == 2^64 - |v|
            let magnitude: u64 = (-(v as i128)) as u64;
            (u64::MAX - magnitude) + 1
        } else {
            let full: u64 = pow256_u64(width);
            (full as i128 + v as i128) as u64
        }
    } else {
        v as u64
    }
}

fn pow256_u64(width: usize) -> (r: u64)
    requires
        width < 8,
    ensures
        r as nat == pow256(width as nat),
{
    let mut r: u64 = 1;
    let mut i: usize = 0;
    while i < width
        invariant
            i <= width < 8,
            r as nat == pow256(i as nat),
        decreases width - i,
    {
        proof {
            crate::bytes::lemma_pow256_values();
            crate::bytes::lemma_pow256_monotone(i as nat, 6);
            assert(pow256(6) == 0x1_0000_0000_0000) by {
                reveal_with_fuel(pow256, 7);
            }
        }
        r = r * 256;
        i = i + 1;
    }
    r
}

pub fn native_i16(value: i16, endian: NativeEndian) -> (r: Vec<u8>)
    ensures
        r@ == spec_native_bytes(spec_twos(value as int, 2), 2, endian),
{
    proof { crate::bytes::lemma_pow256_values(); }
    native_bytes(twos_pattern(value as i64, 2), 2, endian)
}

pub fn native_i32(value: i32, endian: NativeEndian) -> (r: Vec<u8>)
    ensures
        r@ == spec_native_bytes(spec_twos(value as int, 4), 4, endian),
{
    proof { crate::bytes::lemma_pow256_values(); }
    native_bytes(twos_pattern(value as i64, 4), 4, endian)
}

pub fn native_i64(value: i64, endian: NativeEndian) -> (r: Vec<u8>)
    ensures
        r@ == spec_native_bytes(spec_twos(value as int, 8), 8, endian),
{
    proof { crate::bytes::lemma_pow256_values(); }
    native_bytes(twos_pattern(value, 8), 8, endian)
}

pub fn native_u16(value: u16, endian: NativeEndian) -> (r: Vec<u8>)
    ensures
        r@ == spec_native_bytes(value as nat, 2, endian),
{
    native_bytes(value as u64, 2, endian)
}

pub fn native_u32(value: u32, endian: NativeEndian) -> (r: Vec<u8>)
    ensures
        r@ == spec_native_bytes(value as nat, 4, endian),
{
    native_bytes(value as u64, 4, endian)
}

pub fn native_u64(value: u64, endian: NativeEndian) -> (r: Vec<u8>)
    ensures
        r@ == spec_native_bytes(value as nat, 8, endian),
{
    native_bytes(value, 8, endian)
}

// === endian normalization ===

/// Every `width`-byte chunk of `s` reversed in place.
pub open spec fn spec_swap_chunks(s: Seq<u8>, width: nat) -> Seq<u8>
    recommends
        width > 0,
{
    Seq::new(s.len(), |i: int| s[(i / width as int) * width as int + (width - 1 - i % width as int)])
}

/// Reverse each `width`-byte chunk of `data`.  Empty data, or a length that
/// is not a multiple of `width`, is an `InvalidLength` error.
pub fn swap_chunks(data: &[u8], width: usize, expected: &'static str) -> (r: Result<Vec<u8>, ValueCodecError>)
    requires
        width > 0,
    ensures
        data@.len() == 0 || data@.len() % (width as nat) != 0 <==> r is Err,
        r matches Err(e) ==> spec_invalid_length(e, expected, data@.len()),
        r matches Ok(v) ==> v@ == spec_swap_chunks(data@, width as nat),
{
    let n = data.len();
    if n == 0 || n % width != 0 {
        return Err(ValueCodecError::InvalidLength { expected, actual: n });
    }
    let mut out: Vec<u8> = Vec::new();
    let mut i: usize = 0;
    while i < n
        invariant
            n == data@.len(),
            width > 0,
            n % width == 0,
            i <= n,
            out@.len() == i,
            forall|k: int| 0 <= k < i ==> #[trigger] out@[k] == data@[(k / width as int) * width as int + (width - 1 - k % width as int)],
        decreases n - i,
    {
        proof {
            vstd::arithmetic::div_mod::lemma_fundamental_div_mod(i as int, width as int);
            vstd::arithmetic::div_mod::lemma_mod_bound(i as int, width as int);
            assert((i / width) * width == width * (i / width)) by (nonlinear_arith);
            vstd::arithmetic::div_mod::lemma_fundamental_div_mod(n as int, width as int);
            // the chunk holding i ends at or before n
            assert((i / width) * width + width <= n) by (nonlinear_arith)
                requires
                    i < n,
                    n % width == 0,
                    width > 0,
                    i == width * (i / width) + i % width,
                    n == width * (n / width) + n % width,
                    0 <= i % width < width,
            {
                assert(i / width < n / width) by (nonlinear_arith)
                    requires i < n, n % width == 0, width > 0,
                        i == width * (i / width) + i % width,
                        n == width * (n / width),
                        0 <= i % width < width,
                {
                    if i / width >= n / width {
                        assert(width * (i / width) >= width * (n / width)) by (nonlinear_arith)
                            requires i / width >= n / width, width > 0;
                    }
                }
                assert((i / width) + 1 <= n / width);
                assert(((i / width) + 1) * width <= (n / width) * width) by (nonlinear_arith)
                    requires (i / width) + 1 <= n / width, width > 0;
            }
        }
        proof {
            assert(i % width <= i);
        }
        let base = i - i % width;
        let offset = width - 1 - i % width;
        out.push(data[base + offset]);
        i = i + 1;
    }
    assert(out@ =~= spec_swap_chunks(data@, width as nat));
    Ok(out)
}

/// Byte `i` of a sequence with bytes `[a, b)` reversed in place.
pub open spec fn spec_reverse_range(s: Seq<u8>, a: int, b: int) -> Seq<u8> {
    Seq::new(s.len(), |i: int| if a <= i < b { s[a + b - 1 - i] } else { s[i] })
}

fn reverse_range(bytes: &mut Vec<u8>, a: usize, b: usize)
    requires
        a <= b <= old(bytes)@.len(),
    ensures
        final(bytes)@ == spec_reverse_range(old(bytes)@, a as int, b as int),
{
    let ghost original = bytes@;
    let mut lo = a;
    let mut hi = b;
    while hi - lo > 1
        invariant
            a <= lo <= hi <= b <= original.len(),
            bytes@.len() == original.len(),
            lo - a == b - hi,
            forall|i: int| 0 <= i < original.len() ==> #[trigger] bytes@[i] == if (a <= i < lo || hi <= i < b) {
                original[a + b - 1 - i]
            } else {
                original[i]
            },
        decreases hi - lo,
    {
        let x = bytes[lo];
        let y = bytes[hi - 1];
        bytes.set(lo, y);
        bytes.set(hi - 1, x);
        lo = lo + 1;
        hi = hi - 1;
    }
    assert(bytes@ =~= spec_reverse_range(original, a as int, b as int));
}

pub open spec fn spec_asset_minimum(serializer_version: u32) -> nat {
    48 + (if serializer_version > 0 { 8nat } else { 0nat }) + (if serializer_version > 1 { 1nat } else { 0nat })
}

/// Native-endian asset payloads differ from the wire form only in the
/// `subId` integer (bytes 16..20) and, from serializer version 1, the hint
/// length (bytes 48..56).
pub open spec fn spec_asset_swap(bytes: Seq<u8>, serializer_version: u32) -> Seq<u8> {
    let first = spec_reverse_range(bytes, 16, 20);
    if serializer_version > 0 {
        spec_reverse_range(first, 48, 56)
    } else {
        first
    }
}

fn asset_swap_integer_fields(bytes: Vec<u8>, serializer_version: u32) -> (r: Result<Vec<u8>, ValueCodecError>)
    ensures
        r is Err <==> bytes@.len() < spec_asset_minimum(serializer_version),
        r matches Err(e) ==> spec_invalid_length(e, "Asset serializer payload", bytes@.len()),
        r matches Ok(v) ==> v@ == spec_asset_swap(bytes@, serializer_version),
{
    let minimum: usize = 48 + (if serializer_version > 0 { 8 } else { 0 }) + (if serializer_version > 1 { 1 } else { 0 });
    if bytes.len() < minimum {
        return Err(ValueCodecError::InvalidLength { expected: "Asset serializer payload", actual: bytes.len() });
    }
    let mut bytes = bytes;
    reverse_range(&mut bytes, 16, 20);
    if serializer_version > 0 {
        reverse_range(&mut bytes, 48, 56);
    }
    Ok(bytes)
}

fn asset_big_to_native(bytes: Vec<u8>, serializer_version: u32, endian: NativeEndian) -> (r: Result<Vec<u8>, ValueCodecError>)
    ensures
        endian == NativeEndian::Big ==> (r matches Ok(v) && v@ == bytes@),
        endian == NativeEndian::Little ==> {
            &&& (r is Err <==> bytes@.len() < spec_asset_minimum(serializer_version))
            &&& (r matches Err(e) ==> spec_invalid_length(e, "Asset serializer payload", bytes@.len()))
            &&& (r matches Ok(v) ==> v@ == spec_asset_swap(bytes@, serializer_version))
        },
{
    if endian == NativeEndian::Big {
        return Ok(bytes);
    }
    asset_swap_integer_fields(bytes, serializer_version)
}

fn asset_native_to_big(data: &[u8], serializer_version: u32, endian: NativeEndian) -> (r: Result<Vec<u8>, ValueCodecError>)
    ensures
        endian == NativeEndian::Big ==> (r matches Ok(v) && v@ == data@),
        endian == NativeEndian::Little ==> {
            &&& (r is Err <==> data@.len() < spec_asset_minimum(serializer_version))
            &&& (r matches Err(e) ==> spec_invalid_length(e, "Asset serializer payload", data@.len()))
            &&& (r matches Ok(v) ==> v@ == spec_asset_swap(data@, serializer_version))
        },
{
    let copy = crate::bytes::copy_range(data, 0, data.len());
    assert(data@.subrange(0, data@.len() as int) =~= data@);
    asset_big_to_native(copy, serializer_version, endian)
}

// === ranged unsigned text (CRT `strtoul` semantics) ===

pub open spec fn spec_is_ascii_digit(b: u8) -> bool {
    48 <= b <= 57
}

/// Number of ASCII decimal digits at the start of `s`.
pub open spec fn spec_digit_run(s: Seq<u8>) -> nat
    decreases s.len(),
{
    if s.len() > 0 && spec_is_ascii_digit(s[0]) {
        1 + spec_digit_run(s.drop_first())
    } else {
        0
    }
}

/// Value of a sequence of ASCII decimal digits, most significant first.
pub open spec fn spec_decimal(digits: Seq<u8>) -> nat
    decreases digits.len(),
{
    if digits.len() == 0 {
        0
    } else {
        spec_decimal(digits.drop_last()) * 10 + (digits.last() - 48) as nat
    }
}

/// The digits after an optional leading `+` or `-`.
pub open spec fn spec_unsigned_body(s: Seq<u8>) -> Seq<u8> {
    if s.len() > 0 && (s[0] == 43 || s[0] == 45) {
        s.drop_first()
    } else {
        s
    }
}

/// Largest value the CRT parse of a ranged storage width returns:
/// `strtoul` (32-bit `unsigned long`) up to four bytes, `strtoull` for eight.
pub open spec fn spec_strtoul_max(bytes: u8) -> nat {
    if bytes <= 4 {
        0xFFFF_FFFF
    } else {
        0xFFFF_FFFF_FFFF_FFFF
    }
}

/// CRT `strtoul` on text whose leading whitespace is gone: an optional sign,
/// then the longest run of decimal digits.  No digits gives zero, a value
/// above `max` saturates to `max`, and a negated value wraps modulo
/// `max + 1`.
pub open spec fn spec_strtoul(s: Seq<u8>, max: nat) -> nat {
    let body = spec_unsigned_body(s);
    let n = spec_digit_run(body);
    let v = spec_decimal(body.take(n as int));
    if n == 0 {
        0
    } else if v > max {
        max
    } else if s[0] == 45 && v > 0 {
        (max + 1 - v) as nat
    } else {
        v
    }
}

proof fn lemma_digit_run_exact(s: Seq<u8>, m: int)
    requires
        0 <= m <= s.len(),
        forall|k: int| 0 <= k < m ==> spec_is_ascii_digit(#[trigger] s[k]),
        m == s.len() || !spec_is_ascii_digit(s[m]),
    ensures
        spec_digit_run(s) == m,
    decreases m,
{
    if m > 0 {
        let t = s.drop_first();
        assert forall|k: int| 0 <= k < m - 1 implies spec_is_ascii_digit(#[trigger] t[k]) by {
            assert(t[k] == s[k + 1]);
        }
        lemma_digit_run_exact(t, m - 1);
    }
}

proof fn lemma_decimal_monotone_step(digits: Seq<u8>, d: u8)
    requires
        spec_is_ascii_digit(d),
    ensures
        spec_decimal(digits.push(d)) == spec_decimal(digits) * 10 + (d - 48),
        spec_decimal(digits.push(d)) >= spec_decimal(digits),
{
    assert(digits.push(d).drop_last() =~= digits);
}

/// Ranged-unsigned text to native bytes: the CRT parse of the unsigned
/// storage type, then the C cast to the `bytes`-wide storage.  The reflected
/// `Min`/`Max` bounds neither clamp nor reject.
pub fn encode_ranged_unsigned(text: &str, bytes: u8, endian: NativeEndian) -> (r: Result<Vec<u8>, ValueCodecError>)
    ensures
        !(bytes == 1 || bytes == 2 || bytes == 4 || bytes == 8) <==> r is Err,
        r matches Err(e) ==> spec_invalid_length(e, "1-, 2-, 4-, or 8-byte ranged unsigned value", bytes as nat),
        r matches Ok(v) ==> v@ == spec_native_bytes(
            spec_strtoul(vstd::utf8::encode_utf8(spec_trim_start(text@)), spec_strtoul_max(bytes)),
            bytes as nat,
            endian,
        ),
{
    if !(bytes == 1 || bytes == 2 || bytes == 4 || bytes == 8) {
        return Err(ValueCodecError::InvalidLength {
            expected: "1-, 2-, 4-, or 8-byte ranged unsigned value",
            actual: bytes as usize,
        });
    }
    let source_max: u64 = if bytes <= 4 { 0xFFFF_FFFF } else { 0xFFFF_FFFF_FFFF_FFFF };
    let trimmed = crate::text::trim_start(text);
    let input = trimmed.as_bytes();
    let ghost s = input@;
    assert(s == vstd::utf8::encode_utf8(spec_trim_start(text@)));
    let len = input.len();
    let negative = len > 0 && input[0] == 45;
    let start: usize = if len > 0 && (input[0] == 43 || input[0] == 45) { 1 } else { 0 };
    let ghost body = spec_unsigned_body(s);
    assert(body =~= s.subrange(start as int, len as int));
    let mut pos: usize = start;
    let mut value: u64 = 0;
    let mut overflow = false;
    while pos < len && 48 <= input[pos] && input[pos] <= 57
        invariant
            len == s.len(),
            input@ == s,
            start <= pos <= len,
            source_max as nat == spec_strtoul_max(bytes),
            forall|k: int| start <= k < pos ==> spec_is_ascii_digit(#[trigger] s[k]),
            overflow <==> spec_decimal(s.subrange(start as int, pos as int)) > source_max,
            !overflow ==> value as nat == spec_decimal(s.subrange(start as int, pos as int)),
        decreases len - pos,
    {
        let d = input[pos] - 48;
        let ghost prev = s.subrange(start as int, pos as int);
        proof {
            assert(s.subrange(start as int, pos + 1) =~= prev.push(s[pos as int]));
            lemma_decimal_monotone_step(prev, s[pos as int]);
        }
        if !overflow {
            if value <= (source_max - d as u64) / 10 {
                assert(value * 10 + d <= source_max) by (nonlinear_arith)
                    requires
                        value <= (source_max - d) / 10,
                        d <= 9,
                        d <= source_max,
                ;
                value = value * 10 + d as u64;
            } else {
                assert(value * 10 + d > source_max) by (nonlinear_arith)
                    requires
                        value > (source_max - d) / 10,
                        d <= 9,
                        d <= source_max,
                ;
                overflow = true;
            }
        }
        pos = pos + 1;
    }
    proof {
        assert forall|k: int| 0 <= k < pos - start implies spec_is_ascii_digit(#[trigger] body[k]) by {
            assert(body[k] == s[start + k]);
        }
        lemma_digit_run_exact(body, pos - start);
        assert(body.take((pos - start) as int) =~= s.subrange(start as int, pos as int));
    }
    let result: u64 = if pos == start {
        0
    } else if overflow {
        source_max
    } else if negative && value > 0 {
        source_max - value + 1
    } else {
        value
    };
    Ok(native_bytes(result, bytes as usize, endian))
}

// === text grammar helpers ===

/// `e` is `InvalidLength` naming `expected` (as characters) and `actual`.
pub open spec fn spec_length_error(e: ValueCodecError, expected: Seq<char>, actual: nat) -> bool {
    e matches ValueCodecError::InvalidLength { expected: x, actual: a } && x@ == expected && a == actual
}

/// The boolean serializer's two canonical spellings; any other token is
/// rejected rather than read as `false`.
pub fn parse_bool(text: &str) -> (r: Result<bool, ValueCodecError>)
    ensures
        r matches Ok(b) ==> (b <==> text@ == seq!['t', 'r', 'u', 'e']),
        r matches Ok(b) ==> (!b <==> text@ == seq!['f', 'a', 'l', 's', 'e']),
        r is Err <==> (text@ != seq!['t', 'r', 'u', 'e'] && text@ != seq!['f', 'a', 'l', 's', 'e']),
        r matches Err(e) ==> spec_invalid_text(e, "bool (`true` or `false`)", text@),
{
    let n = text.unicode_len();
    if n == 4 && text.get_char(0) == 't' && text.get_char(1) == 'r' && text.get_char(2) == 'u'
        && text.get_char(3) == 'e' {
        assert(text@ =~= seq!['t', 'r', 'u', 'e']);
        return Ok(true);
    }
    if n == 5 && text.get_char(0) == 'f' && text.get_char(1) == 'a' && text.get_char(2) == 'l'
        && text.get_char(3) == 's' && text.get_char(4) == 'e' {
        assert(text@ =~= seq!['f', 'a', 'l', 's', 'e']);
        return Ok(false);
    }
    proof {
        if text@ == seq!['t', 'r', 'u', 'e'] {
            assert(text@[0] == 't');
        }
        if text@ == seq!['f', 'a', 'l', 's', 'e'] {
            assert(text@[0] == 'f');
        }
    }
    Err(ValueCodecError::InvalidText { expected: "bool (`true` or `false`)", value: text.to_owned() })
}

/// Number of copies of `b` at the start of `s`.
pub open spec fn spec_leading_count(s: Seq<u8>, b: u8) -> nat
    decreases s.len(),
{
    if s.len() > 0 && s[0] == b {
        1 + spec_leading_count(s.drop_first(), b)
    } else {
        0
    }
}

/// Number of copies of `b` at the end of `s`.
pub open spec fn spec_trailing_count(s: Seq<u8>, b: u8) -> nat
    decreases s.len(),
{
    if s.len() > 0 && s.last() == b {
        1 + spec_trailing_count(s.drop_last(), b)
    } else {
        0
    }
}

/// `s` without its leading `{` bytes, then without its trailing `}` bytes.
pub open spec fn spec_strip_braces(s: Seq<u8>) -> Seq<u8> {
    let t = s.skip(spec_leading_count(s, 123) as int);
    t.take(t.len() - spec_trailing_count(t, 125))
}

proof fn lemma_leading_count_exact(s: Seq<u8>, b: u8, m: int)
    requires
        0 <= m <= s.len(),
        forall|k: int| 0 <= k < m ==> #[trigger] s[k] == b,
        m == s.len() || s[m] != b,
    ensures
        spec_leading_count(s, b) == m,
    decreases m,
{
    if m > 0 {
        let t = s.drop_first();
        assert forall|k: int| 0 <= k < m - 1 implies #[trigger] t[k] == b by {
            assert(t[k] == s[k + 1]);
        }
        lemma_leading_count_exact(t, b, m - 1);
    }
}

proof fn lemma_trailing_count_exact(s: Seq<u8>, b: u8, m: int)
    requires
        0 <= m <= s.len(),
        forall|k: int| s.len() - m <= k < s.len() ==> #[trigger] s[k] == b,
        m == s.len() || s[s.len() - m - 1] != b,
    ensures
        spec_trailing_count(s, b) == m,
    decreases m,
{
    if m > 0 {
        let t = s.drop_last();
        assert forall|k: int| t.len() - (m - 1) <= k < t.len() implies #[trigger] t[k] == b by {
            assert(t[k] == s[k]);
        }
        if m - 1 < t.len() {
            assert(t[t.len() - (m - 1) - 1] == s[s.len() - m - 1]);
        }
        lemma_trailing_count_exact(t, b, m - 1);
    }
}

/// Serializer UUID text: trimmed, then every leading `{` and trailing `}`
/// removed, then parsed by the `uuid` crate.
pub fn parse_uuid(text: &str) -> (r: Result<AzUuid, ValueCodecError>)
    ensures
        r matches Ok(u) ==> spec_uuid_parse(spec_strip_braces(vstd::utf8::encode_utf8(spec_trim(text@))))
            == Some(u.bits),
        r is Err ==> spec_uuid_parse(spec_strip_braces(vstd::utf8::encode_utf8(spec_trim(text@)))) is None,
        r matches Err(e) ==> spec_invalid_text(e, "UUID", text@),
{
    let trimmed = crate::text::trim(text);
    let bytes = trimmed.as_bytes();
    let ghost s = bytes@;
    let n = bytes.len();
    let mut a: usize = 0;
    while a < n && bytes[a] == 123
        invariant
            n == s.len(),
            bytes@ == s,
            a <= n,
            forall|k: int| 0 <= k < a ==> #[trigger] s[k] == 123,
        decreases n - a,
    {
        a = a + 1;
    }
    proof {
        lemma_leading_count_exact(s, 123, a as int);
    }
    let ghost t = s.skip(a as int);
    let mut b: usize = n;
    while b > a && bytes[b - 1] == 125
        invariant
            n == s.len(),
            bytes@ == s,
            a <= b <= n,
            forall|k: int| b <= k < n ==> #[trigger] s[k] == 125,
        decreases b - a,
    {
        b = b - 1;
    }
    proof {
        assert forall|k: int| t.len() - (n - b) <= k < t.len() implies #[trigger] t[k] == 125 by {
            assert(t[k] == s[a + k]);
        }
        if n - b < t.len() {
            assert(t[t.len() - (n - b) - 1] == s[b - 1]);
        }
        lemma_trailing_count_exact(t, 125, (n - b) as int);
        assert(t.take(t.len() - (n - b)) =~= s.subrange(a as int, b as int));
    }
    match parse_uuid_ascii(crate::bytes::sub_slice(bytes, a, b)) {
        Some(u) => Ok(u),
        None => Err(ValueCodecError::InvalidText { expected: "UUID", value: text.to_owned() }),
    }
}

/// Serializer UUID text reads back the UUID that the braced uppercase
/// rendering wrote.
pub proof fn lemma_uuid_text_roundtrip(bits: u128)
    ensures
        spec_uuid_parse(spec_strip_braces(vstd::utf8::encode_utf8(spec_trim(spec_uuid_braced_upper(bits)))))
            == Some(bits),
{
    let t = spec_uuid_braced_upper(bits);
    assert(t.len() == 38);
    assert(crate::text::spec_trim_start(t) == t);
    assert(crate::text::spec_trim_end(t) == t);
    assert forall|i: int| 0 <= i < t.len() implies (#[trigger] t[i] as u32) < 128 by {
        if 1 <= i < 37 && !crate::az_uuid::spec_uuid_is_hyphen(i - 1) {
            let d = crate::az_uuid::spec_uuid_nibble(bits, crate::az_uuid::spec_uuid_digit_index(i - 1));
            assert(d < 16);
        }
    }
    crate::scan::lemma_encode_ascii(t);
    let e = vstd::utf8::encode_utf8(t);
    assert(e[0] == 123);
    assert(e[1] != 123) by {
        let d = crate::az_uuid::spec_uuid_nibble(bits, 0);
        assert(d < 16);
        assert(e[1] as u32 == t[1] as u32);
    }
    lemma_leading_count_exact(e, 123, 1);
    let u = e.skip(1);
    assert(u.len() == 37);
    assert(u[36] == e[37]);
    assert(u[35] == e[36]);
    assert(u[35] != 125) by {
        let d = crate::az_uuid::spec_uuid_nibble(bits, 31);
        assert(d < 16);
        assert(e[36] as u32 == t[36] as u32);
    }
    lemma_trailing_count_exact(u, 125, 1);
    let m = spec_strip_braces(e);
    assert(m =~= e.subrange(1, 37));
    assert(m.len() == 36);
    assert(m[8] == 45 && m[13] == 45 && m[18] == 45 && m[23] == 45) by {
        assert(e[9] as u32 == t[9] as u32);
        assert(e[14] as u32 == t[14] as u32);
        assert(e[19] as u32 == t[19] as u32);
        assert(e[24] as u32 == t[24] as u32);
    }
    let d = crate::az_uuid::spec_uuid_digit_bytes(bits);
    let p = m.subrange(0, 8) + m.subrange(9, 13) + m.subrange(14, 18) + m.subrange(19, 23) + m.subrange(24, 36);
    assert forall|j: int| 0 <= j < 32 implies #[trigger] p[j] == d[j] by {
        let k = if j < 8 {
            j
        } else if j < 12 {
            j + 1
        } else if j < 16 {
            j + 2
        } else if j < 20 {
            j + 3
        } else {
            j + 4
        };
        assert(p[j] == m[k]);
        assert(crate::az_uuid::spec_uuid_digit_index(k) == j);
        assert(e[k + 1] as u32 == t[k + 1] as u32);
    }
    assert(p =~= d);
    crate::az_uuid::lemma_uuid_digit_bytes_parse(bits);
}

/// The serializer text of a UUID payload loads back to the same payload.
pub proof fn lemma_uuid_payload_text_roundtrip(d: BuiltinSerializerDescriptor, b: Seq<u8>)
    requires
        d.kind is Uuid,
        b.len() == 16,
    ensures
        spec_text_payload(d, spec_fixed_text(d.kind, b)) == Some(b),
{
    crate::bytes::lemma_be_nat_bound(b);
    crate::bytes::lemma_pow256_values();
    lemma_uuid_text_roundtrip(spec_be_nat(b) as u128);
    crate::bytes::lemma_bytes_roundtrip(b);
}

/// `b` in the platform byte order a text load produces for `d`: integer
/// payloads come out native-endian, UUIDs always big-endian.
pub open spec fn spec_platform_order(d: BuiltinSerializerDescriptor, b: Seq<u8>) -> Seq<u8> {
    if d.native_endian is Little && !(d.kind is Uuid) {
        b.reverse()
    } else {
        b
    }
}

/// The two's-complement value of a `width`-byte pattern lies in the signed
/// range of that width, and its pattern is the one it came from.
proof fn lemma_from_twos_inverse(n: nat, width: nat)
    requires
        1 <= width <= 8,
        n < pow256(width),
    ensures
        -(pow256(width) / 2) <= spec_from_twos(n, width) <= pow256(width) / 2 - 1,
        i64::MIN <= spec_from_twos(n, width) <= i64::MAX,
        spec_twos(spec_from_twos(n, width), width) == n,
{
    crate::bytes::lemma_pow256_values();
    crate::bytes::lemma_pow256_monotone(width, 8);
    assert(pow256(width) % 2 == 0) by {
        if width == 1 {
        } else if width == 2 {
        } else if width == 3 {
            assert(pow256(3) == 0x100_0000);
        } else if width == 4 {
        } else if width == 5 {
            reveal_with_fuel(pow256, 6);
        } else if width == 6 {
            reveal_with_fuel(pow256, 7);
        } else if width == 7 {
            reveal_with_fuel(pow256, 8);
        } else {
        }
    }
}

/// Decimal digit text, as bytes, is a run of ASCII digits of the same value.
proof fn lemma_decimal_text_bytes(text: Seq<char>)
    requires
        forall|i: int| 0 <= i < text.len() ==> crate::text::spec_is_dec_digit(#[trigger] text[i]),
    ensures
        vstd::utf8::encode_utf8(text).len() == text.len(),
        forall|i: int| 0 <= i < text.len() ==> spec_is_ascii_digit(#[trigger] vstd::utf8::encode_utf8(text)[i]),
        spec_decimal(vstd::utf8::encode_utf8(text)) == crate::text::spec_dec_run(text),
    decreases text.len(),
{
    crate::scan::lemma_encode_ascii(text);
    let e = vstd::utf8::encode_utf8(text);
    assert forall|i: int| 0 <= i < text.len() implies spec_is_ascii_digit(#[trigger] e[i]) by {
        assert(e[i] as u32 == text[i] as u32);
    }
    if text.len() > 0 {
        let init = text.drop_last();
        lemma_decimal_text_bytes(init);
        crate::scan::lemma_encode_concat(init, seq![text.last()]);
        assert(init + seq![text.last()] =~= text);
        crate::scan::lemma_encode_ascii(seq![text.last()]);
        assert(e.drop_last() =~= vstd::utf8::encode_utf8(init));
        assert(e.last() as u32 == text.last() as u32);
        assert(text.subrange(0, text.len() - 1) =~= init);
    }
}

/// Ranged integer text, read by the CRT `strtoul`, loads back to the value.
proof fn lemma_ranged_payload_text_roundtrip(d: BuiltinSerializerDescriptor, b: Seq<u8>)
    requires
        d.kind is RangedUnsigned,
        (spec_fixed_layout(d.kind, d.native_abi) matches Some(layout) && b.len() == layout.0),
    ensures
        spec_text_payload(d, spec_fixed_text(d.kind, b)) == Some(spec_platform_order(d, b)),
{
    let w = b.len();
    let n = spec_be_nat(b);
    crate::bytes::lemma_be_nat_bound(b);
    crate::bytes::lemma_pow256_values();
    crate::bytes::lemma_bytes_roundtrip(b);
    if w == 1 {
        assert(b.reverse() =~= b);
    }
    crate::bytes::lemma_pow256_monotone(w, 8);
    if w <= 4 {
        crate::bytes::lemma_pow256_monotone(w, 4);
    }
    let t = spec_fixed_text(d.kind, b);
    assert(t == spec_u64_decimal(n as u64));
    crate::text::lemma_nat_decimal(n);
    assert(spec_trim_start(t) == t);
    lemma_decimal_text_bytes(t);
    let e = vstd::utf8::encode_utf8(t);
    assert(spec_unsigned_body(e) == e);
    lemma_digit_run_exact(e, e.len() as int);
    assert(e.take(e.len() as int) =~= e);
    let bytes = d.kind->bytes;
    assert(spec_strtoul(e, spec_strtoul_max(bytes)) == n);
    assert(spec_native_bytes(n, w, d.native_endian) == spec_platform_order(d, b));
}

/// The text of a big-endian integer, boolean or UUID payload loads back
/// to the same value, in the byte order a text load produces.  A boolean
/// byte other than 0 or 1 is written as `true` and reads back as 1, so it
/// is left out.  (Ranged integers are read by the CRT `strtoul`, which
/// accepts the decimal text they are written in.)
pub proof fn lemma_fixed_payload_text_roundtrip(d: BuiltinSerializerDescriptor, b: Seq<u8>)
    requires
        (spec_fixed_layout(d.kind, d.native_abi) matches Some(layout) && b.len() == layout.0),
        d.kind is Bool ==> b[0] <= 1,
    ensures
        spec_text_payload(d, spec_fixed_text(d.kind, b)) == Some(spec_platform_order(d, b)),
{
    let w = b.len();
    let n = spec_be_nat(b);
    crate::bytes::lemma_be_nat_bound(b);
    crate::bytes::lemma_pow256_values();
    crate::bytes::lemma_bytes_roundtrip(b);
    if w == 1 {
        assert(b.reverse() =~= b);
    }
    if d.kind is Bool {
        reveal_strlit("true");
        reveal_strlit("false");
        assert("true"@ =~= seq!['t', 'r', 'u', 'e']);
        assert("false"@ =~= seq!['f', 'a', 'l', 's', 'e']);
        if b[0] == 0 {
            assert(b =~= seq![0u8]);
        } else {
            assert(b =~= seq![1u8]);
        }
        assert(spec_text_payload(d, spec_fixed_text(d.kind, b)) == Some(spec_platform_order(d, b)));
    } else if d.kind is Uuid {
        lemma_uuid_payload_text_roundtrip(d, b);
        assert(spec_text_payload(d, spec_fixed_text(d.kind, b)) == Some(spec_platform_order(d, b)));
    } else if spec_is_signed(d.kind) {
        lemma_from_twos_inverse(n, w);
        let v = spec_from_twos(n, w);
        let t = spec_fixed_text(d.kind, b);
        crate::text::lemma_i64_decimal_roundtrip(v as i64);
        assert(t == spec_i64_decimal(v as i64));
        assert((v as i64) as int == v);
        assert(spec_signed_text(t, -(pow256(w) / 2), pow256(w) / 2 - 1) == Some(v as i64));
        assert(spec_native_bytes(n, w, d.native_endian) == spec_platform_order(d, b));
        assert(spec_text_payload(d, spec_fixed_text(d.kind, b)) == Some(spec_platform_order(d, b)));
    } else if d.kind is RangedUnsigned {
        lemma_ranged_payload_text_roundtrip(d, b);
    } else {
        crate::bytes::lemma_pow256_monotone(w, 8);
        let t = spec_fixed_text(d.kind, b);
        crate::text::lemma_u64_decimal_roundtrip(n as u64);
        assert(t == spec_u64_decimal(n as u64));
        assert(spec_unsigned_text(t, pow256(w) - 1) == Some(n as u64));
        assert(spec_native_bytes(n, w, d.native_endian) == spec_platform_order(d, b));
        assert(spec_text_payload(d, spec_fixed_text(d.kind, b)) == Some(spec_platform_order(d, b)));
    }
}

/// The text of a string or byte-stream payload loads back to the same
/// bytes (a string payload must be valid UTF-8 to have a text form).
pub proof fn lemma_variable_payload_text_roundtrip(d: BuiltinSerializerDescriptor, b: Seq<u8>)
    requires
        d.kind is String || d.kind is ByteStream,
        d.kind is String ==> vstd::utf8::valid_utf8(b),
    ensures
        d.kind is String ==> spec_text_payload(d, vstd::utf8::decode_utf8(b)) == Some(b),
        d.kind is ByteStream ==> spec_text_payload(d, spec_hex_encode_upper(b)) == Some(b),
{
    if d.kind is String {
        vstd::utf8::decode_utf8_encode_utf8(b);
    } else {
        crate::text::lemma_hex_text_roundtrip(b);
    }
}

/// The decimal value std parses from trimmed text, when it lies in
/// `[lo, hi]`; integer `FromStr` for a narrower type accepts the same
/// grammar and rejects exactly the values outside its range.
pub open spec fn spec_signed_text(text: Seq<char>, lo: int, hi: int) -> Option<i64> {
    match spec_parse_i64(spec_trim(text)) {
        Some(v) => if lo <= v <= hi {
            Some(v)
        } else {
            None
        },
        None => None,
    }
}

/// Unsigned counterpart of `spec_signed_text`.
pub open spec fn spec_unsigned_text(text: Seq<char>, hi: int) -> Option<u64> {
    match spec_parse_u64(spec_trim(text)) {
        Some(v) => if v <= hi {
            Some(v)
        } else {
            None
        },
        None => None,
    }
}

fn parse_signed(text: &str, lo: i64, hi: i64, expected: &'static str) -> (r: Result<i64, ValueCodecError>)
    ensures
        r is Ok <==> spec_signed_text(text@, lo as int, hi as int) is Some,
        r matches Ok(v) ==> spec_signed_text(text@, lo as int, hi as int) == Some(v),
        r matches Err(e) ==> spec_invalid_text(e, expected, text@),
{
    match parse_i64(crate::text::trim(text)) {
        Some(v) => if lo <= v && v <= hi {
            Ok(v)
        } else {
            Err(ValueCodecError::InvalidText { expected, value: text.to_owned() })
        },
        None => Err(ValueCodecError::InvalidText { expected, value: text.to_owned() }),
    }
}

fn parse_unsigned(text: &str, hi: u64, expected: &'static str) -> (r: Result<u64, ValueCodecError>)
    ensures
        r is Ok <==> spec_unsigned_text(text@, hi as int) is Some,
        r matches Ok(v) ==> spec_unsigned_text(text@, hi as int) == Some(v),
        r matches Err(e) ==> spec_invalid_text(e, expected, text@),
{
    match parse_u64(crate::text::trim(text)) {
        Some(v) => if v <= hi {
            Ok(v)
        } else {
            Err(ValueCodecError::InvalidText { expected, value: text.to_owned() })
        },
        None => Err(ValueCodecError::InvalidText { expected, value: text.to_owned() }),
    }
}

pub open spec fn spec_float_sequence_name(count: usize) -> Seq<char> {
    if count == 1 {
        "one f32"@
    } else if count == 2 {
        "two f32 values"@
    } else if count == 3 {
        "three f32 values"@
    } else if count == 4 {
        "four f32 values"@
    } else if count == 9 {
        "nine f32 values"@
    } else if count == 12 {
        "twelve f32 values"@
    } else if count == 16 {
        "sixteen f32 values"@
    } else {
        "fixed f32 sequence"@
    }
}

/// Name a fixed `f32` sequence by its arity in length errors.
pub fn float_sequence_name(count: usize) -> (r: &'static str)
    ensures
        r@ == spec_float_sequence_name(count),
{
    match count {
        1 => "one f32",
        2 => "two f32 values",
        3 => "three f32 values",
        4 => "four f32 values",
        9 => "nine f32 values",
        12 => "twelve f32 values",
        16 => "sixteen f32 values",
        _ => "fixed f32 sequence",
    }
}

/// The component tokens of `count`-float sequence text: its
/// whitespace-separated words, which must number exactly `count`.
pub fn float_sequence_tokens(text: &str, count: usize) -> (r: Result<Vec<&str>, ValueCodecError>)
    ensures
        r is Ok <==> crate::text::spec_words(text@).len() == count,
        r matches Ok(v) ==> v@.len() == count && forall|k: int| 0 <= k < v@.len() ==> #[trigger] v@[k]@
            == crate::text::spec_words(text@)[k],
        r matches Err(e) ==> spec_length_error(
            e,
            spec_float_sequence_name(count),
            crate::text::spec_words(text@).len(),
        ),
{
    let parts = crate::text::split_whitespace(text);
    if parts.len() != count {
        return Err(ValueCodecError::InvalidLength { expected: float_sequence_name(count), actual: parts.len() });
    }
    Ok(parts)
}

// === endian normalization by serializer kind ===

/// Kinds whose native bytes have no byte order to normalize.
pub open spec fn spec_order_free(kind: BuiltinSerializerKind) -> bool {
    ||| kind is I8
    ||| kind is U8
    ||| kind == BuiltinSerializerKind::RangedUnsigned { bytes: 1 }
    ||| kind is Bool
    ||| kind is Uuid
    ||| kind is String
    ||| kind is ByteStream
}

/// Chunk reversal as a result: empty data or a ragged length is a length
/// error naming `expected`.
pub open spec fn spec_swap_result(data: Seq<u8>, width: nat, expected: Seq<char>) -> Result<Seq<u8>, (Seq<char>, nat)> {
    if data.len() == 0 || data.len() % width != 0 {
        Err((expected, data.len()))
    } else {
        Ok(spec_swap_chunks(data, width))
    }
}

/// Native payload bytes to the canonical big-endian wire form; an error is
/// the `InvalidLength` name and actual length.
pub open spec fn spec_native_to_big(
    kind: BuiltinSerializerKind,
    data: Seq<u8>,
    abi: NativeAbi,
    endian: NativeEndian,
    asset_version: u32,
) -> Result<Seq<u8>, (Seq<char>, nat)> {
    if kind is Empty {
        if data.len() == 0 {
            Ok(Seq::empty())
        } else {
            Err(("empty serializer payload"@, data.len()))
        }
    } else if endian is Big || spec_order_free(kind) {
        Ok(data)
    } else {
        match kind {
            BuiltinSerializerKind::RangedUnsigned { bytes } => if bytes == 2 {
                spec_swap_result(data, 2, "ranged unsigned 16-bit value"@)
            } else if bytes == 4 {
                spec_swap_result(data, 4, "ranged unsigned 32-bit value"@)
            } else if bytes == 8 {
                spec_swap_result(data, 8, "ranged unsigned 64-bit value"@)
            } else {
                Err(("1-, 2-, 4-, or 8-byte ranged unsigned value"@, data.len()))
            },
            BuiltinSerializerKind::I16 | BuiltinSerializerKind::U16 => spec_swap_result(data, 2, "16-bit value"@),
            BuiltinSerializerKind::I32 | BuiltinSerializerKind::U32 | BuiltinSerializerKind::F32 => spec_swap_result(
                data,
                4,
                "32-bit value"@,
            ),
            BuiltinSerializerKind::Long | BuiltinSerializerKind::UnsignedLong => if abi is Llp64 {
                spec_swap_result(data, 4, "LLP64 long"@)
            } else {
                spec_swap_result(data, 8, "64-bit value"@)
            },
            BuiltinSerializerKind::I64 | BuiltinSerializerKind::U64 | BuiltinSerializerKind::F64 => spec_swap_result(
                data,
                8,
                "64-bit value"@,
            ),
            BuiltinSerializerKind::Asset => if data.len() < spec_asset_minimum(asset_version) {
                Err(("Asset serializer payload"@, data.len()))
            } else {
                Ok(spec_asset_swap(data, asset_version))
            },
            BuiltinSerializerKind::F32Sequence { count } => if data.len() != count * 4 {
                Err((spec_float_sequence_name(count), data.len()))
            } else {
                spec_swap_result(data, 4, spec_float_sequence_name(count))
            },
            _ => Ok(data),
        }
    }
}

/// `e` refuses a text payload, which has no byte order.
pub open spec fn spec_text_payload_refused(e: ValueCodecError) -> bool {
    e matches ValueCodecError::UnsupportedPayloadEncoding { encoding } && encoding is Text
}

/// `r` is the executable outcome `spec` describes.
pub open spec fn spec_bytes_outcome(r: Result<Vec<u8>, ValueCodecError>, spec: Result<Seq<u8>, (Seq<char>, nat)>) -> bool {
    &&& (r is Ok <==> spec is Ok)
    &&& (r matches Ok(v) ==> spec == Ok::<Seq<u8>, (Seq<char>, nat)>(v@))
    &&& (r matches Err(e) ==> spec matches Err(x) && spec_length_error(e, x.0, x.1))
}

fn swap_named(data: &[u8], width: usize, expected: &'static str) -> (r: Result<Vec<u8>, ValueCodecError>)
    requires
        width > 0,
    ensures
        spec_bytes_outcome(r, spec_swap_result(data@, width as nat, expected@)),
{
    swap_chunks(data, width, expected)
}

/// Normalize native payload bytes of `kind` to the big-endian wire form.
pub fn native_to_big(
    kind: BuiltinSerializerKind,
    data: &[u8],
    abi: NativeAbi,
    endian: NativeEndian,
    asset_serializer_version: u32,
) -> (r: Result<Vec<u8>, ValueCodecError>)
    ensures
        spec_bytes_outcome(r, spec_native_to_big(kind, data@, abi, endian, asset_serializer_version)),
{
    proof {
        reveal_strlit("empty serializer payload");
        reveal_strlit("1-, 2-, 4-, or 8-byte ranged unsigned value");
        reveal_strlit("Asset serializer payload");
    }
    let whole = crate::bytes::copy_range(data, 0, data.len());
    assert(data@.subrange(0, data@.len() as int) =~= data@);
    if let BuiltinSerializerKind::Empty = kind {
        if data.len() == 0 {
            return Ok(Vec::new());
        } else {
            return Err(ValueCodecError::InvalidLength { expected: "empty serializer payload", actual: data.len() });
        }
    }
    let order_free = match kind {
        BuiltinSerializerKind::I8 => true,
        BuiltinSerializerKind::U8 => true,
        BuiltinSerializerKind::RangedUnsigned { bytes } => bytes == 1,
        BuiltinSerializerKind::Bool => true,
        BuiltinSerializerKind::Uuid => true,
        BuiltinSerializerKind::String => true,
        BuiltinSerializerKind::ByteStream => true,
        _ => false,
    };
    if endian == NativeEndian::Big || order_free {
        return Ok(whole);
    }
    match kind {
        BuiltinSerializerKind::RangedUnsigned { bytes } => {
            if bytes == 2 {
                swap_named(data, 2, "ranged unsigned 16-bit value")
            } else if bytes == 4 {
                swap_named(data, 4, "ranged unsigned 32-bit value")
            } else if bytes == 8 {
                swap_named(data, 8, "ranged unsigned 64-bit value")
            } else {
                Err(ValueCodecError::InvalidLength {
                    expected: "1-, 2-, 4-, or 8-byte ranged unsigned value",
                    actual: data.len(),
                })
            }
        },
        BuiltinSerializerKind::I16 | BuiltinSerializerKind::U16 => swap_named(data, 2, "16-bit value"),
        BuiltinSerializerKind::I32 | BuiltinSerializerKind::U32 | BuiltinSerializerKind::F32 => swap_named(
            data,
            4,
            "32-bit value",
        ),
        BuiltinSerializerKind::Long | BuiltinSerializerKind::UnsignedLong => {
            if abi == NativeAbi::Llp64 {
                swap_named(data, 4, "LLP64 long")
            } else {
                swap_named(data, 8, "64-bit value")
            }
        },
        BuiltinSerializerKind::I64 | BuiltinSerializerKind::U64 | BuiltinSerializerKind::F64 => swap_named(
            data,
            8,
            "64-bit value",
        ),
        BuiltinSerializerKind::Asset => asset_native_to_big(data, asset_serializer_version, endian),
        BuiltinSerializerKind::F32Sequence { count } => {
            let name = float_sequence_name(count);
            if data.len() % 4 != 0 || data.len() / 4 != count {
                return Err(ValueCodecError::InvalidLength { expected: name, actual: data.len() });
            }
            swap_named(data, 4, name)
        },
        _ => Ok(whole),
    }
}

// === serializer descriptors and the builtin codec ===

/// Captured identity of a builtin serializer: its kind, the platform whose
/// native bytes it reads and writes, and its current serializer version.
#[derive(Clone, Copy, Debug, PartialEq, Eq, Structural)]
pub struct BuiltinSerializerDescriptor {
    pub kind: BuiltinSerializerKind,
    pub native_abi: NativeAbi,
    pub native_endian: NativeEndian,
    pub current_version: u32,
}

impl BuiltinSerializerDescriptor {
    /// A descriptor for Lumberyard's platform: LLP64, little-endian.
    pub fn new(kind: BuiltinSerializerKind, current_version: u32) -> (r: Self)
        ensures
            r.kind == kind,
            r.current_version == current_version,
            r.native_abi == NativeAbi::Llp64,
            r.native_endian == NativeEndian::Little,
    {
        BuiltinSerializerDescriptor { kind, native_abi: NativeAbi::Llp64, native_endian: NativeEndian::Little, current_version }
    }

    pub fn with_platform(self, native_abi: NativeAbi, native_endian: NativeEndian) -> (r: Self)
        ensures
            r == (BuiltinSerializerDescriptor { native_abi, native_endian, ..self }),
    {
        BuiltinSerializerDescriptor { native_abi, native_endian, ..self }
    }

    pub fn codec(self) -> (r: BuiltinValueCodec)
        ensures
            r.descriptor() == self,
    {
        BuiltinValueCodec { descriptor: self }
    }
}

/// The builtin `IDataSerializer` behaviour for one captured descriptor.
#[derive(Clone, Copy, Debug)]
pub struct BuiltinValueCodec {
    descriptor: BuiltinSerializerDescriptor,
}

impl BuiltinValueCodec {
    pub closed spec fn descriptor(self) -> BuiltinSerializerDescriptor {
        self.descriptor
    }

    /// The three ways to build a builtin codec agree: `with_platform(kind,
    /// v, abi, endian)` (codec `a`) and the descriptor path
    /// `BuiltinSerializerDescriptor::new(kind, v).with_platform(abi,
    /// endian).codec()` (codec `b`) give the same codec, and `new(kind, v)`
    /// (codec `c`) is `with_platform(kind, v, Llp64, Little)`; equal codecs
    /// answer every call alike.  Each `requires` is what that constructor
    /// ensures.
    pub proof fn lemma_codec_constructions_agree(
        kind: BuiltinSerializerKind,
        v: u32,
        abi: NativeAbi,
        endian: NativeEndian,
        a: BuiltinValueCodec,
        b: BuiltinValueCodec,
        c: BuiltinValueCodec,
    )
        requires
            a.descriptor() == (BuiltinSerializerDescriptor {
                kind,
                native_abi: abi,
                native_endian: endian,
                current_version: v,
            }),
            b.descriptor() == (BuiltinSerializerDescriptor {
                native_abi: abi,
                native_endian: endian,
                ..BuiltinSerializerDescriptor {
                    kind,
                    native_abi: NativeAbi::Llp64,
                    native_endian: NativeEndian::Little,
                    current_version: v,
                }
            }),
            c.descriptor() == (BuiltinSerializerDescriptor {
                kind,
                native_abi: NativeAbi::Llp64,
                native_endian: NativeEndian::Little,
                current_version: v,
            }),
        ensures
            a == b,
            abi == NativeAbi::Llp64 && endian == NativeEndian::Little ==> a == c,
    {
    }

    pub fn new(kind: BuiltinSerializerKind, asset_serializer_version: u32) -> (r: Self)
        ensures
            r.descriptor() == (BuiltinSerializerDescriptor {
                kind,
                native_abi: NativeAbi::Llp64,
                native_endian: NativeEndian::Little,
                current_version: asset_serializer_version,
            }),
    {
        BuiltinSerializerDescriptor::new(kind, asset_serializer_version).codec()
    }

    pub fn with_platform(
        kind: BuiltinSerializerKind,
        asset_serializer_version: u32,
        native_abi: NativeAbi,
        native_endian: NativeEndian,
    ) -> (r: Self)
        ensures
            r.descriptor() == (BuiltinSerializerDescriptor {
                kind,
                native_abi,
                native_endian,
                current_version: asset_serializer_version,
            }),
    {
        BuiltinSerializerDescriptor::new(kind, asset_serializer_version).with_platform(native_abi, native_endian).codec()
    }

    /// Normalize `data` to the canonical big-endian wire form.  Text
    /// payloads carry no byte order and are refused.
    pub fn to_big_endian(
        &self,
        type_id: AzUuid,
        data: &[u8],
        payload_encoding: PayloadEncoding,
        element_version: u32,
    ) -> (r: Result<Vec<u8>, ValueCodecError>)
        ensures
            payload_encoding is BinaryBigEndian ==> (r matches Ok(v) && v@ == data@),
            payload_encoding is BinaryNativeEndian ==> spec_bytes_outcome(
                r,
                spec_native_to_big(
                    self.descriptor().kind,
                    data@,
                    self.descriptor().native_abi,
                    self.descriptor().native_endian,
                    self.descriptor().current_version,
                ),
            ),
            payload_encoding is Text ==> (r matches Err(e) && spec_text_payload_refused(e)),
    {
        match payload_encoding {
            PayloadEncoding::BinaryBigEndian => {
                let v = crate::bytes::copy_range(data, 0, data.len());
                assert(data@.subrange(0, data@.len() as int) =~= data@);
                Ok(v)
            },
            PayloadEncoding::BinaryNativeEndian => native_to_big(
                self.descriptor.kind,
                data,
                self.descriptor.native_abi,
                self.descriptor.native_endian,
                self.descriptor.current_version,
            ),
            PayloadEncoding::Text => Err(ValueCodecError::UnsupportedPayloadEncoding { encoding: PayloadEncoding::Text }),
        }
    }
}

// === big-endian payload to serializer text ===

/// Width and `InvalidLength` name of the fixed-width kinds' text forms.
pub open spec fn spec_fixed_layout(kind: BuiltinSerializerKind, abi: NativeAbi) -> Option<(nat, Seq<char>)> {
    match kind {
        BuiltinSerializerKind::RangedUnsigned { bytes } => if bytes == 1 {
            Some((1nat, "ranged u8"@))
        } else if bytes == 2 {
            Some((2nat, "ranged u16"@))
        } else if bytes == 4 {
            Some((4nat, "ranged u32"@))
        } else if bytes == 8 {
            Some((8nat, "ranged u64"@))
        } else {
            None
        },
        BuiltinSerializerKind::I8 => Some((1nat, "i8"@)),
        BuiltinSerializerKind::I16 => Some((2nat, "i16"@)),
        BuiltinSerializerKind::I32 => Some((4nat, "i32"@)),
        BuiltinSerializerKind::Long => if abi is Llp64 {
            Some((4nat, "long"@))
        } else {
            Some((8nat, "i64"@))
        },
        BuiltinSerializerKind::I64 => Some((8nat, "i64"@)),
        BuiltinSerializerKind::U8 => Some((1nat, "u8"@)),
        BuiltinSerializerKind::U16 => Some((2nat, "u16"@)),
        BuiltinSerializerKind::U32 => Some((4nat, "u32"@)),
        BuiltinSerializerKind::UnsignedLong => if abi is Llp64 {
            Some((4nat, "unsigned long"@))
        } else {
            Some((8nat, "u64"@))
        },
        BuiltinSerializerKind::U64 => Some((8nat, "u64"@)),
        BuiltinSerializerKind::Bool => Some((1nat, "bool"@)),
        BuiltinSerializerKind::Uuid => Some((16nat, "UUID"@)),
        _ => None,
    }
}

pub open spec fn spec_is_signed(kind: BuiltinSerializerKind) -> bool {
    kind is I8 || kind is I16 || kind is I32 || kind is Long || kind is I64
}

/// Two's-complement value of an unsigned `width`-byte pattern.
pub open spec fn spec_from_twos(n: nat, width: nat) -> int {
    if n >= pow256(width) / 2 {
        n - pow256(width)
    } else {
        n as int
    }
}

/// Text form of a fixed-width big-endian payload `b`.
pub open spec fn spec_fixed_text(kind: BuiltinSerializerKind, b: Seq<u8>) -> Seq<char> {
    if kind is Bool {
        if b[0] == 0 {
            "false"@
        } else {
            "true"@
        }
    } else if kind is Uuid {
        spec_uuid_braced_upper(spec_be_nat(b) as u128)
    } else if spec_is_signed(kind) {
        spec_i64_decimal(spec_from_twos(spec_be_nat(b), b.len()) as i64)
    } else {
        spec_u64_decimal(spec_be_nat(b) as u64)
    }
}

/// What the text form of big-endian payload `b` is, for the kinds without
/// a floating-point or asset text form.
pub open spec fn spec_big_endian_text(
    r: Result<String, ValueCodecError>,
    kind: BuiltinSerializerKind,
    abi: NativeAbi,
    b: Seq<u8>,
) -> bool {
    &&& (spec_fixed_layout(kind, abi) matches Some(layout) ==> {
        &&& (r is Ok <==> b.len() == layout.0)
        &&& (r matches Ok(t) ==> t@ == spec_fixed_text(kind, b))
        &&& (r matches Err(e) ==> spec_length_error(e, layout.1, b.len()))
    })
    &&& (kind is RangedUnsigned && spec_fixed_layout(kind, abi) is None ==> (r matches Err(e) && spec_length_error(
        e,
        "1-, 2-, 4-, or 8-byte ranged unsigned value"@,
        b.len(),
    )))
    &&& (kind is Empty ==> (r matches Ok(t) && t@ == Seq::<char>::empty()))
    &&& (kind is String ==> {
        &&& (r is Ok <==> vstd::utf8::valid_utf8(b))
        &&& (r matches Ok(t) ==> t@ == vstd::utf8::decode_utf8(b))
        &&& (r matches Err(e) ==> e is Utf8)
    })
    &&& (kind is ByteStream ==> (r matches Ok(t) && t@ == spec_hex_encode_upper(b)))
}

fn fixed_text(kind: BuiltinSerializerKind, b: &[u8], width: usize, expected: &'static str) -> (r: Result<String, ValueCodecError>)
    requires
        width == 1 || width == 2 || width == 4 || width == 8 || (width == 16 && kind is Uuid),
        kind is Bool ==> width == 1,
        kind is Uuid ==> width == 16,
    ensures
        r is Ok <==> b@.len() == width,
        r matches Ok(t) ==> t@ == spec_fixed_text(kind, b@),
        r matches Err(e) ==> spec_length_error(e, expected@, b@.len()),
{
    if b.len() != width {
        return Err(ValueCodecError::InvalidLength { expected, actual: b.len() });
    }
    proof {
        reveal_strlit("false");
        reveal_strlit("true");
    }
    match kind {
        BuiltinSerializerKind::Bool => {
            if b[0] == 0 {
                Ok("false".to_owned())
            } else {
                Ok("true".to_owned())
            }
        },
        BuiltinSerializerKind::Uuid => {
            let id = AzUuid::from_slice(b, 0);
            assert(b@.subrange(0, 16) =~= b@);
            Ok(uuid_braced_upper(id))
        },
        _ => {
            let n = read_be(b, 0, width);
            assert(b@.subrange(0, width as int) =~= b@);
            proof {
                crate::bytes::lemma_be_nat_bound(b@);
                crate::bytes::lemma_pow256_values();
            }
            let signed = match kind {
                BuiltinSerializerKind::I8 => true,
                BuiltinSerializerKind::I16 => true,
                BuiltinSerializerKind::I32 => true,
                BuiltinSerializerKind::Long => true,
                BuiltinSerializerKind::I64 => true,
                _ => false,
            };
            if signed {
                let v: i64 = if width == 8 {
                    if n > 0x7FFF_FFFF_FFFF_FFFF {
                        -((0xFFFF_FFFF_FFFF_FFFFu64 - n) as i64) - 1
                    } else {
                        n as i64
                    }
                } else {
                    let full: u64 = pow256_u64(width);
                    if n >= full / 2 {
                        n as i64 - full as i64
                    } else {
                        n as i64
                    }
                };
                Ok(i64_decimal(v))
            } else {
                Ok(u64_decimal(n))
            }
        },
    }
}

fn big_endian_to_text(kind: BuiltinSerializerKind, abi: NativeAbi, b: &[u8]) -> (r: Result<String, ValueCodecError>)
    requires
        !kind.spec_is_float(),
        !(kind is Asset),
    ensures
        spec_big_endian_text(r, kind, abi, b@),
{
    proof {
        reveal_strlit("");
        reveal_strlit("ranged u8");
        reveal_strlit("ranged u16");
        reveal_strlit("ranged u32");
        reveal_strlit("ranged u64");
        reveal_strlit("1-, 2-, 4-, or 8-byte ranged unsigned value");
    }
    match kind {
        BuiltinSerializerKind::Empty => Ok(String::new()),
        BuiltinSerializerKind::RangedUnsigned { bytes } => {
            if bytes == 1 {
                fixed_text(kind, b, 1, "ranged u8")
            } else if bytes == 2 {
                fixed_text(kind, b, 2, "ranged u16")
            } else if bytes == 4 {
                fixed_text(kind, b, 4, "ranged u32")
            } else if bytes == 8 {
                fixed_text(kind, b, 8, "ranged u64")
            } else {
                Err(ValueCodecError::InvalidLength {
                    expected: "1-, 2-, 4-, or 8-byte ranged unsigned value",
                    actual: b.len(),
                })
            }
        },
        BuiltinSerializerKind::I8 => fixed_text(kind, b, 1, "i8"),
        BuiltinSerializerKind::I16 => fixed_text(kind, b, 2, "i16"),
        BuiltinSerializerKind::I32 => fixed_text(kind, b, 4, "i32"),
        BuiltinSerializerKind::Long => {
            if abi == NativeAbi::Llp64 {
                fixed_text(kind, b, 4, "long")
            } else {
                fixed_text(kind, b, 8, "i64")
            }
        },
        BuiltinSerializerKind::I64 => fixed_text(kind, b, 8, "i64"),
        BuiltinSerializerKind::U8 => fixed_text(kind, b, 1, "u8"),
        BuiltinSerializerKind::U16 => fixed_text(kind, b, 2, "u16"),
        BuiltinSerializerKind::U32 => fixed_text(kind, b, 4, "u32"),
        BuiltinSerializerKind::UnsignedLong => {
            if abi == NativeAbi::Llp64 {
                fixed_text(kind, b, 4, "unsigned long")
            } else {
                fixed_text(kind, b, 8, "u64")
            }
        },
        BuiltinSerializerKind::U64 => fixed_text(kind, b, 8, "u64"),
        BuiltinSerializerKind::Bool => fixed_text(kind, b, 1, "bool"),
        BuiltinSerializerKind::Uuid => fixed_text(kind, b, 16, "UUID"),
        BuiltinSerializerKind::String => match utf8_str(b) {
            Ok(text) => Ok(text.to_owned()),
            Err(error) => Err(ValueCodecError::Utf8(error)),
        },
        BuiltinSerializerKind::ByteStream => Ok(hex_encode_upper(b)),
        _ => {
            assert(false);
            Ok(String::new())
        },
    }
}

// === serializer text to native payload ===

/// Native bytes of a signed value of `width` bytes parsed from `text`.
pub open spec fn spec_signed_payload(text: Seq<char>, width: nat, endian: NativeEndian) -> Option<Seq<u8>> {
    match spec_signed_text(text, -(pow256(width) / 2), pow256(width) / 2 - 1) {
        Some(v) => Some(spec_native_bytes(spec_twos(v as int, width), width, endian)),
        None => None,
    }
}

/// Native bytes of an unsigned value of `width` bytes parsed from `text`.
pub open spec fn spec_unsigned_payload(text: Seq<char>, width: nat, endian: NativeEndian) -> Option<Seq<u8>> {
    match spec_unsigned_text(text, pow256(width) - 1) {
        Some(v) => Some(spec_native_bytes(v as nat, width, endian)),
        None => None,
    }
}

/// The native payload a builtin serializer's text load produces, or `None`
/// when it rejects the text (kinds with an integer, boolean, UUID, string
/// or byte-stream text form).
pub open spec fn spec_text_payload(d: BuiltinSerializerDescriptor, text: Seq<char>) -> Option<Seq<u8>> {
    let e = d.native_endian;
    let llp64 = d.native_abi is Llp64;
    match d.kind {
        BuiltinSerializerKind::Empty => if text.len() == 0 {
            Some(Seq::empty())
        } else {
            None
        },
        BuiltinSerializerKind::RangedUnsigned { bytes } => if bytes == 1 || bytes == 2 || bytes == 4 || bytes == 8 {
            Some(
                spec_native_bytes(
                    spec_strtoul(vstd::utf8::encode_utf8(spec_trim_start(text)), spec_strtoul_max(bytes)),
                    bytes as nat,
                    e,
                ),
            )
        } else {
            None
        },
        BuiltinSerializerKind::I8 => match spec_signed_text(text, -128, 127) {
            Some(v) => Some(spec_be_bytes(spec_twos(v as int, 1), 1)),
            None => None,
        },
        BuiltinSerializerKind::I16 => spec_signed_payload(text, 2, e),
        BuiltinSerializerKind::I32 => spec_signed_payload(text, 4, e),
        BuiltinSerializerKind::Long => spec_signed_payload(text, if llp64 { 4 } else { 8 }, e),
        BuiltinSerializerKind::I64 => spec_signed_payload(text, 8, e),
        BuiltinSerializerKind::U8 => match spec_unsigned_text(text, 255) {
            Some(v) => Some(spec_be_bytes(v as nat, 1)),
            None => None,
        },
        BuiltinSerializerKind::U16 => spec_unsigned_payload(text, 2, e),
        BuiltinSerializerKind::U32 => spec_unsigned_payload(text, 4, e),
        BuiltinSerializerKind::UnsignedLong => spec_unsigned_payload(text, if llp64 { 4 } else { 8 }, e),
        BuiltinSerializerKind::U64 => spec_unsigned_payload(text, 8, e),
        BuiltinSerializerKind::Bool => if text == seq!['t', 'r', 'u', 'e'] {
            Some(seq![1u8])
        } else if text == seq!['f', 'a', 'l', 's', 'e'] {
            Some(seq![0u8])
        } else {
            None
        },
        BuiltinSerializerKind::Uuid => match spec_uuid_parse(
            spec_strip_braces(vstd::utf8::encode_utf8(spec_trim(text))),
        ) {
            Some(bits) => Some(spec_be_bytes(bits as nat, 16)),
            None => None,
        },
        BuiltinSerializerKind::String => Some(vstd::utf8::encode_utf8(text)),
        BuiltinSerializerKind::ByteStream => spec_hex_decode(spec_trim(text)),
        _ => None,
    }
}

/// `InvalidText` name a kind reports for rejected text.
pub open spec fn spec_text_label(kind: BuiltinSerializerKind) -> Seq<char> {
    match kind {
        BuiltinSerializerKind::Empty => "empty serializer text"@,
        BuiltinSerializerKind::I8 => "i8"@,
        BuiltinSerializerKind::I16 => "i16"@,
        BuiltinSerializerKind::I32 => "i32"@,
        BuiltinSerializerKind::Long => "long"@,
        BuiltinSerializerKind::I64 => "i64"@,
        BuiltinSerializerKind::U8 => "u8"@,
        BuiltinSerializerKind::U16 => "u16"@,
        BuiltinSerializerKind::U32 => "u32"@,
        BuiltinSerializerKind::UnsignedLong => "unsigned long"@,
        BuiltinSerializerKind::U64 => "u64"@,
        BuiltinSerializerKind::Bool => "bool (`true` or `false`)"@,
        _ => "UUID"@,
    }
}

/// The error a kind reports when it rejects `text`.
pub open spec fn spec_text_error(e: ValueCodecError, kind: BuiltinSerializerKind, text: Seq<char>) -> bool {
    match kind {
        BuiltinSerializerKind::RangedUnsigned { bytes } => spec_length_error(
            e,
            "1-, 2-, 4-, or 8-byte ranged unsigned value"@,
            bytes as nat,
        ),
        BuiltinSerializerKind::ByteStream => e is Hex,
        _ => e matches ValueCodecError::InvalidText { expected, value } && expected@ == spec_text_label(kind)
            && value@ == text,
    }
}

fn signed_native(text: &str, width: usize, endian: NativeEndian, expected: &'static str) -> (r: Result<Vec<u8>, ValueCodecError>)
    requires
        width == 2 || width == 4 || width == 8,
    ensures
        r is Ok <==> spec_signed_payload(text@, width as nat, endian) is Some,
        r matches Ok(v) ==> spec_signed_payload(text@, width as nat, endian) == Some(v@),
        r matches Err(e) ==> spec_invalid_text(e, expected, text@),
{
    proof {
        crate::bytes::lemma_pow256_values();
    }
    let (lo, hi): (i64, i64) = if width == 2 {
        (-32768, 32767)
    } else if width == 4 {
        (-2147483648, 2147483647)
    } else {
        (-9223372036854775808, 9223372036854775807)
    };
    match parse_signed(text, lo, hi, expected) {
        Ok(v) => Ok(native_bytes(twos_pattern(v, width), width, endian)),
        Err(e) => Err(e),
    }
}

fn unsigned_native(text: &str, width: usize, endian: NativeEndian, expected: &'static str) -> (r: Result<Vec<u8>, ValueCodecError>)
    requires
        width == 2 || width == 4 || width == 8,
    ensures
        r is Ok <==> spec_unsigned_payload(text@, width as nat, endian) is Some,
        r matches Ok(v) ==> spec_unsigned_payload(text@, width as nat, endian) == Some(v@),
        r matches Err(e) ==> spec_invalid_text(e, expected, text@),
{
    proof {
        crate::bytes::lemma_pow256_values();
    }
    let hi: u64 = if width == 2 {
        65535
    } else if width == 4 {
        4294967295
    } else {
        18446744073709551615
    };
    match parse_unsigned(text, hi, expected) {
        Ok(v) => Ok(native_bytes(v, width, endian)),
        Err(e) => Err(e),
    }
}

impl BuiltinValueCodec {
    /// Load serializer text into native payload bytes (kinds whose text
    /// form is not floating point).
    pub fn text_to_data(
        &self,
        type_id: AzUuid,
        text: &str,
        element_version: u32,
        encoding: TextEncoding,
    ) -> (r: Result<EncodedPayload, ValueCodecError>)
        requires
            !self.descriptor().kind.spec_is_float(),
        ensures
            !(self.descriptor().kind is Asset) ==> {
                &&& (r is Ok <==> spec_text_payload(self.descriptor(), text@) is Some)
                &&& (r matches Ok(p) ==> Some(p.bytes@) == spec_text_payload(self.descriptor(), text@)
                    && p.encoding is BinaryNativeEndian)
                &&& (r matches Err(e) ==> spec_text_error(e, self.descriptor().kind, text@))
            },
            self.descriptor().kind is Asset ==> spec_asset_text_load(r, self.descriptor(), text@, element_version),
    {
        proof {
            reveal_strlit("empty serializer text");
            reveal_strlit("i8");
            reveal_strlit("i16");
            reveal_strlit("i32");
            reveal_strlit("long");
            reveal_strlit("i64");
            reveal_strlit("u8");
            reveal_strlit("u16");
            reveal_strlit("u32");
            reveal_strlit("unsigned long");
            reveal_strlit("u64");
            reveal_strlit("bool (`true` or `false`)");
            reveal_strlit("UUID");
            reveal_strlit("1-, 2-, 4-, or 8-byte ranged unsigned value");
            crate::bytes::lemma_pow256_values();
        }
        let endian = self.descriptor.native_endian;
        let llp64 = self.descriptor.native_abi == NativeAbi::Llp64;
        let result = match self.descriptor.kind {
            BuiltinSerializerKind::Empty => {
                if text.unicode_len() == 0 {
                    Ok(Vec::new())
                } else {
                    Err(ValueCodecError::InvalidText { expected: "empty serializer text", value: text.to_owned() })
                }
            },
            BuiltinSerializerKind::RangedUnsigned { bytes } => encode_ranged_unsigned(text, bytes, endian),
            BuiltinSerializerKind::I8 => match parse_signed(text, -128, 127, "i8") {
                Ok(v) => Ok(crate::bytes::write_be(twos_pattern(v, 1), 1)),
                Err(e) => Err(e),
            },
            BuiltinSerializerKind::I16 => signed_native(text, 2, endian, "i16"),
            BuiltinSerializerKind::I32 => signed_native(text, 4, endian, "i32"),
            BuiltinSerializerKind::Long => signed_native(text, if llp64 { 4 } else { 8 }, endian, "long"),
            BuiltinSerializerKind::I64 => signed_native(text, 8, endian, "i64"),
            BuiltinSerializerKind::U8 => match parse_unsigned(text, 255, "u8") {
                Ok(v) => Ok(crate::bytes::write_be(v, 1)),
                Err(e) => Err(e),
            },
            BuiltinSerializerKind::U16 => unsigned_native(text, 2, endian, "u16"),
            BuiltinSerializerKind::U32 => unsigned_native(text, 4, endian, "u32"),
            BuiltinSerializerKind::UnsignedLong => unsigned_native(
                text,
                if llp64 { 4 } else { 8 },
                endian,
                "unsigned long",
            ),
            BuiltinSerializerKind::U64 => unsigned_native(text, 8, endian, "u64"),
            BuiltinSerializerKind::Bool => match parse_bool(text) {
                Ok(b) => Ok(vec![if b { 1u8 } else { 0u8 }]),
                Err(e) => Err(e),
            },
            BuiltinSerializerKind::Uuid => match parse_uuid(text) {
                Ok(u) => Ok(u.to_bytes()),
                Err(e) => Err(e),
            },
            BuiltinSerializerKind::String => {
                let bytes = text.as_bytes();
                let v = crate::bytes::copy_range(bytes, 0, bytes.len());
                assert(bytes@.subrange(0, bytes@.len() as int) =~= bytes@);
                Ok(v)
            },
            BuiltinSerializerKind::ByteStream => match hex_decode(crate::text::trim(text)) {
                Ok(v) => Ok(v),
                Err(error) => Err(ValueCodecError::Hex(error)),
            },
            BuiltinSerializerKind::Asset => self.asset_text_to_native(text, element_version),
            _ => {
                assert(false);
                Ok(Vec::new())
            },
        };
        match result {
            Ok(bytes) => Ok(EncodedPayload::new(bytes, PayloadEncoding::BinaryNativeEndian)),
            Err(e) => Err(e),
        }
    }

    /// Render a payload as serializer text (kinds whose text form is not
    /// floating point): normalize it to big-endian, then format.
    pub fn data_to_text(
        &self,
        type_id: AzUuid,
        data: &[u8],
        payload_encoding: PayloadEncoding,
        element_version: u32,
        encoding: TextEncoding,
    ) -> (r: Result<String, ValueCodecError>)
        requires
            !self.descriptor().kind.spec_is_float(),
        ensures
            payload_encoding is Text ==> (r matches Err(e) && spec_text_payload_refused(e)),
            self.descriptor().kind is Asset && !(payload_encoding is Text) ==> spec_asset_data_text(
                r,
                self.descriptor(),
                data@,
                payload_encoding,
                element_version,
            ),
            !(self.descriptor().kind is Asset) && payload_encoding is BinaryBigEndian ==> spec_big_endian_text(
                r,
                self.descriptor().kind,
                self.descriptor().native_abi,
                data@,
            ),
            !(self.descriptor().kind is Asset) && payload_encoding is BinaryNativeEndian ==> match spec_native_to_big(
                self.descriptor().kind,
                data@,
                self.descriptor().native_abi,
                self.descriptor().native_endian,
                self.descriptor().current_version,
            ) {
                Ok(b) => spec_big_endian_text(r, self.descriptor().kind, self.descriptor().native_abi, b),
                Err(x) => r matches Err(e) && spec_length_error(e, x.0, x.1),
            },
    {
        if let BuiltinSerializerKind::Asset = self.descriptor.kind {
            let endian = match payload_encoding {
                PayloadEncoding::BinaryBigEndian => NativeEndian::Big,
                PayloadEncoding::BinaryNativeEndian => self.descriptor.native_endian,
                PayloadEncoding::Text => {
                    return Err(ValueCodecError::UnsupportedPayloadEncoding { encoding: PayloadEncoding::Text });
                },
            };
            return match AssetValueLayout::historical_data_to_current_text(
                data,
                element_version,
                endian,
                self.descriptor.current_version,
            ) {
                Ok(text) => Ok(text),
                Err(error) => Err(ValueCodecError::Asset(error.message())),
            };
        }
        let bytes = match self.to_big_endian(type_id, data, payload_encoding, element_version) {
            Ok(bytes) => bytes,
            Err(e) => {
                return Err(e);
            },
        };
        big_endian_to_text(self.descriptor.kind, self.descriptor.native_abi, bytes.as_slice())
    }
}

// === laws ===

proof fn lemma_swap_single_chunk(v: nat, width: nat)
    requires
        width > 0,
    ensures
        spec_swap_chunks(spec_le_bytes(v, width), width) == spec_be_bytes(v, width),
        spec_le_bytes(v, width).len() == width,
{
    lemma_be_bytes_len(v, width);
    let le = spec_le_bytes(v, width);
    let be = spec_be_bytes(v, width);
    assert forall|i: int| 0 <= i < width implies #[trigger] spec_swap_chunks(le, width)[i] == be[i] by {
        vstd::arithmetic::div_mod::lemma_basic_div(i, width as int);
        vstd::arithmetic::div_mod::lemma_small_mod(i as nat, width);
    }
    assert(spec_swap_chunks(le, width) =~= be);
}

proof fn lemma_one_byte_order_free(v: nat)
    ensures
        spec_le_bytes(v, 1) == spec_be_bytes(v, 1),
{
    lemma_be_bytes_len(v, 1);
    assert(spec_be_bytes(v, 1).reverse() =~= spec_be_bytes(v, 1));
}

/// Normalizing the native bytes that a text load produced gives exactly the
/// bytes the same text loads to on a big-endian platform: the wire form of
/// a value does not depend on the platform that converted its text.
pub proof fn lemma_text_payload_wire_form(d: BuiltinSerializerDescriptor, text: Seq<char>)
    requires
        !d.kind.spec_is_float(),
        !(d.kind is Asset),
        spec_text_payload(d, text) is Some,
    ensures
        spec_native_to_big(d.kind, spec_text_payload(d, text)->0, d.native_abi, d.native_endian, d.current_version)
            == Ok::<Seq<u8>, (Seq<char>, nat)>(
            spec_text_payload(BuiltinSerializerDescriptor { native_endian: NativeEndian::Big, ..d }, text)->0,
        ),
{
    crate::bytes::lemma_pow256_values();
    let big = BuiltinSerializerDescriptor { native_endian: NativeEndian::Big, ..d };
    if d.native_endian is Little {
        match d.kind {
            BuiltinSerializerKind::Empty => {},
            BuiltinSerializerKind::RangedUnsigned { bytes } => {
                let v = spec_strtoul(
                    vstd::utf8::encode_utf8(spec_trim_start(text)),
                    spec_strtoul_max(bytes),
                );
                if bytes == 1 {
                    lemma_one_byte_order_free(v);
                } else {
                    lemma_swap_single_chunk(v, bytes as nat);
                }
            },
            BuiltinSerializerKind::I16 => {
                let v = spec_signed_text(text, -(pow256(2) / 2), pow256(2) / 2 - 1)->0;
                lemma_swap_single_chunk(spec_twos(v as int, 2), 2);
            },
            BuiltinSerializerKind::I32 => {
                let v = spec_signed_text(text, -(pow256(4) / 2), pow256(4) / 2 - 1)->0;
                lemma_swap_single_chunk(spec_twos(v as int, 4), 4);
            },
            BuiltinSerializerKind::Long => {
                let w: nat = if d.native_abi is Llp64 { 4 } else { 8 };
                let v = spec_signed_text(text, -(pow256(w) / 2), pow256(w) / 2 - 1)->0;
                lemma_swap_single_chunk(spec_twos(v as int, w), w);
            },
            BuiltinSerializerKind::I64 => {
                let v = spec_signed_text(text, -(pow256(8) / 2), pow256(8) / 2 - 1)->0;
                lemma_swap_single_chunk(spec_twos(v as int, 8), 8);
            },
            BuiltinSerializerKind::U16 => {
                let v = spec_unsigned_text(text, pow256(2) - 1)->0;
                lemma_swap_single_chunk(v as nat, 2);
            },
            BuiltinSerializerKind::U32 => {
                let v = spec_unsigned_text(text, pow256(4) - 1)->0;
                lemma_swap_single_chunk(v as nat, 4);
            },
            BuiltinSerializerKind::UnsignedLong => {
                let w: nat = if d.native_abi is Llp64 { 4 } else { 8 };
                let v = spec_unsigned_text(text, pow256(w) - 1)->0;
                lemma_swap_single_chunk(v as nat, w);
            },
            BuiltinSerializerKind::U64 => {
                let v = spec_unsigned_text(text, pow256(8) - 1)->0;
                lemma_swap_single_chunk(v as nat, 8);
            },
            _ => {},
        }
    }
}

/// Reversing every chunk twice gives back the original bytes.
pub proof fn lemma_swap_chunks_involution(s: Seq<u8>, width: nat)
    requires
        width > 0,
        s.len() % width == 0,
    ensures
        spec_swap_chunks(spec_swap_chunks(s, width), width) == s,
{
    let once = spec_swap_chunks(s, width);
    let n = s.len() as int;
    let w = width as int;
    vstd::arithmetic::div_mod::lemma_fundamental_div_mod(n, w);
    assert forall|i: int| 0 <= i < n implies #[trigger] spec_swap_chunks(once, width)[i] == s[i] by {
        let q = i / w;
        let m = i % w;
        vstd::arithmetic::div_mod::lemma_fundamental_div_mod(i, w);
        vstd::arithmetic::div_mod::lemma_mod_bound(i, w);
        let j = q * w + (w - 1 - m);
        vstd::arithmetic::div_mod::lemma_fundamental_div_mod_converse(j, w, q, w - 1 - m);
        let k = n / w;
        assert(0 <= j < n) by (nonlinear_arith)
            requires
                j == q * w + (w - 1 - m),
                i == w * q + m,
                0 <= m < w,
                0 <= i < n,
                n == w * k,
                w > 0,
        {
            assert(q < k) by (nonlinear_arith)
                requires i == w * q + m, 0 <= m < w, i < n, n == w * k, w > 0;
            assert(q + 1 <= k);
            assert(w * (q + 1) <= w * k) by (nonlinear_arith)
                requires q + 1 <= k, w > 0;
            assert(q >= 0) by (nonlinear_arith)
                requires i == w * q + m, 0 <= m < w, 0 <= i, w > 0;
        }
        assert(j / w == q && j % w == w - 1 - m);
        assert(q * w == w * q) by (nonlinear_arith);
        assert(spec_swap_chunks(once, width)[i] == once[(i / w) * w + (w - 1 - i % w)]);
        assert((i / w) * w + (w - 1 - i % w) == j);
        assert(once[j] == s[(j / w) * w + (w - 1 - j % w)]);
        assert((j / w) * w + (w - 1 - j % w) == i);
    }
    assert(spec_swap_chunks(once, width) =~= s);
}

// === asset serializer text ===

/// Native bytes of a big-endian asset payload.
pub open spec fn spec_native_asset(bytes: Seq<u8>, version: u32, endian: NativeEndian) -> Seq<u8> {
    if endian is Big {
        bytes
    } else {
        spec_asset_swap(bytes, version)
    }
}

/// What the asset serializer's text load gives: parse, save at the current
/// generation, then lay out in native byte order.
pub open spec fn spec_asset_text_load(
    r: Result<EncodedPayload, ValueCodecError>,
    d: BuiltinSerializerDescriptor,
    text: Seq<char>,
    element_version: u32,
) -> bool {
    let parsed = spec_asset_from_text(vstd::utf8::encode_utf8(text), element_version);
    &&& (parsed is None ==> (r matches Err(ValueCodecError::Asset(m)) && m@ == spec_asset_error_message(
        AssetValueError::InvalidText,
    )))
    &&& (parsed is Some && d.current_version > 2 ==> (r matches Err(ValueCodecError::Asset(m)) && m@
        == spec_asset_error_message(AssetValueError::UnsupportedVersion(d.current_version))))
    &&& (parsed is Some && d.current_version <= 2 ==> (r matches Ok(p) && p.encoding is BinaryNativeEndian
        && p.bytes@ == spec_native_asset(
        spec_asset_save_fields(parsed->0, d.current_version),
        d.current_version,
        d.native_endian,
    )))
}

/// What the asset serializer's text form of a payload is: load with the
/// element's version in the payload's byte order, then write text with the
/// current generation.
pub open spec fn spec_asset_data_text(
    r: Result<String, ValueCodecError>,
    d: BuiltinSerializerDescriptor,
    data: Seq<u8>,
    payload_encoding: PayloadEncoding,
    element_version: u32,
) -> bool {
    let endian = if payload_encoding is BinaryBigEndian {
        NativeEndian::Big
    } else {
        d.native_endian
    };
    &&& (!spec_asset_loadable(data, element_version, endian) ==> (r matches Err(ValueCodecError::Asset(m)) && m@
        == spec_load_failure_message(data, element_version, endian)))
    &&& (spec_asset_loadable(data, element_version, endian) && d.current_version > 2 ==> (r matches Err(
        ValueCodecError::Asset(m),
    ) && m@ == spec_asset_error_message(AssetValueError::UnsupportedVersion(d.current_version))))
    &&& (spec_asset_loadable(data, element_version, endian) && d.current_version <= 2 ==> (r matches Ok(t) && t@
        == spec_asset_text(spec_loaded_fields(data, element_version, endian), d.current_version)))
}

impl BuiltinValueCodec {
    fn asset_text_to_native(&self, text: &str, element_version: u32) -> (r: Result<Vec<u8>, ValueCodecError>)
        requires
            self.descriptor().kind is Asset,
        ensures
            spec_asset_text_load(
                match r {
                    Ok(v) => Ok(EncodedPayload { bytes: v, encoding: PayloadEncoding::BinaryNativeEndian }),
                    Err(e) => Err(e),
                },
                self.descriptor(),
                text@,
                element_version,
            ),
    {
        let layout = match AssetValueLayout::from_text(text, element_version) {
            Ok(layout) => layout,
            Err(error) => {
                return Err(ValueCodecError::Asset(error.message()));
            },
        };
        let version = self.descriptor.current_version;
        let bytes = match layout.to_big_endian_bytes(version) {
            Ok(bytes) => bytes,
            Err(error) => {
                return Err(ValueCodecError::Asset(error.message()));
            },
        };
        proof {
            lemma_asset_save_len(layout.spec_fields(), version);
        }
        asset_big_to_native(bytes, version, self.descriptor.native_endian)
    }
}

/// The builtin serializer a table of AZ builtin type UUIDs gives `id`
/// (its first entry for `id`).
pub open spec fn spec_builtin_lookup(table: Seq<(AzUuid, BuiltinSerializerKind)>, id: AzUuid) -> Option<
    BuiltinSerializerKind,
>
    decreases table.len(),
{
    if table.len() == 0 {
        None
    } else if table[0].0 == id {
        Some(table[0].1)
    } else {
        spec_builtin_lookup(table.drop_first(), id)
    }
}

/// Look `id` up in a table of AZ builtin type UUIDs.
pub fn builtin_kind_of(table: &[(AzUuid, BuiltinSerializerKind)], id: AzUuid) -> (r: Option<BuiltinSerializerKind>)
    ensures
        r == spec_builtin_lookup(table@, id),
{
    let mut i: usize = 0;
    assert(table@.subrange(0, table@.len() as int) =~= table@);
    while i < table.len()
        invariant
            i <= table@.len(),
            spec_builtin_lookup(table@.subrange(i as int, table@.len() as int), id) == spec_builtin_lookup(table@, id),
        decreases table.len() - i,
    {
        let ghost rest = table@.subrange(i as int, table@.len() as int);
        assert(rest.drop_first() =~= table@.subrange(i + 1, table@.len() as int));
        let (t, k) = table[i];
        if t == id {
            return Some(k);
        }
        i = i + 1;
    }
    assert(table@.subrange(i as int, table@.len() as int) =~= Seq::<(AzUuid, BuiltinSerializerKind)>::empty());
    None
}

} // verus!
