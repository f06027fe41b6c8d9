//! `AZ::Crc32` field-name hashing: the reflected IEEE CRC-32 over a name's
//! UTF-8 bytes after ASCII uppercase letters are folded to lowercase.
use vstd::prelude::*;

verus! {

/// Reflected IEEE CRC-32 polynomial.
pub const CRC32_POLYNOMIAL: u32 = 0xEDB8_8320;

/// One bit step of the reflected CRC-32 shift register.
pub open spec fn spec_crc_bit(c: u32) -> u32 {
    if c & 1 == 1 {
        (c >> 1u32) ^ CRC32_POLYNOMIAL
    } else {
        c >> 1u32
    }
}

/// Fold one byte into the CRC-32 shift register (eight bit steps).
pub open spec fn spec_crc_byte(c: u32, b: u8) -> u32 {
    let x = c ^ (b as u32);
    spec_crc_bit(
        spec_crc_bit(
            spec_crc_bit(spec_crc_bit(spec_crc_bit(spec_crc_bit(spec_crc_bit(spec_crc_bit(x))))))),
    )
}

/// Shift-register state after folding `bytes` from the all-ones seed.
pub open spec fn spec_crc_register(bytes: Seq<u8>) -> u32
    decreases bytes.len(),
{
    if bytes.len() == 0 {
        0xFFFF_FFFFu32
    } else {
        spec_crc_byte(spec_crc_register(bytes.drop_last()), bytes.last())
    }
}

/// Standard CRC-32 (IEEE, reflected, all-ones seed and final inversion).
pub open spec fn spec_crc32(bytes: Seq<u8>) -> u32 {
    spec_crc_register(bytes) ^ 0xFFFF_FFFFu32
}

/// ASCII uppercase letters fold to lowercase; every other byte is kept.
pub open spec fn spec_ascii_lower(b: u8) -> u8 {
    if 65 <= b && b <= 90 {
        (b + 32) as u8
    } else {
        b
    }
}

pub open spec fn spec_ascii_lower_bytes(bytes: Seq<u8>) -> Seq<u8> {
    bytes.map_values(|b: u8| spec_ascii_lower(b))
}

/// `AZ::Crc32` of a field name: CRC-32 over the UTF-8 bytes after folding
/// ASCII uppercase letters to lowercase.
pub open spec fn spec_field_name_crc(name: Seq<char>) -> u32 {
    spec_crc32(spec_ascii_lower_bytes(vstd::utf8::encode_utf8(name)))
}

fn crc_bit(c: u32) -> (r: u32)
    ensures
        r == spec_crc_bit(c),
{
    if c & 1 == 1 {
        (c >> 1u32) ^ CRC32_POLYNOMIAL
    } else {
        c >> 1u32
    }
}

fn crc_byte(c: u32, b: u8) -> (r: u32)
    ensures
        r == spec_crc_byte(c, b),
{
    let x = c ^ (b as u32);
    crc_bit(crc_bit(crc_bit(crc_bit(crc_bit(crc_bit(crc_bit(crc_bit(x))))))))
}

fn ascii_lower(b: u8) -> (r: u8)
    ensures
        r == spec_ascii_lower(b),
{
    if 65 <= b && b <= 90 {
        b + 32
    } else {
        b
    }
}

/// CRC-32 of `bytes` after ASCII lowercase folding.
pub fn crc32_lower(bytes: &[u8]) -> (r: u32)
    ensures
        r == spec_crc32(spec_ascii_lower_bytes(bytes@)),
{
    let mut register: u32 = 0xFFFF_FFFF;
    let mut i: usize = 0;
    while i < bytes.len()
        invariant
            i <= bytes.len(),
            register == spec_crc_register(spec_ascii_lower_bytes(bytes@.subrange(0, i as int))),
        decreases bytes.len() - i,
    {
        let ghost prefix = spec_ascii_lower_bytes(bytes@.subrange(0, i as int));
        let ghost next = spec_ascii_lower_bytes(bytes@.subrange(0, i + 1));
        assert(next.drop_last() =~= prefix);
        register = crc_byte(register, ascii_lower(bytes[i]));
        i = i + 1;
    }
    assert(bytes@.subrange(0, bytes.len() as int) =~= bytes@);
    register ^ 0xFFFF_FFFF
}

/// Canonical AZ field-name CRC: `AZ::Crc32` folds ASCII uppercase before
/// applying CRC-32, and `ClassElement` lookup uses the same hash for
/// reflected and textual field names.
pub fn field_name_crc(name: &str) -> (r: u32)
    ensures
        r == spec_field_name_crc(name@),
{
    crc32_lower(name.as_bytes())
}

/// A character with an ASCII uppercase letter folded to lowercase.
pub open spec fn spec_char_ascii_lower(c: char) -> char {
    if 'A' <= c <= 'Z' {
        ((c as u32) + 32) as char
    } else {
        c
    }
}

/// Folding ASCII case on each byte of `x + y` folds `x` and `y` in turn.
proof fn lemma_lower_bytes_concat(x: Seq<u8>, y: Seq<u8>)
    ensures
        spec_ascii_lower_bytes(x + y) == spec_ascii_lower_bytes(x) + spec_ascii_lower_bytes(y),
{
    assert(spec_ascii_lower_bytes(x + y) =~= spec_ascii_lower_bytes(x) + spec_ascii_lower_bytes(y));
}

/// Names that differ only in the case of ASCII letters fold to the same bytes.
proof fn lemma_lower_bytes_ignore_case(a: Seq<char>, b: Seq<char>)
    requires
        a.len() == b.len(),
        forall|i: int| 0 <= i < a.len() ==> spec_char_ascii_lower(#[trigger] a[i]) == spec_char_ascii_lower(b[i]),
    ensures
        spec_ascii_lower_bytes(vstd::utf8::encode_utf8(a)) == spec_ascii_lower_bytes(vstd::utf8::encode_utf8(b)),
    decreases a.len(),
{
    if a.len() > 0 {
        let (ra, rb) = (a.drop_first(), b.drop_first());
        assert forall|i: int| 0 <= i < ra.len() implies spec_char_ascii_lower(#[trigger] ra[i])
            == spec_char_ascii_lower(rb[i]) by {
            assert(ra[i] == a[i + 1] && rb[i] == b[i + 1]);
        }
        lemma_lower_bytes_ignore_case(ra, rb);
        let (ca, cb) = (a[0], b[0]);
        assert(spec_char_ascii_lower(ca) == spec_char_ascii_lower(cb));
        let (ha, hb) = (vstd::utf8::encode_scalar(ca as u32), vstd::utf8::encode_scalar(cb as u32));
        if ca != cb {
            // Both are ASCII letters, one byte each, folding to the same byte.
            assert('A' <= ca <= 'Z' || 'A' <= cb <= 'Z') by {
                if !('A' <= ca <= 'Z') && !('A' <= cb <= 'Z') {
                    assert(spec_char_ascii_lower(ca) == ca);
                    assert(spec_char_ascii_lower(cb) == cb);
                }
            }
            let (ua, ub) = (ca as u32, cb as u32);
            assert(ua < 128 && ub < 128);
            assert(((ua & 0x7F) as u8) as u32 == ua && ((ub & 0x7F) as u8) as u32 == ub) by (bit_vector)
                requires
                    ua < 128,
                    ub < 128,
            ;
            assert(spec_ascii_lower_bytes(ha) =~= spec_ascii_lower_bytes(hb)) by {
                assert(ha[0] as u32 == ua && hb[0] as u32 == ub);
            }
        }
        lemma_lower_bytes_concat(ha, vstd::utf8::encode_utf8(ra));
        lemma_lower_bytes_concat(hb, vstd::utf8::encode_utf8(rb));
    }
}

/// Field-name CRCs ignore the case of ASCII letters: names that agree once
/// ASCII uppercase letters are folded to lowercase hash alike.
pub proof fn lemma_field_name_crc_ignores_ascii_case(a: Seq<char>, b: Seq<char>)
    requires
        a.len() == b.len(),
        forall|i: int| 0 <= i < a.len() ==> spec_char_ascii_lower(#[trigger] a[i]) == spec_char_ascii_lower(b[i]),
    ensures
        spec_field_name_crc(a) == spec_field_name_crc(b),
{
    lemma_lower_bytes_ignore_case(a, b);
}

} // verus!
