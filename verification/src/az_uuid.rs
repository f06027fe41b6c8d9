//! AZ type identity: a 128-bit UUID held as a plain integer, with its
//! canonical big-endian byte layout and text forms.
use vstd::prelude::*;
use vstd::arithmetic::power::pow;

use crate::bytes::{lemma_bytes_roundtrip, lemma_pow256_values, spec_be_bytes, spec_be_nat};

verus! {

/// A 128-bit AZ type UUID.  Its bytes are the big-endian layout of `bits`,
/// which is the order the `ObjectStream` wire format stores.
#[derive(Clone, Copy, Debug, PartialEq, Eq, Hash, Structural)]
pub struct AzUuid {
    pub bits: u128,
}

/// An ASCII hexadecimal digit of either case.
pub open spec fn spec_is_ascii_hex(b: u8) -> bool {
    (48 <= b <= 57) || (97 <= b <= 102) || (65 <= b <= 70)
}

pub open spec fn spec_ascii_hex_value(b: u8) -> nat {
    if 48 <= b <= 57 {
        (b - 48) as nat
    } else if 97 <= b <= 102 {
        (b - 87) as nat
    } else {
        (b - 55) as nat
    }
}

/// Value of a run of ASCII hexadecimal digits, most significant first.
pub open spec fn spec_ascii_hex_run(digits: Seq<u8>) -> nat
    decreases digits.len(),
{
    if digits.len() == 0 {
        0
    } else {
        spec_ascii_hex_run(digits.subrange(0, digits.len() - 1)) * 16 + spec_ascii_hex_value(digits[digits.len() - 1])
    }
}

/// Thirty-two hexadecimal digits as a 128-bit value.
pub open spec fn spec_uuid_hex32(h: Seq<u8>) -> Option<u128> {
    if h.len() == 32 && (forall|i: int| 0 <= i < 32 ==> spec_is_ascii_hex(#[trigger] h[i])) {
        Some(spec_ascii_hex_run(h) as u128)
    } else {
        None
    }
}

/// The hyphenated form `xxxxxxxx-xxxx-xxxx-xxxx-xxxxxxxxxxxx`.
pub open spec fn spec_uuid_parse_hyphenated(s: Seq<u8>) -> Option<u128> {
    if s.len() == 36 && s[8] == 45 && s[13] == 45 && s[18] == 45 && s[23] == 45 {
        spec_uuid_hex32(
            s.subrange(0, 8) + s.subrange(9, 13) + s.subrange(14, 18) + s.subrange(19, 23) + s.subrange(24, 36),
        )
    } else {
        None
    }
}

/// `uuid::Uuid::try_parse_ascii` (the parser behind `Uuid::parse_str`):
/// thirty-two hexadecimal digits, the hyphenated form, the hyphenated form
/// in braces, or the hyphenated form after a case-insensitive `urn:uuid:`.
pub open spec fn spec_uuid_parse(text: Seq<u8>) -> Option<u128> {
    if text.len() == 32 {
        spec_uuid_hex32(text)
    } else if text.len() == 36 {
        spec_uuid_parse_hyphenated(text)
    } else if text.len() == 38 {
        if text[0] == 123 && text[37] == 125 {
            spec_uuid_parse_hyphenated(text.subrange(1, 37))
        } else {
            None
        }
    } else if text.len() == 45 {
        if crate::crc::spec_ascii_lower_bytes(text.subrange(0, 9)) == seq![117u8, 114, 110, 58, 117, 117, 105, 100, 58] {
            spec_uuid_parse_hyphenated(text.subrange(9, 45))
        } else {
            None
        }
    } else {
        None
    }
}

/// Hexadecimal digit `j` (most significant first) of a 128-bit value.
pub open spec fn spec_uuid_nibble(bits: u128, j: int) -> nat {
    ((bits as nat) / (vstd::arithmetic::power::pow(16, (31 - j) as nat) as nat)) % 16
}

/// Position among the thirty-two digits of character `k` of the
/// hyphenated form.
pub open spec fn spec_uuid_digit_index(k: int) -> int {
    if k < 8 {
        k
    } else if k < 13 {
        k - 1
    } else if k < 18 {
        k - 2
    } else if k < 23 {
        k - 3
    } else {
        k - 4
    }
}

pub open spec fn spec_uuid_is_hyphen(k: int) -> bool {
    k == 8 || k == 13 || k == 18 || k == 23
}

/// The braced uppercase rendering `{XXXXXXXX-XXXX-XXXX-XXXX-XXXXXXXXXXXX}`
/// that `uuid::fmt::Braced`'s `UpperHex` produces.
pub open spec fn spec_uuid_braced_upper(bits: u128) -> Seq<char> {
    seq!['{'] + Seq::new(
        36,
        |k: int|
            if spec_uuid_is_hyphen(k) {
                '-'
            } else {
                crate::text::spec_upper_hex_char(spec_uuid_nibble(bits, spec_uuid_digit_index(k)))
            },
    ) + seq!['}']
}

impl AzUuid {
    pub open spec fn spec_bytes(self) -> Seq<u8> {
        spec_be_bytes(self.bits as nat, 16)
    }

    pub fn from_u128(bits: u128) -> (r: Self)
        ensures
            r.bits == bits,
    {
        AzUuid { bits }
    }

    pub fn nil() -> (r: Self)
        ensures
            r.bits == 0,
    {
        AzUuid { bits: 0 }
    }

    pub fn as_u128(&self) -> (r: u128)
        ensures
            r == self.bits,
    {
        self.bits
    }

    pub fn is_nil(&self) -> (r: bool)
        ensures
            r == (self.bits == 0),
    {
        self.bits == 0
    }

    /// The UUID whose big-endian bytes are `data[start..start + 16]`.
    pub fn from_slice(data: &[u8], start: usize) -> (r: Self)
        requires
            start + 16 <= data@.len(),
        ensures
            r.bits as nat == spec_be_nat(data@.subrange(start as int, start + 16)),
            r.spec_bytes() == data@.subrange(start as int, start + 16),
    {
        let n = data.len();
        let mut acc: u128 = 0;
        let mut i: usize = 0;
        while i < 16
            invariant
                n == data@.len(),
                i <= 16,
                start + 16 <= data@.len(),
                acc as nat == spec_be_nat(data@.subrange(start as int, start + i)),
            decreases 16 - i,
        {
            let ghost prefix = data@.subrange(start as int, start + i);
            let ghost next = data@.subrange(start as int, start + i + 1);
            proof {
                assert(next.drop_last() =~= prefix);
                crate::bytes::lemma_be_nat_bound(prefix);
                lemma_pow256_values();
                crate::bytes::lemma_pow256_monotone(i as nat, 15);
                assert(crate::bytes::pow256(16) == 256 * crate::bytes::pow256(15));
                assert(acc * 256 + 255 < 0x1_0000_0000_0000_0000_0000_0000_0000_0000) by (nonlinear_arith)
                    requires
                        acc < crate::bytes::pow256(15),
                        256 * crate::bytes::pow256(15) == 0x1_0000_0000_0000_0000_0000_0000_0000_0000,
                ;
            }
            acc = acc * 256 + data[start + i] as u128;
            i = i + 1;
        }
        proof {
            lemma_bytes_roundtrip(data@.subrange(start as int, start + 16));
        }
        AzUuid { bits: acc }
    }

    /// The sixteen big-endian bytes of this UUID.
    pub fn to_bytes(&self) -> (r: Vec<u8>)
        ensures
            r@ == self.spec_bytes(),
    {
        let mut out: Vec<u8> = Vec::new();
        let mut i: usize = 0;
        let mut v: u128 = self.bits;
        // Build least-significant first, then reverse into place.
        let mut rev: Vec<u8> = Vec::new();
        proof {
            lemma_pow256_values();
        }
        while i < 16
            invariant
                i <= 16,
                rev@.len() == i,
                v as nat == (self.bits as nat) / crate::bytes::pow256(i as nat),
                spec_be_bytes(self.bits as nat, 16) == spec_be_bytes(v as nat, (16 - i) as nat) + rev@.reverse(),
            decreases 16 - i,
        {
            proof {
                let w = (16 - i - 1) as nat;
                assert(spec_be_bytes(v as nat, (w + 1) as nat) == spec_be_bytes(v as nat / 256, w).push((v as nat % 256) as u8));
                let pushed = rev@.push((v % 256) as u8);
                assert(pushed.reverse() =~= seq![(v % 256) as u8] + rev@.reverse());
                assert(spec_be_bytes(v as nat / 256, w).push((v as nat % 256) as u8) + rev@.reverse()
                    =~= spec_be_bytes(v as nat / 256, w) + pushed.reverse());
                crate::bytes::lemma_pow256_positive(i as nat);
                vstd::arithmetic::div_mod::lemma_div_denominator(self.bits as int, crate::bytes::pow256(i as nat) as int, 256);
                assert(crate::bytes::pow256((i + 1) as nat) == 256 * crate::bytes::pow256(i as nat));
                assert(crate::bytes::pow256(i as nat) * 256 == 256 * crate::bytes::pow256(i as nat)) by (nonlinear_arith);
            }
            rev.push((v % 256) as u8);
            v = v / 256;
            i = i + 1;
        }
        let mut j: usize = 16;
        while j > 0
            invariant
                j <= 16,
                rev@.len() == 16,
                out@ =~= rev@.subrange(j as int, 16).reverse(),
            decreases j,
        {
            out.push(rev[j - 1]);
            j = j - 1;
        }
        assert(rev@.subrange(0, 16) =~= rev@);
        assert(spec_be_bytes(v as nat, 0) =~= Seq::<u8>::empty());
        assert(spec_be_bytes(self.bits as nat, 16) =~= rev@.reverse());
        out
    }
}

/// Parse a UUID from ASCII text with `uuid::Uuid::try_parse_ascii`.
#[verifier::external_body]
pub(crate) fn parse_uuid_ascii(text: &[u8]) -> (r: Option<AzUuid>)
    ensures
        r matches Some(u) ==> spec_uuid_parse(text@) == Some(u.bits),
        r is None ==> spec_uuid_parse(text@) is None,
{
    match uuid::Uuid::try_parse_ascii(text) {
        Ok(parsed) => Some(AzUuid { bits: parsed.as_u128() }),
        Err(_) => None,
    }
}

/// Parse a UUID from text (`uuid::Uuid::parse_str` reads the text's bytes).
pub fn parse_uuid_str(text: &str) -> (r: Option<AzUuid>)
    ensures
        r matches Some(u) ==> spec_uuid_parse(vstd::utf8::encode_utf8(text@)) == Some(u.bits),
        r is None ==> spec_uuid_parse(vstd::utf8::encode_utf8(text@)) is None,
{
    parse_uuid_ascii(text.as_bytes())
}

/// Render `{XXXXXXXX-XXXX-XXXX-XXXX-XXXXXXXXXXXX}` with the `uuid` crate's
/// uppercase braced formatter.
#[verifier::external_body]
pub(crate) fn uuid_braced_upper(id: AzUuid) -> (r: String)
    ensures
        r@ == spec_uuid_braced_upper(id.bits),
{
    format!("{:X}", uuid::Uuid::from_u128(id.bits).braced())
}

/// The lowercase hyphenated `Display` rendering of a `uuid::Uuid`.
pub open spec fn spec_uuid_hyphenated(bits: u128) -> Seq<char> {
    Seq::new(
        36,
        |k: int|
            if spec_uuid_is_hyphen(k) {
                '-'
            } else {
                crate::text::spec_lower_hex_char(spec_uuid_nibble(bits, spec_uuid_digit_index(k)))
            },
    )
}

/// Render `xxxxxxxx-xxxx-xxxx-xxxx-xxxxxxxxxxxx` with the `uuid` crate's
/// `Display`.
#[verifier::external_body]
pub(crate) fn uuid_hyphenated(id: AzUuid) -> (r: String)
    ensures
        r@ == spec_uuid_hyphenated(id.bits),
{
    uuid::Uuid::from_u128(id.bits).to_string()
}

/// The thirty-two uppercase hexadecimal digit bytes of `bits`, most
/// significant first.
pub open spec fn spec_uuid_digit_bytes(bits: u128) -> Seq<u8> {
    Seq::new(32, |j: int| crate::text::spec_upper_hex_char(spec_uuid_nibble(bits, j)) as u8)
}

proof fn lemma_nibble_byte(bits: u128, j: int)
    ensures
        spec_is_ascii_hex(spec_uuid_digit_bytes(bits)[j]) || !(0 <= j < 32),
        0 <= j < 32 ==> spec_ascii_hex_value(spec_uuid_digit_bytes(bits)[j]) == spec_uuid_nibble(bits, j),
{
    if 0 <= j < 32 {
        let p = pow(16, (31 - j) as nat);
        vstd::arithmetic::power::lemma_pow_positive(16, (31 - j) as nat);
        let d = spec_uuid_nibble(bits, j);
        assert(d < 16) by {
            vstd::arithmetic::div_mod::lemma_mod_bound(((bits as nat) / (p as nat)) as int, 16);
        }
    }
}

/// The first `k` digits read as the value's top `4k` bits.
proof fn lemma_nibble_prefix_run(bits: u128, k: nat)
    requires
        k <= 32,
    ensures
        spec_ascii_hex_run(spec_uuid_digit_bytes(bits).subrange(0, k as int)) == (bits as nat) / (pow(16, (32 - k) as nat) as nat),
    decreases k,
{
    let h = spec_uuid_digit_bytes(bits);
    if k == 0 {
        assert(pow(16, 32) == 0x1_0000_0000_0000_0000_0000_0000_0000_0000) by {
            reveal_with_fuel(pow, 33);
        }
        assert(h.subrange(0, 0) =~= Seq::<u8>::empty());
        vstd::arithmetic::div_mod::lemma_basic_div(bits as int, pow(16, 32));
    } else {
        let k1 = (k - 1) as nat;
        lemma_nibble_prefix_run(bits, k1);
        let s = h.subrange(0, k as int);
        assert(s.subrange(0, s.len() - 1) =~= h.subrange(0, k1 as int));
        lemma_nibble_byte(bits, k1 as int);
        let e = (32 - k) as nat;
        let p = pow(16, e);
        vstd::arithmetic::power::lemma_pow_positive(16, e);
        assert(pow(16, (32 - k1) as nat) == 16 * p) by {
            vstd::arithmetic::power::lemma_pow_adds(16, 1, e);
            vstd::arithmetic::power::lemma_pow1(16);
        }
        let q = (bits as nat) / (p as nat);
        assert(spec_uuid_nibble(bits, k1 as int) == q % 16);
        vstd::arithmetic::div_mod::lemma_div_denominator(bits as int, p as int, 16);
        vstd::arithmetic::div_mod::lemma_fundamental_div_mod(q as int, 16);
        assert((bits as nat) / ((16 * p) as nat) == q / 16) by {
            assert((p * 16) == (16 * p)) by (nonlinear_arith);
        }
    }
}

/// Thirty-two digits written for `bits` read back as `bits`.
pub proof fn lemma_uuid_digit_bytes_parse(bits: u128)
    ensures
        spec_uuid_hex32(spec_uuid_digit_bytes(bits)) == Some(bits),
{
    let h = spec_uuid_digit_bytes(bits);
    assert forall|i: int| 0 <= i < 32 implies spec_is_ascii_hex(#[trigger] h[i]) by {
        lemma_nibble_byte(bits, i);
    }
    lemma_nibble_prefix_run(bits, 32);
    assert(h.subrange(0, 32) =~= h);
    vstd::arithmetic::power::lemma_pow0(16);
    vstd::arithmetic::div_mod::lemma_div_basics(bits as int);
    assert(spec_ascii_hex_run(h) == bits as nat);
}

/// The characters of a braced uppercase UUID rendering.
pub proof fn lemma_braced_upper_chars(bits: u128)
    ensures
        spec_uuid_braced_upper(bits).len() == 38,
        spec_uuid_braced_upper(bits)[0] == '{',
        spec_uuid_braced_upper(bits)[37] == '}',
        forall|i: int| 1 <= i < 37 ==> (#[trigger] spec_uuid_braced_upper(bits)[i] == '-' || '0'
            <= spec_uuid_braced_upper(bits)[i] <= '9' || 'A' <= spec_uuid_braced_upper(bits)[i] <= 'F'),
{
    let g = spec_uuid_braced_upper(bits);
    assert forall|i: int| 1 <= i < 37 implies (#[trigger] g[i] == '-' || '0' <= g[i] <= '9' || 'A' <= g[i] <= 'F') by {
        if !spec_uuid_is_hyphen(i - 1) {
            let d = spec_uuid_nibble(bits, spec_uuid_digit_index(i - 1));
            assert(d < 16);
        }
    }
}

} // verus!
