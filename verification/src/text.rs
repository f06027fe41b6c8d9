//! Text primitives the serializers take from `std`, `hex` and the UTF-8
//! rules: each is one call whose result is stated here.
use vstd::prelude::*;

verus! {

/// `char::is_whitespace`: the Unicode `White_Space` characters.
pub open spec fn spec_is_whitespace(c: char) -> bool {
    let u = c as u32;
    ||| 0x09 <= u <= 0x0D
    ||| u == 0x20 || u == 0x85 || u == 0xA0 || u == 0x1680
    ||| 0x2000 <= u <= 0x200A
    ||| u == 0x2028 || u == 0x2029 || u == 0x202F || u == 0x205F || u == 0x3000
}

/// `str::trim_start`: `text` without leading whitespace.
pub open spec fn spec_trim_start(text: Seq<char>) -> Seq<char>
    decreases text.len(),
{
    if text.len() > 0 && spec_is_whitespace(text[0]) {
        spec_trim_start(text.subrange(1, text.len() as int))
    } else {
        text
    }
}

/// `str::trim_end`: `text` without trailing whitespace.
pub open spec fn spec_trim_end(text: Seq<char>) -> Seq<char>
    decreases text.len(),
{
    if text.len() > 0 && spec_is_whitespace(text[text.len() - 1]) {
        spec_trim_end(text.subrange(0, text.len() - 1))
    } else {
        text
    }
}

/// `str::trim`: `text` without leading and trailing whitespace.
pub open spec fn spec_trim(text: Seq<char>) -> Seq<char> {
    spec_trim_end(spec_trim_start(text))
}

/// Value of an ASCII decimal digit.
pub open spec fn spec_dec_value(c: char) -> nat {
    (c as u32 - 48) as nat
}

pub open spec fn spec_is_dec_digit(c: char) -> bool {
    '0' <= c <= '9'
}

/// Value of an ASCII hexadecimal digit of either case.
pub open spec fn spec_hex_value(c: char) -> nat {
    if '0' <= c <= '9' {
        (c as u32 - 48) as nat
    } else if 'a' <= c <= 'f' {
        (c as u32 - 87) as nat
    } else {
        (c as u32 - 55) as nat
    }
}

pub open spec fn spec_is_hex_digit(c: char) -> bool {
    '0' <= c <= '9' || 'a' <= c <= 'f' || 'A' <= c <= 'F'
}

/// Value of a run of decimal digits.
pub open spec fn spec_dec_run(digits: Seq<char>) -> nat
    decreases digits.len(),
{
    if digits.len() == 0 {
        0
    } else {
        spec_dec_run(digits.subrange(0, digits.len() - 1)) * 10 + spec_dec_value(digits[digits.len() - 1])
    }
}

/// Value of a run of hexadecimal digits.
pub open spec fn spec_hex_run(digits: Seq<char>) -> nat
    decreases digits.len(),
{
    if digits.len() == 0 {
        0
    } else {
        spec_hex_run(digits.subrange(0, digits.len() - 1)) * 16 + spec_hex_value(digits[digits.len() - 1])
    }
}

/// `text` without one leading `+`.
pub open spec fn spec_unsigned_digits(text: Seq<char>) -> Seq<char> {
    if text.len() > 0 && text[0] == '+' {
        text.subrange(1, text.len() as int)
    } else {
        text
    }
}

/// `<u64 as FromStr>::from_str`: an optional `+` and one or more decimal
/// digits whose value fits.
pub open spec fn spec_parse_u64(text: Seq<char>) -> Option<u64> {
    let digits = spec_unsigned_digits(text);
    if digits.len() > 0 && (forall|i: int| 0 <= i < digits.len() ==> spec_is_dec_digit(#[trigger] digits[i]))
        && spec_dec_run(digits) <= u64::MAX {
        Some(spec_dec_run(digits) as u64)
    } else {
        None
    }
}

/// `<i64 as FromStr>::from_str`: an optional sign and one or more decimal
/// digits whose signed value fits.
pub open spec fn spec_parse_i64(text: Seq<char>) -> Option<i64> {
    let negative = text.len() > 0 && text[0] == '-';
    let digits = if negative {
        text.subrange(1, text.len() as int)
    } else {
        spec_unsigned_digits(text)
    };
    let magnitude = spec_dec_run(digits);
    let value: int = if negative {
        -magnitude
    } else {
        magnitude as int
    };
    if digits.len() > 0 && (forall|i: int| 0 <= i < digits.len() ==> spec_is_dec_digit(#[trigger] digits[i]))
        && i64::MIN <= value <= i64::MAX {
        Some(value as i64)
    } else {
        None
    }
}

/// `u32::from_str_radix(text, 16)`: an optional `+` and one or more
/// hexadecimal digits whose value fits.
pub open spec fn spec_parse_hex_u32(text: Seq<char>) -> Option<u32> {
    let digits = spec_unsigned_digits(text);
    if digits.len() > 0 && (forall|i: int| 0 <= i < digits.len() ==> spec_is_hex_digit(#[trigger] digits[i]))
        && spec_hex_run(digits) <= u32::MAX {
        Some(spec_hex_run(digits) as u32)
    } else {
        None
    }
}

/// The ASCII decimal digit of `d < 10`.
pub open spec fn spec_dec_char(d: nat) -> char {
    (48 + d) as char
}

/// The uppercase ASCII hexadecimal digit of `d < 16`.
pub open spec fn spec_upper_hex_char(d: nat) -> char {
    if d < 10 {
        (48 + d) as char
    } else {
        (55 + d) as char
    }
}

/// The lowercase ASCII hexadecimal digit of `d < 16`.
pub open spec fn spec_lower_hex_char(d: nat) -> char {
    if d < 10 {
        (48 + d) as char
    } else {
        (87 + d) as char
    }
}

/// Decimal digits of `v`, most significant first, without leading zeros.
pub open spec fn spec_nat_decimal(v: nat) -> Seq<char>
    decreases v,
{
    if v < 10 {
        seq![spec_dec_char(v)]
    } else {
        spec_nat_decimal(v / 10) + seq![spec_dec_char(v % 10)]
    }
}

/// Uppercase hexadecimal digits of `v`, without leading zeros.
pub open spec fn spec_nat_upper_hex(v: nat) -> Seq<char>
    decreases v,
{
    if v < 16 {
        seq![spec_upper_hex_char(v)]
    } else {
        spec_nat_upper_hex(v / 16) + seq![spec_upper_hex_char(v % 16)]
    }
}

/// The decimal `Display` rendering of an `i64`.
pub open spec fn spec_i64_decimal(v: i64) -> Seq<char> {
    if v < 0 {
        seq!['-'] + spec_nat_decimal((-v) as nat)
    } else {
        spec_nat_decimal(v as nat)
    }
}

/// The decimal `Display` rendering of a `u64`.
pub open spec fn spec_u64_decimal(v: u64) -> Seq<char> {
    spec_nat_decimal(v as nat)
}

/// The uppercase hexadecimal (`{:X}`) rendering of a `u32`.
pub open spec fn spec_u32_upper_hex(v: u32) -> Seq<char> {
    spec_nat_upper_hex(v as nat)
}

/// The uppercase hexadecimal digits of `v` are digits `0`-`9` and `A`-`F`
/// and read back as `v`.
pub proof fn lemma_nat_upper_hex(v: nat)
    ensures
        spec_nat_upper_hex(v).len() > 0,
        forall|i: int| 0 <= i < spec_nat_upper_hex(v).len() ==> ('0' <= #[trigger] spec_nat_upper_hex(v)[i] <= '9'
            || 'A' <= spec_nat_upper_hex(v)[i] <= 'F'),
        spec_hex_run(spec_nat_upper_hex(v)) == v,
    decreases v,
{
    let s = spec_nat_upper_hex(v);
    if v < 16 {
        assert(s.subrange(0, 0) =~= Seq::<char>::empty());
        assert(spec_hex_value(spec_upper_hex_char(v)) == v);
        assert(spec_hex_run(s) == spec_hex_run(s.subrange(0, 0)) * 16 + spec_hex_value(s[0]));
    } else {
        let q = v / 16;
        lemma_nat_upper_hex(q);
        let prev = spec_nat_upper_hex(q);
        assert(s == prev + seq![spec_upper_hex_char(v % 16)]);
        assert(s.subrange(0, s.len() - 1) =~= prev);
        assert(spec_hex_value(spec_upper_hex_char(v % 16)) == v % 16);
        vstd::arithmetic::div_mod::lemma_fundamental_div_mod(v as int, 16);
        assert(s[s.len() - 1] == spec_upper_hex_char(v % 16));
        assert(spec_hex_run(s) == spec_hex_run(prev) * 16 + spec_hex_value(s[s.len() - 1]));
        assert forall|i: int| 0 <= i < s.len() implies ('0' <= #[trigger] s[i] <= '9' || 'A' <= s[i] <= 'F') by {
            if i < prev.len() {
                assert(s[i] == prev[i]);
            }
        }
    }
}

/// `{:X}` text of a `u32` parses back, in base 16, to the same value.
pub proof fn lemma_u32_upper_hex_roundtrip(v: u32)
    ensures
        spec_parse_hex_u32(spec_u32_upper_hex(v)) == Some(v),
{
    let s = spec_u32_upper_hex(v);
    lemma_nat_upper_hex(v as nat);
    assert(spec_unsigned_digits(s) == s);
    assert forall|i: int| 0 <= i < s.len() implies spec_is_hex_digit(#[trigger] s[i]) by {}
}

/// The decimal digits of `v` are ASCII digits and read back as `v`.
pub proof fn lemma_nat_decimal(v: nat)
    ensures
        spec_nat_decimal(v).len() > 0,
        forall|i: int| 0 <= i < spec_nat_decimal(v).len() ==> spec_is_dec_digit(#[trigger] spec_nat_decimal(v)[i]),
        spec_dec_run(spec_nat_decimal(v)) == v,
    decreases v,
{
    let s = spec_nat_decimal(v);
    if v < 10 {
        assert(s.subrange(0, 0) =~= Seq::<char>::empty());
        assert(spec_dec_run(s) == spec_dec_run(s.subrange(0, 0)) * 10 + spec_dec_value(s[0]));
    } else {
        let q = v / 10;
        lemma_nat_decimal(q);
        let prev = spec_nat_decimal(q);
        assert(s == prev + seq![spec_dec_char(v % 10)]);
        assert(s.subrange(0, s.len() - 1) =~= prev);
        vstd::arithmetic::div_mod::lemma_fundamental_div_mod(v as int, 10);
        assert(s[s.len() - 1] == spec_dec_char(v % 10));
        assert(spec_dec_run(s) == spec_dec_run(prev) * 10 + spec_dec_value(s[s.len() - 1]));
        assert forall|i: int| 0 <= i < s.len() implies spec_is_dec_digit(#[trigger] s[i]) by {
            if i < prev.len() {
                assert(s[i] == prev[i]);
            }
        }
    }
}

/// Trimming leaves text that neither starts nor ends with whitespace
/// unchanged.
pub proof fn lemma_trim_keeps(text: Seq<char>)
    requires
        text.len() > 0,
        !spec_is_whitespace(text[0]),
        !spec_is_whitespace(text[text.len() - 1]),
    ensures
        spec_trim(text) == text,
{
    assert(spec_trim_start(text) == text);
    assert(spec_trim_end(text) == text);
}

/// The decimal `Display` text of a `u64` parses back to it.
pub proof fn lemma_u64_decimal_roundtrip(v: u64)
    ensures
        spec_parse_u64(spec_u64_decimal(v)) == Some(v),
        spec_trim(spec_u64_decimal(v)) == spec_u64_decimal(v),
{
    let s = spec_u64_decimal(v);
    lemma_nat_decimal(v as nat);
    assert(spec_unsigned_digits(s) == s);
    assert(spec_is_dec_digit(s[0]) && spec_is_dec_digit(s[s.len() - 1]));
    lemma_trim_keeps(s);
}

/// The decimal `Display` text of an `i64` parses back to it.
pub proof fn lemma_i64_decimal_roundtrip(v: i64)
    ensures
        spec_parse_i64(spec_i64_decimal(v)) == Some(v),
        spec_trim(spec_i64_decimal(v)) == spec_i64_decimal(v),
{
    let s = spec_i64_decimal(v);
    if v < 0 {
        let m = (-v) as nat;
        lemma_nat_decimal(m);
        let digits = spec_nat_decimal(m);
        assert(s.subrange(1, s.len() as int) =~= digits);
        assert(s[s.len() - 1] == digits[digits.len() - 1]);
        assert(spec_is_dec_digit(digits[digits.len() - 1]));
    } else {
        lemma_nat_decimal(v as nat);
        assert(spec_unsigned_digits(s) == s);
        assert(spec_is_dec_digit(s[0]) && spec_is_dec_digit(s[s.len() - 1]));
    }
    lemma_trim_keeps(s);
}

/// `hex::decode`: an even number of hexadecimal digits of either case, each
/// pair one byte, high digit first.
pub open spec fn spec_hex_decode(text: Seq<char>) -> Option<Seq<u8>> {
    if text.len() % 2 == 0 && (forall|i: int| 0 <= i < text.len() ==> spec_is_hex_digit(#[trigger] text[i])) {
        Some(
            Seq::new(
                text.len() / 2,
                |i: int| (spec_hex_value(text[2 * i]) * 16 + spec_hex_value(text[2 * i + 1])) as u8,
            ),
        )
    } else {
        None
    }
}

/// `hex::encode_upper`: two uppercase hexadecimal digits per byte, high
/// digit first.
pub open spec fn spec_hex_encode_upper(data: Seq<u8>) -> Seq<char> {
    Seq::new(
        data.len() * 2,
        |i: int|
            if i % 2 == 0 {
                spec_upper_hex_char((data[i / 2] / 16) as nat)
            } else {
                spec_upper_hex_char((data[i / 2] % 16) as nat)
            },
    )
}

/// The error `std::str::from_utf8` reports for invalid UTF-8.
#[verifier::external_type_specification]
#[verifier::external_body]
pub struct ExUtf8Error(std::str::Utf8Error);

/// The error `hex::decode` reports for malformed hexadecimal text.
#[verifier::external_type_specification]
#[verifier::external_body]
pub struct ExFromHexError(hex::FromHexError);

/// Decode `bytes` as UTF-8 with `std::str::from_utf8`.  It succeeds exactly
/// for valid UTF-8 and then holds the decoded characters.
#[verifier::external_body]
pub(crate) fn utf8_str(bytes: &[u8]) -> (r: Result<&str, std::str::Utf8Error>)
    ensures
        r is Ok <==> vstd::utf8::valid_utf8(bytes@),
        r matches Ok(s) ==> s@ == vstd::utf8::decode_utf8(bytes@),
{
    std::str::from_utf8(bytes)
}

/// `str::trim`.
#[verifier::external_body]
pub(crate) fn trim(text: &str) -> (r: &str)
    ensures
        r@ == spec_trim(text@),
{
    text.trim()
}

/// `str::trim_start`.
#[verifier::external_body]
pub(crate) fn trim_start(text: &str) -> (r: &str)
    ensures
        r@ == spec_trim_start(text@),
{
    text.trim_start()
}

/// `text.parse::<i64>()`.
#[verifier::external_body]
pub(crate) fn parse_i64(text: &str) -> (r: Option<i64>)
    ensures
        r == spec_parse_i64(text@),
{
    text.parse::<i64>().ok()
}

/// `text.parse::<u64>()`.
#[verifier::external_body]
pub(crate) fn parse_u64(text: &str) -> (r: Option<u64>)
    ensures
        r == spec_parse_u64(text@),
{
    text.parse::<u64>().ok()
}

/// `u32::from_str_radix(text, 16)`.
#[verifier::external_body]
pub(crate) fn parse_hex_u32(text: &str) -> (r: Option<u32>)
    ensures
        r == spec_parse_hex_u32(text@),
{
    u32::from_str_radix(text, 16).ok()
}

/// Decimal rendering of an `i64` (`ToString`).
#[verifier::external_body]
pub(crate) fn i64_decimal(v: i64) -> (r: String)
    ensures
        r@ == spec_i64_decimal(v),
{
    v.to_string()
}

/// Decimal rendering of a `u64` (`ToString`).
#[verifier::external_body]
pub(crate) fn u64_decimal(v: u64) -> (r: String)
    ensures
        r@ == spec_u64_decimal(v),
{
    v.to_string()
}

/// Uppercase hexadecimal rendering of a `u32`.
#[verifier::external_body]
pub(crate) fn u32_upper_hex(v: u32) -> (r: String)
    ensures
        r@ == spec_u32_upper_hex(v),
{
    format!("{:X}", v)
}

/// `hex::decode`.
#[verifier::external_body]
pub(crate) fn hex_decode(text: &str) -> (r: Result<Vec<u8>, hex::FromHexError>)
    ensures
        r matches Ok(v) ==> spec_hex_decode(text@) == Some(v@),
        r is Err ==> spec_hex_decode(text@) is None,
{
    hex::decode(text)
}

/// `hex::encode_upper`.
#[verifier::external_body]
pub(crate) fn hex_encode_upper(data: &[u8]) -> (r: String)
    ensures
        r@ == spec_hex_encode_upper(data@),
{
    hex::encode_upper(data)
}

/// Uppercase hexadecimal text of bytes decodes back to them.
pub proof fn lemma_hex_text_roundtrip(data: Seq<u8>)
    ensures
        spec_hex_decode(spec_trim(spec_hex_encode_upper(data))) == Some(data),
{
    let t = spec_hex_encode_upper(data);
    if data.len() == 0 {
        assert(spec_trim_start(t) == t);
        assert(spec_trim_end(t) == t);
        assert(Seq::<u8>::empty() =~= data);
    } else {
        assert(!spec_is_whitespace(t[0]));
        assert(!spec_is_whitespace(t[t.len() - 1]));
        lemma_trim_keeps(t);
    }
    assert forall|i: int| 0 <= i < t.len() implies spec_is_hex_digit(#[trigger] t[i]) by {}
    let back = Seq::new(t.len() / 2, |i: int| (spec_hex_value(t[2 * i]) * 16 + spec_hex_value(t[2 * i + 1])) as u8);
    assert forall|i: int| 0 <= i < data.len() implies #[trigger] back[i] == data[i] by {
        assert(t[2 * i] == spec_upper_hex_char((data[i] / 16) as nat));
        assert(t[2 * i + 1] == spec_upper_hex_char((data[i] % 16) as nat));
    }
    assert(back =~= data);
}

// === whitespace tokens ===

/// Number of leading characters of `s` that are not whitespace.
pub open spec fn spec_word_len(s: Seq<char>) -> nat
    decreases s.len(),
{
    if s.len() > 0 && !spec_is_whitespace(s[0]) {
        1 + spec_word_len(s.drop_first())
    } else {
        0
    }
}

/// Number of leading whitespace characters of `s`.
pub open spec fn spec_space_len(s: Seq<char>) -> nat
    decreases s.len(),
{
    if s.len() > 0 && spec_is_whitespace(s[0]) {
        1 + spec_space_len(s.drop_first())
    } else {
        0
    }
}

/// A run of leading word or space characters is no longer than the text.
pub proof fn lemma_run_lens(s: Seq<char>)
    ensures
        spec_word_len(s) <= s.len(),
        spec_space_len(s) <= s.len(),
    decreases s.len(),
{
    if s.len() > 0 {
        lemma_run_lens(s.drop_first());
    }
}

/// `str::split_whitespace`: the maximal runs of non-whitespace characters.
pub open spec fn spec_words(t: Seq<char>) -> Seq<Seq<char>>
    decreases t.len(),
{
    let s = t.skip(spec_space_len(t) as int);
    if s.len() == 0 {
        Seq::empty()
    } else {
        let w = spec_word_len(s);
        proof {
            lemma_run_lens(t);
            lemma_run_lens(s);
        }
        if w == 0 {
            Seq::empty()
        } else {
            seq![s.take(w as int)] + spec_words(s.skip(w as int))
        }
    }
}

/// `char::is_whitespace`.
pub fn is_whitespace(c: char) -> (r: bool)
    ensures
        r == spec_is_whitespace(c),
{
    let u = c as u32;
    (0x09 <= u && u <= 0x0D) || u == 0x20 || u == 0x85 || u == 0xA0 || u == 0x1680 || (0x2000 <= u && u <= 0x200A)
        || u == 0x2028 || u == 0x2029 || u == 0x202F || u == 0x205F || u == 0x3000
}

proof fn lemma_space_step(t: Seq<char>, i: int)
    requires
        0 <= i < t.len(),
        spec_is_whitespace(t[i]),
    ensures
        spec_words(t.skip(i)) == spec_words(t.skip(i + 1)),
{
    let a = t.skip(i);
    let b = t.skip(i + 1);
    assert(a.drop_first() =~= b);
    assert(a[0] == t[i]);
    assert(spec_space_len(a) == 1 + spec_space_len(b));
    lemma_run_lens(b);
    let sb = spec_space_len(b) as int;
    assert(a.skip(1 + sb) =~= b.skip(sb));
    assert(spec_words(a) == spec_words(b));
}

proof fn lemma_word_len_at(t: Seq<char>, i: int, j: int)
    requires
        0 <= i <= j <= t.len(),
        forall|k: int| i <= k < j ==> !spec_is_whitespace(#[trigger] t[k]),
        j == t.len() || spec_is_whitespace(t[j]),
    ensures
        spec_word_len(t.skip(i)) == j - i,
    decreases j - i,
{
    let a = t.skip(i);
    if i < j {
        lemma_word_len_at(t, i + 1, j);
        assert(a.drop_first() =~= t.skip(i + 1));
    } else if j < t.len() {
        assert(a[0] == t[j]);
    }
}

proof fn lemma_word_step(t: Seq<char>, i: int, j: int)
    requires
        0 <= i < j <= t.len(),
        forall|k: int| i <= k < j ==> !spec_is_whitespace(#[trigger] t[k]),
        j == t.len() || spec_is_whitespace(t[j]),
    ensures
        spec_words(t.skip(i)) == seq![t.subrange(i, j)] + spec_words(t.skip(j)),
{
    let a = t.skip(i);
    assert(a[0] == t[i]);
    assert(!spec_is_whitespace(a[0]));
    assert(spec_space_len(a) == 0);
    let s0 = a.skip(0);
    assert(s0 =~= a);
    lemma_word_len_at(t, i, j);
    let w = spec_word_len(s0);
    assert(w == j - i);
    assert(s0.take(w as int) =~= t.subrange(i, j));
    assert(s0.skip(w as int) =~= t.skip(j));
    assert(spec_words(a) == seq![s0.take(w as int)] + spec_words(s0.skip(w as int)));
}

/// The whitespace-separated words of `text`, in order.
pub fn split_whitespace(text: &str) -> (r: Vec<&str>)
    ensures
        r@.len() == spec_words(text@).len(),
        forall|k: int| 0 <= k < r@.len() ==> #[trigger] r@[k]@ == spec_words(text@)[k],
{
    let n = text.unicode_len();
    let ghost t = text@;
    let mut words: Vec<&str> = Vec::new();
    let mut i: usize = 0;
    proof {
        assert(t.skip(0) =~= t);
        assert(words@.map_values(|w: &str| w@) =~= Seq::<Seq<char>>::empty());
        assert(spec_words(t) =~= words@.map_values(|w: &str| w@) + spec_words(t.skip(0)));
    }
    while i < n
        invariant
            n == t.len(),
            t == text@,
            i <= n,
            spec_words(t) == words@.map_values(|w: &str| w@) + spec_words(t.skip(i as int)),
        decreases n - i,
    {
        let c = text.get_char(i);
        if is_whitespace(c) {
            proof {
                lemma_space_step(t, i as int);
            }
            i = i + 1;
        } else {
            let mut j: usize = i + 1;
            while j < n && !is_whitespace(text.get_char(j))
                invariant
                    n == t.len(),
                    t == text@,
                    i < j <= n,
                    forall|k: int| i <= k < j ==> !spec_is_whitespace(#[trigger] t[k]),
                decreases n - j,
            {
                j = j + 1;
            }
            proof {
                lemma_word_step(t, i as int, j as int);
            }
            let word = text.substring_char(i, j);
            let ghost before = words@;
            words.push(word);
            proof {
                assert(words@.map_values(|w: &str| w@) =~= before.map_values(|w: &str| w@).push(word@));
                assert(spec_words(t) =~= words@.map_values(|w: &str| w@) + spec_words(t.skip(j as int)));
            }
            i = j;
        }
    }
    proof {
        assert(t.skip(n as int) =~= Seq::<char>::empty());
        assert(spec_words(t.skip(n as int)) =~= Seq::<Seq<char>>::empty());
        assert(spec_words(t) =~= words@.map_values(|w: &str| w@));
    }
    words
}

} // verus!
