//! Byte-level scanning of UTF-8 text around ASCII delimiters.  An ASCII byte
//! never occurs inside a multi-byte character, so splitting at one always
//! lands on a character boundary.
use vstd::prelude::*;
use vstd::utf8::encode_utf8;

verus! {

/// `pat` occurs in `s` at byte `i`.
pub open spec fn spec_matches_at(s: Seq<u8>, pat: Seq<u8>, i: int) -> bool {
    0 <= i && i + pat.len() <= s.len() && s.subrange(i, i + pat.len()) == pat
}

/// First byte index at or after `from` where `pat` occurs.
pub open spec fn spec_find_from(s: Seq<u8>, pat: Seq<u8>, from: int) -> Option<int>
    decreases s.len() - from,
{
    if from < 0 || from + pat.len() > s.len() {
        None
    } else if pat.len() == 0 || spec_matches_at(s, pat, from) {
        Some(from)
    } else {
        spec_find_from(s, pat, from + 1)
    }
}

/// Last index in `[lo, hi)` holding `b`.
pub open spec fn spec_rfind_byte(s: Seq<u8>, b: u8, lo: int, hi: int) -> Option<int>
    decreases hi - lo,
{
    if hi <= lo {
        None
    } else if s[hi - 1] == b {
        Some(hi - 1)
    } else {
        spec_rfind_byte(s, b, lo, hi - 1)
    }
}

/// Index `i` of the UTF-8 bytes `s` may start or end a substring: it is an
/// end, or the byte there or just before it is ASCII.
pub open spec fn spec_ascii_cut(s: Seq<u8>, i: int) -> bool {
    ||| i == 0
    ||| i == s.len()
    ||| (0 <= i < s.len() && s[i] < 128)
    ||| (0 < i <= s.len() && s[i - 1] < 128)
}

/// Does `pat` occur in `s` at byte `at`?
pub fn matches_at(s: &[u8], pat: &[u8], at: usize) -> (r: bool)
    ensures
        r == spec_matches_at(s@, pat@, at as int),
{
    if at > s.len() || pat.len() > s.len() - at {
        return false;
    }
    let mut k: usize = 0;
    while k < pat.len()
        invariant
            at + pat@.len() <= s@.len(),
            s@.len() == s.len(),
            k <= pat@.len(),
            forall|j: int| 0 <= j < k ==> s@[at + j] == #[trigger] pat@[j],
        decreases pat.len() - k,
    {
        if s[at + k] != pat[k] {
            assert(s@.subrange(at as int, at + pat@.len())[k as int] != pat@[k as int]);
            return false;
        }
        k = k + 1;
    }
    assert(s@.subrange(at as int, at + pat@.len()) =~= pat@);
    true
}

/// First occurrence of `pat` in `s` at or after `from`.
pub fn find_from(s: &[u8], pat: &[u8], from: usize) -> (r: Option<usize>)
    ensures
        r matches Some(i) ==> spec_find_from(s@, pat@, from as int) == Some(i as int),
        r is None ==> spec_find_from(s@, pat@, from as int) is None,
{
    let mut i = from;
    while i <= s.len() && pat.len() <= s.len() - i
        invariant
            from <= i,
            spec_find_from(s@, pat@, from as int) == spec_find_from(s@, pat@, i as int),
        decreases s.len() + 1 - i,
    {
        if pat.len() == 0 || matches_at(s, pat, i) {
            return Some(i);
        }
        i = i + 1;
    }
    None
}

/// Last occurrence of byte `b` in `s[lo..hi]`.
pub fn rfind_byte(s: &[u8], b: u8, lo: usize, hi: usize) -> (r: Option<usize>)
    requires
        lo <= hi <= s@.len(),
    ensures
        r matches Some(i) ==> spec_rfind_byte(s@, b, lo as int, hi as int) == Some(i as int),
        r is None ==> spec_rfind_byte(s@, b, lo as int, hi as int) is None,
{
    let mut h = hi;
    while h > lo
        invariant
            lo <= h <= hi <= s@.len(),
            spec_rfind_byte(s@, b, lo as int, hi as int) == spec_rfind_byte(s@, b, lo as int, h as int),
        decreases h - lo,
    {
        if s[h - 1] == b {
            return Some(h - 1);
        }
        h = h - 1;
    }
    None
}

proof fn lemma_boundary_after_ascii(s: Seq<u8>, i: int)
    requires
        vstd::utf8::valid_utf8(s),
        0 < i <= s.len(),
        s[i - 1] < 128,
    ensures
        vstd::utf8::is_char_boundary(s, i),
    decreases s.len(),
{
    let l = vstd::utf8::length_of_first_scalar(s);
    let tail = vstd::utf8::pop_first_scalar(s);
    assert(vstd::utf8::valid_first_scalar(s) && vstd::utf8::valid_utf8(tail));
    assert(1 <= l <= 4 && l <= s.len());
    if i - 1 < l {
        assert(i == l);
        assert(vstd::utf8::is_char_boundary(tail, 0));
    } else {
        assert(tail[i - 1 - l] == s[i - 1]);
        lemma_boundary_after_ascii(tail, i - l);
    }
}

proof fn lemma_ascii_cut_boundary(s: Seq<u8>, i: int)
    requires
        vstd::utf8::valid_utf8(s),
        spec_ascii_cut(s, i),
    ensures
        vstd::utf8::is_char_boundary(s, i),
{
    vstd::utf8::is_char_boundary_start_end_of_seq(s);
    if 0 < i < s.len() && s[i] < 128 {
        vstd::utf8::is_char_boundary_iff_not_is_continuation_byte(s, i);
    } else if 0 < i <= s.len() && s[i - 1] < 128 {
        lemma_boundary_after_ascii(s, i);
    }
}

/// The substring of `text` between two ASCII-delimited byte offsets.
pub fn ascii_cut<'a>(text: &'a str, a: usize, b: usize) -> (r: &'a str)
    requires
        a <= b <= vstd::utf8::encode_utf8(text@).len(),
        spec_ascii_cut(vstd::utf8::encode_utf8(text@), a as int),
        spec_ascii_cut(vstd::utf8::encode_utf8(text@), b as int),
    ensures
        vstd::utf8::encode_utf8(r@) == vstd::utf8::encode_utf8(text@).subrange(a as int, b as int),
        r@ == vstd::utf8::decode_utf8(vstd::utf8::encode_utf8(text@).subrange(a as int, b as int)),
        vstd::utf8::valid_utf8(vstd::utf8::encode_utf8(text@).subrange(a as int, b as int)),
{
    let ghost s = vstd::utf8::encode_utf8(text@);
    proof {
        vstd::utf8::encode_utf8_valid_utf8(text@);
        lemma_ascii_cut_boundary(s, b as int);
    }
    let (head, _) = text.split_at(b);
    let ghost h = vstd::utf8::encode_utf8(head@);
    proof {
        vstd::utf8::encode_utf8_valid_utf8(head@);
        assert(h =~= s.subrange(0, b as int));
        if a < b {
            assert(h[a as int] == s[a as int]);
        }
        if 0 < a {
            assert(h[a - 1] == s[a - 1]);
        }
        lemma_ascii_cut_boundary(h, a as int);
    }
    let (_, piece) = head.split_at(a);
    proof {
        assert(vstd::utf8::encode_utf8(piece@) =~= s.subrange(a as int, b as int));
        vstd::utf8::encode_utf8_valid_utf8(piece@);
        vstd::utf8::encode_utf8_decode_utf8(piece@);
    }
    piece
}

/// A found occurrence is a match, at or after `from`.
pub proof fn lemma_find_from_found(s: Seq<u8>, pat: Seq<u8>, from: int, i: int)
    requires
        spec_find_from(s, pat, from) == Some(i),
    ensures
        from <= i,
        i + pat.len() <= s.len(),
        spec_matches_at(s, pat, i),
    decreases s.len() - from,
{
    if from < 0 || from + pat.len() > s.len() {
    } else if pat.len() == 0 || spec_matches_at(s, pat, from) {
        if pat.len() == 0 {
            assert(s.subrange(from, from + pat.len()) =~= pat);
        }
    } else {
        lemma_find_from_found(s, pat, from + 1, i);
    }
}

/// A found byte lies in the searched range and holds the byte.
pub proof fn lemma_rfind_found(s: Seq<u8>, b: u8, lo: int, hi: int, i: int)
    requires
        spec_rfind_byte(s, b, lo, hi) == Some(i),
    ensures
        lo <= i < hi,
        s[i] == b,
    decreases hi - lo,
{
    if hi <= lo {
    } else if s[hi - 1] == b {
    } else {
        lemma_rfind_found(s, b, lo, hi - 1, i);
    }
}

/// The encoding of a concatenation is the concatenation of the encodings.
pub proof fn lemma_encode_concat(a: Seq<char>, b: Seq<char>)
    ensures
        encode_utf8(a + b) == encode_utf8(a) + encode_utf8(b),
    decreases a.len(),
{
    if a.len() == 0 {
        assert(a + b =~= b);
        assert(encode_utf8(a) =~= Seq::<u8>::empty());
        assert(encode_utf8(a) + encode_utf8(b) =~= encode_utf8(b));
    } else {
        let ab = a + b;
        assert(ab[0] == a[0]);
        assert(ab.drop_first() =~= a.drop_first() + b);
        lemma_encode_concat(a.drop_first(), b);
        assert(encode_utf8(ab) =~= encode_utf8(a) + encode_utf8(b));
    }
}

/// ASCII characters encode as one byte each, of the same value.
pub proof fn lemma_encode_ascii(s: Seq<char>)
    requires
        forall|i: int| 0 <= i < s.len() ==> (#[trigger] s[i] as u32) < 128,
    ensures
        encode_utf8(s).len() == s.len(),
        forall|i: int| 0 <= i < s.len() ==> #[trigger] encode_utf8(s)[i] as u32 == s[i] as u32,
    decreases s.len(),
{
    if s.len() > 0 {
        let c = s[0] as u32;
        assert(c < 128);
        assert(((c & 0x7F) as u8) as u32 == c) by (bit_vector)
            requires
                c < 128,
        ;
        let rest = s.drop_first();
        assert forall|i: int| 0 <= i < rest.len() implies (#[trigger] rest[i] as u32) < 128 by {
            assert(rest[i] == s[i + 1]);
        }
        lemma_encode_ascii(rest);
        assert forall|i: int| 0 <= i < s.len() implies #[trigger] encode_utf8(s)[i] as u32 == s[i] as u32 by {
            if i > 0 {
                assert(rest[i - 1] == s[i]);
            }
        }
    }
}

/// A byte below 128 occurs in the encoding of `s` only where `s` holds that
/// character.
pub proof fn lemma_encode_avoids(s: Seq<char>, b: u8)
    requires
        b < 128,
        forall|i: int| 0 <= i < s.len() ==> (#[trigger] s[i] as u32) != b as u32,
    ensures
        forall|i: int| 0 <= i < encode_utf8(s).len() ==> #[trigger] encode_utf8(s)[i] != b,
    decreases s.len(),
{
    if s.len() > 0 {
        let c = s[0] as u32;
        vstd::utf8::char_is_scalar(s[0]);
        let rest = s.drop_first();
        assert forall|i: int| 0 <= i < rest.len() implies (#[trigger] rest[i] as u32) != b as u32 by {
            assert(rest[i] == s[i + 1]);
        }
        lemma_encode_avoids(rest, b);
        let head = vstd::utf8::encode_scalar(c);
        assert forall|i: int| 0 <= i < head.len() implies #[trigger] head[i] != b by {
            if c <= 0x7f {
                assert(((c & 0x7F) as u8) as u32 == c) by (bit_vector)
                    requires
                        c <= 0x7f,
                ;
            } else {
                let y2: u8 = ((c >> 6) & 0x1F) as u8;
                let y3: u8 = ((c >> 12) & 0x0F) as u8;
                let y4: u8 = ((c >> 18) & 0x7) as u8;
                let z1: u8 = (c & 0x3F) as u8;
                let z2: u8 = ((c >> 6) & 0x3F) as u8;
                let z3: u8 = ((c >> 12) & 0x3F) as u8;
                assert((0xC0u8 | y2) >= 128 && (0xE0u8 | y3) >= 128 && (0xF0u8 | y4) >= 128 && (0x80u8 | z1) >= 128
                    && (0x80u8 | z2) >= 128 && (0x80u8 | z3) >= 128) by (bit_vector);
            }
        }
        assert(encode_utf8(s) =~= head + encode_utf8(rest));
        assert forall|i: int| 0 <= i < encode_utf8(s).len() implies #[trigger] encode_utf8(s)[i] != b by {
            if i < head.len() {
                assert(encode_utf8(s)[i] == head[i]);
            } else {
                assert(encode_utf8(s)[i] == encode_utf8(rest)[i - head.len()]);
            }
        }
    }
}

/// `pat` is first found at `i` when it matches there and no byte between
/// `from` and `i` starts it.
pub proof fn lemma_find_from_exact(s: Seq<u8>, pat: Seq<u8>, from: int, i: int)
    requires
        0 <= from <= i,
        pat.len() > 0,
        spec_matches_at(s, pat, i),
        forall|k: int| from <= k < i ==> #[trigger] s[k] != pat[0],
    ensures
        spec_find_from(s, pat, from) == Some(i),
    decreases i - from,
{
    if from < i {
        assert(s.subrange(from, from + pat.len())[0] == s[from]);
        lemma_find_from_exact(s, pat, from + 1, i);
    }
}

/// The last `b` in `[lo, hi)` is at `i` when it is there and not after it.
pub proof fn lemma_rfind_exact(s: Seq<u8>, b: u8, lo: int, hi: int, i: int)
    requires
        lo <= i < hi <= s.len(),
        0 <= i,
        s[i] == b,
        forall|k: int| i < k < hi ==> #[trigger] s[k] != b,
    ensures
        spec_rfind_byte(s, b, lo, hi) == Some(i),
    decreases hi - i,
{
    if hi - 1 > i {
        lemma_rfind_exact(s, b, lo, hi - 1, i);
    }
}

} // verus!
