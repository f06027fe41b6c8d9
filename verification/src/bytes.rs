//! Fixed-width integer byte layouts (big- and little-endian) used by the
//! wire format, the builtin serializers and the asset payload layouts.
use vstd::prelude::*;

verus! {

/// `256` raised to `n`.
pub open spec fn pow256(n: nat) -> nat
    decreases n,
{
    if n == 0 {
        1
    } else {
        256 * pow256((n - 1) as nat)
    }
}

/// Unsigned value of `s` read as a big-endian integer.
pub open spec fn spec_be_nat(s: Seq<u8>) -> nat
    decreases s.len(),
{
    if s.len() == 0 {
        0
    } else {
        spec_be_nat(s.drop_last()) * 256 + s.last() as nat
    }
}

/// Unsigned value of `s` read as a little-endian integer.
pub open spec fn spec_le_nat(s: Seq<u8>) -> nat {
    spec_be_nat(s.reverse())
}

/// The low `width` bytes of `v`, most significant first.
pub open spec fn spec_be_bytes(v: nat, width: nat) -> Seq<u8>
    decreases width,
{
    if width == 0 {
        Seq::empty()
    } else {
        spec_be_bytes(v / 256, (width - 1) as nat).push((v % 256) as u8)
    }
}

/// The low `width` bytes of `v`, least significant first.
pub open spec fn spec_le_bytes(v: nat, width: nat) -> Seq<u8> {
    spec_be_bytes(v, width).reverse()
}

/// Two's-complement bit pattern of `v` in `width` bytes.
pub open spec fn spec_twos(v: int, width: nat) -> nat {
    if v < 0 {
        (v + pow256(width)) as nat
    } else {
        v as nat
    }
}

/// Every power of 256 is at least one.
pub proof fn lemma_pow256_positive(n: nat)
    ensures
        pow256(n) >= 1,
    decreases n,
{
    if n > 0 {
        lemma_pow256_positive((n - 1) as nat);
    }
}

/// The powers of 256 at the widths the wire format uses.
pub proof fn lemma_pow256_values()
    ensures
        pow256(0) == 1,
        pow256(1) == 0x100,
        pow256(2) == 0x1_0000,
        pow256(3) == 0x100_0000,
        pow256(4) == 0x1_0000_0000,
        pow256(8) == 0x1_0000_0000_0000_0000,
        pow256(16) == 0x1_0000_0000_0000_0000_0000_0000_0000_0000,
{
    reveal_with_fuel(pow256, 17);
}

/// The big-endian bytes of a value at a width are exactly that many.
pub proof fn lemma_be_bytes_len(v: nat, width: nat)
    ensures
        spec_be_bytes(v, width).len() == width,
    decreases width,
{
    if width > 0 {
        lemma_be_bytes_len(v / 256, (width - 1) as nat);
    }
}

/// The value a byte sequence reads as fits in its width.
pub proof fn lemma_be_nat_bound(s: Seq<u8>)
    ensures
        spec_be_nat(s) < pow256(s.len()),
    decreases s.len(),
{
    if s.len() > 0 {
        lemma_be_nat_bound(s.drop_last());
        let p = pow256((s.len() - 1) as nat);
        assert(spec_be_nat(s.drop_last()) * 256 + 256 <= p * 256) by (nonlinear_arith)
            requires
                spec_be_nat(s.drop_last()) + 1 <= p,
        ;
    }
}

/// Reading back the big-endian bytes of `v` gives `v` modulo the width.
pub proof fn lemma_be_roundtrip(v: nat, width: nat)
    ensures
        spec_be_nat(spec_be_bytes(v, width)) == v % pow256(width),
    decreases width,
{
    if width == 0 {
    } else {
        let w1 = (width - 1) as nat;
        lemma_be_roundtrip(v / 256, w1);
        lemma_pow256_positive(w1);
        let s = spec_be_bytes(v, width);
        assert(s.drop_last() =~= spec_be_bytes(v / 256, w1));
        vstd::arithmetic::div_mod::lemma_mod_breakdown(v as int, 256, pow256(w1) as int);
        assert(pow256(width) == 256 * pow256(w1));
    }
}

/// A value that fits the width survives the round trip unchanged.
pub proof fn lemma_be_roundtrip_fits(v: nat, width: nat)
    requires
        v < pow256(width),
    ensures
        spec_be_nat(spec_be_bytes(v, width)) == v,
{
    lemma_be_roundtrip(v, width);
    vstd::arithmetic::div_mod::lemma_small_mod(v, pow256(width));
}

/// Writing the value of a byte sequence back at its width reproduces it.
pub proof fn lemma_bytes_roundtrip(s: Seq<u8>)
    ensures
        spec_be_bytes(spec_be_nat(s), s.len()) == s,
    decreases s.len(),
{
    if s.len() > 0 {
        let prefix = s.drop_last();
        lemma_bytes_roundtrip(prefix);
        let v = spec_be_nat(s);
        assert(v / 256 == spec_be_nat(prefix) && v % 256 == s.last() as nat) by {
            vstd::arithmetic::div_mod::lemma_fundamental_div_mod_converse(
                v as int,
                256,
                spec_be_nat(prefix) as int,
                s.last() as int,
            );
        }
        assert(spec_be_bytes(v, s.len()) =~= s);
    }
}

/// Read `width` big-endian bytes of `data` starting at `start`.
pub fn read_be(data: &[u8], start: usize, width: usize) -> (r: u64)
    requires
        width <= 8,
        start + width <= data@.len(),
    ensures
        r as nat == spec_be_nat(data@.subrange(start as int, start + width)),
{
    let n = data.len();
    let mut acc: u64 = 0;
    let mut i: usize = 0;
    while i < width
        invariant
            n == data@.len(),
            i <= width <= 8,
            start + width <= data@.len(),
            acc as nat == spec_be_nat(data@.subrange(start as int, start + i)),
        decreases width - i,
    {
        let ghost prefix = data@.subrange(start as int, start + i);
        let ghost next = data@.subrange(start as int, start + i + 1);
        proof {
            assert(next.drop_last() =~= prefix);
            lemma_be_nat_bound(prefix);
            lemma_pow256_values();
            lemma_pow256_monotone(i as nat, 7);
            assert(acc * 256 + 255 < 0x1_0000_0000_0000_0000) by (nonlinear_arith)
                requires
                    acc < pow256(7),
                    pow256(7) == 0x100_0000_0000_0000,
            ;
        }
        acc = acc * 256 + data[start + i] as u64;
        i = i + 1;
    }
    acc
}

/// Powers of 256 grow with the exponent.
pub proof fn lemma_pow256_monotone(a: nat, b: nat)
    requires
        a <= b,
    ensures
        pow256(a) <= pow256(b),
    decreases b,
{
    if a < b {
        lemma_pow256_monotone(a, (b - 1) as nat);
        lemma_pow256_positive((b - 1) as nat);
    }
}

/// Read `width` little-endian bytes of `data` starting at `start`.
pub fn read_le(data: &[u8], start: usize, width: usize) -> (r: u64)
    requires
        width <= 8,
        start + width <= data@.len(),
    ensures
        r as nat == spec_le_nat(data@.subrange(start as int, start + width)),
{
    let n = data.len();
    let mut acc: u64 = 0;
    let mut i: usize = width;
    while i > 0
        invariant
            n == data@.len(),
            i <= width <= 8,
            start + width <= data@.len(),
            acc as nat == spec_be_nat(data@.subrange(start + i, start + width).reverse()),
        decreases i,
    {
        let ghost done = data@.subrange(start + i, start + width).reverse();
        let ghost next = data@.subrange(start + i - 1, start + width).reverse();
        proof {
            assert(next.drop_last() =~= done);
            assert(next.last() == data@[start + i - 1]);
            lemma_be_nat_bound(done);
            lemma_pow256_values();
            lemma_pow256_monotone(done.len(), 7);
            assert(acc * 256 + 255 < 0x1_0000_0000_0000_0000) by (nonlinear_arith)
                requires
                    acc < pow256(7),
                    pow256(7) == 0x100_0000_0000_0000,
            ;
        }
        acc = acc * 256 + data[start + i - 1] as u64;
        i = i - 1;
    }
    acc
}

/// The low `width` bytes of `v`, most significant first.
pub fn write_be(v: u64, width: usize) -> (r: Vec<u8>)
    ensures
        r@ == spec_be_bytes(v as nat, width as nat),
    decreases width,
{
    if width == 0 {
        Vec::new()
    } else {
        let mut r = write_be(v / 256, width - 1);
        r.push((v % 256) as u8);
        r
    }
}

/// The low `width` bytes of `v`, least significant first.
pub fn write_le(v: u64, width: usize) -> (r: Vec<u8>)
    ensures
        r@ == spec_le_bytes(v as nat, width as nat),
{
    let mut be = write_be(v, width);
    proof {
        lemma_be_bytes_len(v as nat, width as nat);
    }
    let mut r: Vec<u8> = Vec::new();
    let mut i: usize = be.len();
    while i > 0
        invariant
            i <= be@.len(),
            be@ == spec_be_bytes(v as nat, width as nat),
            r@ =~= be@.subrange(i as int, be@.len() as int).reverse(),
        decreases i,
    {
        r.push(be[i - 1]);
        i = i - 1;
    }
    assert(be@.subrange(0, be@.len() as int) =~= be@);
    r
}

/// Copy `data[start..end]`.
pub fn copy_range(data: &[u8], start: usize, end: usize) -> (r: Vec<u8>)
    requires
        start <= end <= data@.len(),
    ensures
        r@ == data@.subrange(start as int, end as int),
{
    let mut r: Vec<u8> = Vec::new();
    let mut i = start;
    while i < end
        invariant
            start <= i <= end <= data@.len(),
            r@ =~= data@.subrange(start as int, i as int),
        decreases end - i,
    {
        r.push(data[i]);
        i = i + 1;
    }
    r
}

/// Append every byte of `tail` to `out`.
pub fn extend_bytes(out: &mut Vec<u8>, tail: &[u8])
    ensures
        final(out)@ == old(out)@ + tail@,
{
    let mut i: usize = 0;
    while i < tail.len()
        invariant
            i <= tail@.len(),
            out@ =~= old(out)@ + tail@.subrange(0, i as int),
        decreases tail.len() - i,
    {
        out.push(tail[i]);
        i = i + 1;
    }
    assert(tail@.subrange(0, tail@.len() as int) =~= tail@);
}

} // verus!

verus! {

/// Borrow `data[start..end]`.
pub fn sub_slice(data: &[u8], start: usize, end: usize) -> (r: &[u8])
    requires
        start <= end <= data@.len(),
    ensures
        r@ == data@.subrange(start as int, end as int),
{
    &data[start..end]
}

} // verus!
