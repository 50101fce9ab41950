//! Byte strings: their lexicographic order, and the fixed-width forms of integers.

use vstd::prelude::*;

verus! {

// ---------------------------------------------------------------------------
// Lexicographic order
// ---------------------------------------------------------------------------

/// `a` comes strictly before `b` in the lexicographic order of byte strings.
pub open spec fn lex_lt(a: Seq<u8>, b: Seq<u8>) -> bool
    decreases a.len(),
{
    if b.len() == 0 {
        false
    } else if a.len() == 0 {
        true
    } else {
        a[0] < b[0] || (a[0] == b[0] && lex_lt(a.skip(1), b.skip(1)))
    }
}

/// No byte string comes before itself.
pub proof fn lemma_lex_irreflexive(a: Seq<u8>)
    ensures
        !lex_lt(a, a),
    decreases a.len(),
{
    if a.len() > 0 {
        lemma_lex_irreflexive(a.skip(1));
    }
}

/// The order is transitive.
pub proof fn lemma_lex_transitive(a: Seq<u8>, b: Seq<u8>, c: Seq<u8>)
    requires
        lex_lt(a, b),
        lex_lt(b, c),
    ensures
        lex_lt(a, c),
    decreases a.len(),
{
    if a.len() > 0 && b.len() > 0 && c.len() > 0 && a[0] == b[0] && b[0] == c[0] {
        lemma_lex_transitive(a.skip(1), b.skip(1), c.skip(1));
    }
}

/// The order is total: of two byte strings neither of which comes first, both are the same.
pub proof fn lemma_lex_total(a: Seq<u8>, b: Seq<u8>)
    ensures
        lex_lt(a, b) || lex_lt(b, a) || a == b,
    decreases a.len(),
{
    if a.len() == 0 || b.len() == 0 {
        if a.len() == 0 && b.len() == 0 {
            assert(a =~= b);
        }
    } else if a[0] == b[0] {
        lemma_lex_total(a.skip(1), b.skip(1));
        if a.skip(1) == b.skip(1) {
            assert(a =~= seq![a[0]] + a.skip(1));
            assert(b =~= seq![b[0]] + b.skip(1));
        }
    }
}

/// Whether `a` comes strictly before `b`.
pub fn bytes_lt(a: &[u8], b: &[u8]) -> (r: bool)
    ensures
        r == lex_lt(a@, b@),
{
    let mut i: usize = 0;
    assert(a@.skip(0) =~= a@);
    assert(b@.skip(0) =~= b@);
    while i < a.len() && i < b.len() && a[i] == b[i]
        invariant
            0 <= i <= a@.len(),
            i <= b@.len(),
            lex_lt(a@, b@) == lex_lt(a@.skip(i as int), b@.skip(i as int)),
        decreases a@.len() - i,
    {
        assert(a@.skip(i as int).skip(1) =~= a@.skip(i + 1));
        assert(b@.skip(i as int).skip(1) =~= b@.skip(i + 1));
        i = i + 1;
    }
    if i >= b.len() {
        false
    } else if i >= a.len() {
        true
    } else {
        a[i] < b[i]
    }
}

/// Whether two byte strings are the same.
pub fn bytes_eq(a: &[u8], b: &[u8]) -> (r: bool)
    ensures
        r == (a@ == b@),
{
    if a.len() != b.len() {
        return false;
    }
    let mut i: usize = 0;
    while i < a.len()
        invariant
            0 <= i <= a@.len(),
            a@.len() == b@.len(),
            forall|j: int| 0 <= j < i ==> a@[j] == b@[j],
        decreases a@.len() - i,
    {
        if a[i] != b[i] {
            return false;
        }
        i = i + 1;
    }
    assert(a@ =~= b@);
    true
}

/// A copy of a byte string.
pub fn bytes_to_vec(a: &[u8]) -> (r: Vec<u8>)
    ensures
        r@ == a@,
{
    let mut out: Vec<u8> = Vec::new();
    out.extend_from_slice(a);
    assert(out@ =~= a@);
    out
}

// ---------------------------------------------------------------------------
// Fixed-width integers
// ---------------------------------------------------------------------------

/// The `width` low bytes of `n`, lowest first.
pub open spec fn le_bytes(n: nat, width: nat) -> Seq<u8>
    decreases width,
{
    if width == 0 {
        Seq::empty()
    } else {
        seq![(n % 256) as u8] + le_bytes(n / 256, (width - 1) as nat)
    }
}

/// The `width` low bytes of `n`, highest first.
pub open spec fn be_bytes(n: nat, width: nat) -> Seq<u8> {
    le_bytes(n, width).reverse()
}

/// The number whose bytes are `s`, lowest first.
pub open spec fn le_value(s: Seq<u8>) -> nat
    decreases s.len(),
{
    if s.len() == 0 {
        0
    } else {
        s[0] as nat + 256 * le_value(s.skip(1))
    }
}

/// The fixed-width form has the width that it was given.
pub proof fn lemma_le_bytes_len(n: nat, width: nat)
    ensures
        le_bytes(n, width).len() == width,
    decreases width,
{
    if width > 0 {
        lemma_le_bytes_len(n / 256, (width - 1) as nat);
    }
}

/// 256 to the given power.
pub open spec fn pow256(width: nat) -> nat
    decreases width,
{
    if width == 0 {
        1
    } else {
        256 * pow256((width - 1) as nat)
    }
}

/// Reading back a fixed-width form gives the number, when the number fits in the width.
pub proof fn lemma_le_round_trip(n: nat, width: nat)
    requires
        n < pow256(width),
    ensures
        le_value(le_bytes(n, width)) == n,
    decreases width,
{
    if width > 0 {
        let rest = le_bytes(n / 256, (width - 1) as nat);
        assert(n / 256 < pow256((width - 1) as nat));
        lemma_le_round_trip(n / 256, (width - 1) as nat);
        assert(le_bytes(n, width).skip(1) =~= rest);
    }
}

proof fn lemma_pow256_values()
    ensures
        pow256(1) == 0x100,
        pow256(8) == 0x1_0000_0000_0000_0000,
        pow256(16) == 0x1_0000_0000_0000_0000_0000_0000_0000_0000,
{
    reveal_with_fuel(pow256, 17);
}

/// Two 64-bit numbers with the same fixed-width form are the same.
pub proof fn lemma_le_u64_injective(a: u64, b: u64)
    requires
        le_bytes(a as nat, 8) == le_bytes(b as nat, 8),
    ensures
        a == b,
{
    lemma_pow256_values();
    lemma_le_round_trip(a as nat, 8);
    lemma_le_round_trip(b as nat, 8);
}

/// Two 128-bit numbers with the same fixed-width form are the same.
pub proof fn lemma_le_u128_injective(a: u128, b: u128)
    requires
        le_bytes(a as nat, 16) == le_bytes(b as nat, 16),
    ensures
        a == b,
{
    lemma_pow256_values();
    lemma_le_round_trip(a as nat, 16);
    lemma_le_round_trip(b as nat, 16);
}

/// The `width` low bytes of `n`, lowest first.
pub fn to_le_bytes(n: u128, width: usize) -> (r: Vec<u8>)
    ensures
        r@ == le_bytes(n as nat, width as nat),
{
    let mut out: Vec<u8> = Vec::new();
    let mut rest: u128 = n;
    let mut i: usize = 0;
    while i < width
        invariant
            0 <= i <= width,
            le_bytes(n as nat, width as nat) == out@ + le_bytes(rest as nat, (width - i) as nat),
        decreases width - i,
    {
        let ghost before = out@;
        let byte: u8 = (rest % 256) as u8;
        out.push(byte);
        proof {
            assert(le_bytes(rest as nat, (width - i) as nat) == seq![byte] + le_bytes(
                (rest / 256) as nat,
                (width - i - 1) as nat,
            ));
            assert(out@ + le_bytes((rest / 256) as nat, (width - i - 1) as nat) =~= before + (
            seq![byte] + le_bytes((rest / 256) as nat, (width - i - 1) as nat)));
        }
        rest = rest / 256;
        i = i + 1;
    }
    assert(out@ + le_bytes(rest as nat, 0) =~= out@);
    out
}

/// The 16 bytes of `n`, highest first.
pub fn to_be_bytes(n: u128) -> (r: Vec<u8>)
    ensures
        r@ == be_bytes(n as nat, 16),
        r@.len() == 16,
{
    let low_first: Vec<u8> = to_le_bytes(n, 16);
    proof {
        lemma_le_bytes_len(n as nat, 16);
    }
    let mut out: Vec<u8> = Vec::new();
    let mut i: usize = 16;
    while i > 0
        invariant
            0 <= i <= 16,
            low_first@.len() == 16,
            out@.len() == 16 - i,
            forall|j: int| 0 <= j < out@.len() ==> out@[j] == low_first@[15 - j],
        decreases i,
    {
        i = i - 1;
        out.push(low_first[i]);
    }
    assert(out@ =~= low_first@.reverse());
    out
}

proof fn lemma_le_value_bound(s: Seq<u8>)
    ensures
        le_value(s) < pow256(s.len()),
    decreases s.len(),
{
    if s.len() > 0 {
        lemma_le_value_bound(s.skip(1));
    }
}

/// The number whose bytes are the reverse of `s`: what `s` says read highest byte first.
pub open spec fn be_value(s: Seq<u8>) -> nat {
    le_value(s.reverse())
}

/// The number that 16 bytes say, read highest first.
pub fn from_be_bytes(s: &[u8]) -> (r: u128)
    requires
        s@.len() == 16,
    ensures
        r == be_value(s@),
{
    let mut out: u128 = 0;
    let mut i: usize = 0;
    proof {
        assert(s@.subrange(0, 0).reverse().len() == 0);
    }
    while i < 16
        invariant
            0 <= i <= 16,
            s@.len() == 16,
            out as nat == le_value(s@.subrange(0, i as int).reverse()),
        decreases 16 - i,
    {
        proof {
            let before = s@.subrange(0, i as int);
            let after = s@.subrange(0, i + 1);
            assert(after.reverse().skip(1) =~= before.reverse());
            assert(after.reverse()[0] == s@[i as int]);
            lemma_le_value_bound(after.reverse());
            lemma_pow256_monotone((i + 1) as nat, 16);
            lemma_pow256_values();
        }
        out = out * 256 + s[i] as u128;
        i = i + 1;
    }
    assert(s@.subrange(0, 16) =~= s@);
    out
}

proof fn lemma_pow256_monotone(a: nat, b: nat)
    requires
        a <= b,
    ensures
        pow256(a) <= pow256(b),
    decreases b - a,
{
    if a < b {
        lemma_pow256_monotone(a, (b - 1) as nat);
    }
}

/// Reading back the 16 bytes of a number gives the number.
pub proof fn lemma_be_round_trip(n: u128)
    ensures
        be_value(be_bytes(n as nat, 16)) == n,
{
    lemma_pow256_values();
    lemma_le_round_trip(n as nat, 16);
    assert(le_bytes(n as nat, 16).reverse().reverse() =~= le_bytes(n as nat, 16));
}

} // verus!
