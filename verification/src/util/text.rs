//! Text: comparison, numerals, joining, padding and the classes of characters.

use crate::util::bytes::{bytes_eq, pow256};
use vstd::prelude::*;
use vstd::utf8::*;

verus! {

// ---------------------------------------------------------------------------
// Comparison
// ---------------------------------------------------------------------------

/// Texts with the same UTF-8 bytes are the same.
pub proof fn lemma_utf8_injective(a: Seq<char>, b: Seq<char>)
    requires
        encode_utf8(a) == encode_utf8(b),
    ensures
        a == b,
{
    encode_utf8_decode_utf8(a);
    encode_utf8_decode_utf8(b);
}

/// The UTF-8 bytes of two texts joined are the bytes of the one and then of the other.
pub proof fn lemma_utf8_concat(a: Seq<char>, b: Seq<char>)
    ensures
        encode_utf8(a + b) == encode_utf8(a) + encode_utf8(b),
    decreases a.len(),
{
    if a.len() == 0 {
        assert(a + b =~= b);
        assert(encode_utf8(a) + encode_utf8(b) =~= encode_utf8(b));
    } else {
        assert((a + b).drop_first() =~= a.drop_first() + b);
        lemma_utf8_concat(a.drop_first(), b);
        assert(encode_utf8(a + b) =~= encode_utf8(a) + encode_utf8(b));
    }
}

/// A text has no fewer UTF-8 bytes than characters.
pub proof fn lemma_utf8_not_shorter(s: Seq<char>)
    ensures
        s.len() <= encode_utf8(s).len(),
    decreases s.len(),
{
    if s.len() > 0 {
        lemma_utf8_not_shorter(s.drop_first());
    }
}

/// Whether two texts are the same.
pub fn str_eq(a: &str, b: &str) -> (r: bool)
    ensures
        r == (a@ == b@),
{
    let r: bool = bytes_eq(a.as_bytes(), b.as_bytes());
    proof {
        if r {
            lemma_utf8_injective(a@, b@);
        }
    }
    r
}

/// The characters of a text, one by one.
pub fn chars_of(s: &str) -> (r: Vec<char>)
    ensures
        r@ == s@,
{
    let mut out: Vec<char> = Vec::new();
    for c in it: s.chars()
        invariant
            out@ == s@.take(it.index() as int),
            it.seq() == s@,
    {
        out.push(c);
    }
    assert(s@.take(s@.len() as int) =~= s@);
    out
}

/// `s` begins with `prefix`.
pub open spec fn has_prefix<T>(s: Seq<T>, prefix: Seq<T>) -> bool {
    prefix.len() <= s.len() && s.take(prefix.len() as int) == prefix
}

/// Whether `s` begins with `prefix`.
pub fn starts_with(s: &str, prefix: &str) -> (r: bool)
    ensures
        r == has_prefix(s@, prefix@),
{
    let text: Vec<char> = chars_of(s);
    let start: Vec<char> = chars_of(prefix);
    if start.len() > text.len() {
        return false;
    }
    let mut i: usize = 0;
    while i < start.len()
        invariant
            text@ == s@,
            start@ == prefix@,
            0 <= i <= start@.len() <= text@.len(),
            text@.take(i as int) == start@.take(i as int),
        decreases start@.len() - i,
    {
        if text[i] != start[i] {
            assert(text@.take(start@.len() as int)[i as int] != start@[i as int]);
            return false;
        }
        assert(text@.take(i + 1) =~= text@.take(i as int).push(text@[i as int]));
        assert(start@.take(i + 1) =~= start@.take(i as int).push(start@[i as int]));
        i = i + 1;
    }
    assert(start@.take(start@.len() as int) =~= start@);
    true
}

/// The texts of a list of strings.
pub open spec fn texts(s: Seq<String>) -> Seq<Seq<char>> {
    s.map_values(|x: String| x@)
}

// ---------------------------------------------------------------------------
// Numerals
// ---------------------------------------------------------------------------

/// The digit for `d`: `0` to `9`, then `a` to `f`.
pub open spec fn digit_char(d: nat) -> char {
    if d < 10 {
        (('0' as nat) + d) as char
    } else {
        (('a' as nat) + (d - 10) as nat) as char
    }
}

/// Dividing by a base makes a number that is not a single digit smaller.
pub proof fn lemma_quotient_less(n: nat, base: nat)
    requires
        2 <= base <= n,
    ensures
        n / base < n,
{
    vstd::arithmetic::div_mod::lemma_div_decreases(n as int, base as int);
}

/// `n` written in the given base, without leading zeros.
pub open spec fn numeral(n: nat, base: nat) -> Seq<char>
    decreases n,
    when base >= 2
{
    if n < base {
        seq![digit_char(n)]
    } else {
        proof {
            lemma_quotient_less(n, base);
        }
        numeral(n / base, base).push(digit_char(n % base))
    }
}

/// `n` in lower-case hexadecimal.
pub open spec fn hex_text(n: nat) -> Seq<char> {
    numeral(n, 16)
}

/// `n` in decimal.
pub open spec fn decimal_text(n: nat) -> Seq<char> {
    numeral(n, 10)
}

fn digit_str(d: u128) -> (r: &'static str)
    requires
        d < 16,
    ensures
        r@ == seq![digit_char(d as nat)],
{
    proof {
        reveal_strlit("0");
        reveal_strlit("1");
        reveal_strlit("2");
        reveal_strlit("3");
        reveal_strlit("4");
        reveal_strlit("5");
        reveal_strlit("6");
        reveal_strlit("7");
        reveal_strlit("8");
        reveal_strlit("9");
        reveal_strlit("a");
        reveal_strlit("b");
        reveal_strlit("c");
        reveal_strlit("d");
        reveal_strlit("e");
        reveal_strlit("f");
    }
    let r: &'static str = match d {
        0 => "0",
        1 => "1",
        2 => "2",
        3 => "3",
        4 => "4",
        5 => "5",
        6 => "6",
        7 => "7",
        8 => "8",
        9 => "9",
        10 => "a",
        11 => "b",
        12 => "c",
        13 => "d",
        14 => "e",
        _ => "f",
    };
    assert(r@ =~= seq![digit_char(d as nat)]);
    r
}

fn write_numeral(n: u128, base: u128) -> (r: String)
    requires
        2 <= base <= 16,
    ensures
        r@ == numeral(n as nat, base as nat),
    decreases n,
{
    if n < base {
        digit_str(n).to_string()
    } else {
        proof {
            lemma_quotient_less(n as nat, base as nat);
        }
        let mut out: String = write_numeral(n / base, base);
        out.append(digit_str(n % base));
        assert(out@ =~= numeral(n as nat, base as nat));
        out
    }
}

/// `n` in lower-case hexadecimal, without leading zeros.
pub fn hex(n: u128) -> (r: String)
    ensures
        r@ == hex_text(n as nat),
{
    write_numeral(n, 16)
}

/// `n` in decimal.
pub fn decimal(n: u128) -> (r: String)
    ensures
        r@ == decimal_text(n as nat),
{
    write_numeral(n, 10)
}

/// Every character of a numeral is one of its base's digits.
pub proof fn lemma_numeral_digits(n: nat, base: nat)
    requires
        2 <= base <= 16,
    ensures
        numeral(n, base).len() > 0,
        forall|i: int|
            0 <= i < numeral(n, base).len() ==> exists|d: nat|
                d < base && #[trigger] numeral(n, base)[i] == digit_char(d),
    decreases n,
{
    if n < base {
        assert(numeral(n, base)[0] == digit_char(n));
    } else {
        lemma_quotient_less(n, base);
        lemma_numeral_digits(n / base, base);
        let s = numeral(n, base);
        let head = numeral(n / base, base);
        assert forall|i: int| 0 <= i < s.len() implies exists|d: nat|
            d < base && #[trigger] s[i] == digit_char(d) by {
            if i < head.len() {
                assert(s[i] == head[i]);
                let d = choose|d: nat| d < base && head[i] == digit_char(d);
                assert(d < base && s[i] == digit_char(d));
            } else {
                assert(s[i] == digit_char(n % base));
            }
        }
    }
}

/// Distinct numbers have distinct numerals.
pub proof fn lemma_numeral_injective(a: nat, b: nat, base: nat)
    requires
        2 <= base <= 16,
        numeral(a, base) == numeral(b, base),
    ensures
        a == b,
    decreases a,
{
    let s = numeral(a, base);
    let t = numeral(b, base);
    lemma_numeral_digits(a / base, base);
    lemma_numeral_digits(b / base, base);
    assert(s.last() == t.last());
    if a < base && b < base {
        assert(digit_char(a) == digit_char(b));
    } else if a >= base && b >= base {
        assert(s.drop_last() =~= numeral(a / base, base));
        assert(t.drop_last() =~= numeral(b / base, base));
        lemma_quotient_less(a, base);
        lemma_numeral_injective(a / base, b / base, base);
        assert(digit_char(a % base) == digit_char(b % base));
        assert(a == base * (a / base) + a % base) by (nonlinear_arith)
            requires
                base > 0,
        ;
        assert(b == base * (b / base) + b % base) by (nonlinear_arith)
            requires
                base > 0,
        ;
    } else if a < base {
        assert(s.len() == 1);
        assert(t.len() > 1);
    } else {
        assert(s.len() > 1);
        assert(t.len() == 1);
    }
}

proof fn lemma_hex_digits(n: nat, width: nat)
    requires
        1 <= width,
        n < pow256(width),
    ensures
        hex_text(n).len() <= 2 * width,
    decreases width,
{
    reveal_with_fuel(numeral, 3);
    if n >= 16 && n / 16 >= 16 {
        assert((n / 16) / 16 == n / 256);
        assert(n / 256 < pow256((width - 1) as nat)) by {
            assert(pow256(width) == 256 * pow256((width - 1) as nat));
        }
        lemma_hex_digits(n / 256, (width - 1) as nat);
    }
}

/// A 128-bit number has at most 32 hexadecimal digits.
pub proof fn lemma_hex_length(n: u128)
    ensures
        hex_text(n as nat).len() <= 32,
{
    reveal_with_fuel(pow256, 17);
    lemma_hex_digits(n as nat, 16);
}

// ---------------------------------------------------------------------------
// Joining, repeating, padding
// ---------------------------------------------------------------------------

/// The parts one after the other, with `sep` between each two.
pub open spec fn joined(parts: Seq<Seq<char>>, sep: Seq<char>) -> Seq<char>
    decreases parts.len(),
{
    if parts.len() == 0 {
        Seq::empty()
    } else if parts.len() == 1 {
        parts[0]
    } else {
        joined(parts.drop_last(), sep) + sep + parts.last()
    }
}

/// The strings one after the other, with `sep` between each two.
pub fn join(parts: &Vec<String>, sep: &str) -> (r: String)
    ensures
        r@ == joined(texts(parts@), sep@),
{
    let mut out: String = String::new();
    let mut i: usize = 0;
    while i < parts.len()
        invariant
            0 <= i <= parts@.len(),
            out@ == joined(texts(parts@).take(i as int), sep@),
        decreases parts@.len() - i,
    {
        if i > 0 {
            out.append(sep);
        }
        out.append(parts[i].as_str());
        proof {
            let all = texts(parts@);
            assert(all.take(i + 1).drop_last() =~= all.take(i as int));
            assert(out@ =~= joined(all.take(i + 1), sep@));
        }
        i = i + 1;
    }
    assert(texts(parts@).take(parts@.len() as int) =~= texts(parts@));
    out
}

/// `count` copies of `c`.
pub open spec fn repeated(c: char, count: nat) -> Seq<char> {
    Seq::new(count, |i: int| c)
}

/// `s` followed by as many spaces as it takes to make it `width` characters long.
pub open spec fn padded(s: Seq<char>, width: nat) -> Seq<char> {
    if s.len() >= width {
        s
    } else {
        s + repeated(' ', (width - s.len()) as nat)
    }
}

fn repeat(unit: &str, count: usize) -> (r: String)
    requires
        unit@.len() == 1,
    ensures
        r@ == repeated(unit@[0], count as nat),
{
    let mut out: String = String::new();
    let mut i: usize = 0;
    while i < count
        invariant
            0 <= i <= count,
            unit@.len() == 1,
            out@ =~= repeated(unit@[0], i as nat),
        decreases count - i,
    {
        out.append(unit);
        i = i + 1;
    }
    out
}

/// `count` dashes.
pub fn dashes(count: usize) -> (r: String)
    ensures
        r@ == repeated('-', count as nat),
{
    proof {
        reveal_strlit("-");
    }
    repeat("-", count)
}

/// `s` with spaces behind it up to `width` characters.
pub fn pad_right(s: &str, width: usize) -> (r: String)
    ensures
        r@ == padded(s@, width as nat),
{
    proof {
        reveal_strlit(" ");
    }
    let length: usize = s.unicode_len();
    let mut out: String = s.to_string();
    if length < width {
        let fill: String = repeat(" ", width - length);
        out.append(fill.as_str());
    }
    out
}

/// `std::string::String::push` appends a character to the end of a string.
pub assume_specification[ String::push ](text: &mut String, c: char)
    ensures
        final(text)@ == old(text)@.push(c),
;

// ---------------------------------------------------------------------------
// Splitting
// ---------------------------------------------------------------------------

/// The parts of `s` between the places where `sep` stands, empty ones among them.
pub open spec fn split<T>(s: Seq<T>, sep: T) -> Seq<Seq<T>>
    decreases s.len(),
{
    if s.len() == 0 {
        seq![Seq::<T>::empty()]
    } else {
        let before = split(s.drop_last(), sep);
        if s.last() == sep {
            before.push(Seq::<T>::empty())
        } else {
            before.drop_last().push(before.last().push(s.last()))
        }
    }
}

/// There is always at least one part.
pub proof fn lemma_split_not_empty<T>(s: Seq<T>, sep: T)
    ensures
        split(s, sep).len() >= 1,
    decreases s.len(),
{
    if s.len() > 0 {
        lemma_split_not_empty(s.drop_last(), sep);
    }
}

/// A text without the separator is its own only part.
pub proof fn lemma_split_one<T>(s: Seq<T>, sep: T)
    requires
        !s.contains(sep),
    ensures
        split(s, sep) == seq![s],
    decreases s.len(),
{
    if s.len() == 0 {
        assert(s =~= Seq::<T>::empty());
    } else {
        assert(s[s.len() - 1] == s.last());
        assert forall|i: int| 0 <= i < s.drop_last().len() implies s.drop_last()[i] != sep by {
            assert(s[i] != sep);
        }
        lemma_split_one(s.drop_last(), sep);
        assert(s.drop_last().push(s.last()) =~= s);
        assert(split(s, sep) =~= seq![s]);
    }
}

/// What stands behind the last separator is the last part.
pub proof fn lemma_split_last<T>(a: Seq<T>, sep: T, b: Seq<T>)
    requires
        !b.contains(sep),
    ensures
        split(a.push(sep) + b, sep) == split(a, sep).push(b),
    decreases b.len(),
{
    let s = a.push(sep) + b;
    if b.len() == 0 {
        assert(s =~= a.push(sep));
        assert(s.drop_last() =~= a);
        assert(b =~= Seq::<T>::empty());
    } else {
        assert(b[b.len() - 1] == b.last());
        assert forall|i: int| 0 <= i < b.drop_last().len() implies b.drop_last()[i] != sep by {
            assert(b[i] != sep);
        }
        lemma_split_last(a, sep, b.drop_last());
        assert(s.drop_last() =~= a.push(sep) + b.drop_last());
        assert(b.drop_last().push(b.last()) =~= b);
        assert(split(s, sep) =~= split(a, sep).push(b));
    }
}

/// Splitting takes joining back, as long as no part holds the separator and there is a part.
pub proof fn lemma_split_joined(parts: Seq<Seq<char>>, sep: char)
    requires
        parts.len() > 0,
        forall|i: int| 0 <= i < parts.len() ==> !(#[trigger] parts[i]).contains(sep),
    ensures
        split(joined(parts, seq![sep]), sep) == parts,
    decreases parts.len(),
{
    if parts.len() == 1 {
        lemma_split_one(parts[0], sep);
        assert(seq![parts[0]] =~= parts);
    } else {
        let rest = parts.drop_last();
        assert forall|i: int| 0 <= i < rest.len() implies !(#[trigger] rest[i]).contains(sep) by {
            assert(rest[i] == parts[i]);
        }
        lemma_split_joined(rest, sep);
        let front = joined(rest, seq![sep]);
        assert(front + seq![sep] =~= front.push(sep));
        lemma_split_last(front, sep, parts.last());
        assert(rest.push(parts.last()) =~= parts);
    }
}

/// A text has only one cut at a separator behind which the separator does not occur again.
pub proof fn lemma_last_cut_unique<T>(a1: Seq<T>, b1: Seq<T>, a2: Seq<T>, b2: Seq<T>, sep: T)
    requires
        a1.push(sep) + b1 == a2.push(sep) + b2,
        !b1.contains(sep),
        !b2.contains(sep),
    ensures
        a1 == a2,
        b1 == b2,
{
    let s1 = a1.push(sep) + b1;
    let s2 = a2.push(sep) + b2;
    assert(s1.len() == s2.len());
    if a1.len() < a2.len() {
        assert(s2[a2.len() as int] == sep);
        assert(s1[a2.len() as int] == b1[a2.len() - a1.len() - 1]);
    } else if a2.len() < a1.len() {
        assert(s1[a1.len() as int] == sep);
        assert(s2[a1.len() as int] == b2[a1.len() - a2.len() - 1]);
    }
    assert(a1 =~= s1.take(a1.len() as int));
    assert(a2 =~= s2.take(a2.len() as int));
    assert(b1 =~= s1.skip(a1.len() as int + 1));
    assert(b2 =~= s2.skip(a2.len() as int + 1));
}

// ---------------------------------------------------------------------------
// Characters
// ---------------------------------------------------------------------------

/// The characters with the Unicode property `White_Space`.
pub open spec fn is_white_space(c: char) -> bool {
    let n = c as u32;
    ||| 0x9 <= n <= 0xd
    ||| n == 0x20
    ||| n == 0x85
    ||| n == 0xa0
    ||| n == 0x1680
    ||| 0x2000 <= n <= 0x200a
    ||| n == 0x2028
    ||| n == 0x2029
    ||| n == 0x202f
    ||| n == 0x205f
    ||| n == 0x3000
}

/// Whether `c` is white space.
pub fn is_whitespace(c: char) -> (r: bool)
    ensures
        r == is_white_space(c),
{
    let n: u32 = c as u32;
    (0x9 <= n && n <= 0xd) || n == 0x20 || n == 0x85 || n == 0xa0 || n == 0x1680 || (0x2000 <= n
        && n <= 0x200a) || n == 0x2028 || n == 0x2029 || n == 0x202f || n == 0x205f || n == 0x3000
}

} // verus!
