//! The byte forms that are fed to hashers are unambiguous: where one form stands before something
//! else, it can be told where the form ends, and what value it is the form of. So different values
//! are fed as different bytes, and can share a hash only if two byte strings do.

use crate::util::bytes::{
    lemma_le_bytes_len, lemma_le_u128_injective, lemma_le_u64_injective,
};
use crate::util::feed::{
    enc_each_entry, enc_each_text, enc_env, enc_names, enc_text, enc_texts, enc_u128, enc_u64,
};
use crate::util::names::{NameMap, NameSet};
use crate::util::text::{lemma_utf8_injective, texts};
use vstd::prelude::*;
use vstd::utf8::*;

verus! {

/// Two strings of the same length in front of others can be told from the others.
pub proof fn lemma_cut_by_length<T>(a: Seq<T>, x: Seq<T>, b: Seq<T>, y: Seq<T>)
    requires
        a.len() == b.len(),
        a + x == b + y,
    ensures
        a == b,
        x == y,
{
    assert(a =~= (a + x).take(a.len() as int));
    assert(b =~= (b + y).take(b.len() as int));
    assert(x =~= (a + x).skip(a.len() as int));
    assert(y =~= (b + y).skip(b.len() as int));
}

proof fn lemma_regroup(a: Seq<u8>, b: Seq<u8>, c: Seq<u8>)
    ensures
        (a + b) + c == a + (b + c),
{
    assert((a + b) + c =~= a + (b + c));
}

/// 4 strings one after the other, grouped from the other end.
pub proof fn lemma_regroup_4(
    s0: Seq<u8>,
    s1: Seq<u8>,
    s2: Seq<u8>,
    s3: Seq<u8>,
)
    ensures
        s0 + s1 + s2 + s3 == s0 + (s1 + (s2 + (s3 + Seq::<u8>::empty()))),
{
    let r3 = s3 + Seq::<u8>::empty();
    assert(r3 =~= s3);
    let r2 = s2 + r3;
    lemma_regroup(s0 + s1, s2, r3);
    let r1 = s1 + r2;
    lemma_regroup(s0, s1, r2);
}

/// 5 strings one after the other, grouped from the other end.
pub proof fn lemma_regroup_5(
    s0: Seq<u8>,
    s1: Seq<u8>,
    s2: Seq<u8>,
    s3: Seq<u8>,
    s4: Seq<u8>,
)
    ensures
        s0 + s1 + s2 + s3 + s4 == s0 + (s1 + (s2 + (s3 + (s4 + Seq::<u8>::empty())))),
{
    let r4 = s4 + Seq::<u8>::empty();
    assert(r4 =~= s4);
    let r3 = s3 + r4;
    lemma_regroup(s0 + s1 + s2, s3, r4);
    let r2 = s2 + r3;
    lemma_regroup(s0 + s1, s2, r3);
    let r1 = s1 + r2;
    lemma_regroup(s0, s1, r2);
}

/// 7 strings one after the other, grouped from the other end.
pub proof fn lemma_regroup_7(
    s0: Seq<u8>,
    s1: Seq<u8>,
    s2: Seq<u8>,
    s3: Seq<u8>,
    s4: Seq<u8>,
    s5: Seq<u8>,
    s6: Seq<u8>,
)
    ensures
        s0 + s1 + s2 + s3 + s4 + s5 + s6 == s0 + (s1 + (s2 + (s3 + (s4 + (s5 + (s6 + Seq::<u8>::empty())))))),
{
    let r6 = s6 + Seq::<u8>::empty();
    assert(r6 =~= s6);
    let r5 = s5 + r6;
    lemma_regroup(s0 + s1 + s2 + s3 + s4, s5, r6);
    let r4 = s4 + r5;
    lemma_regroup(s0 + s1 + s2 + s3, s4, r5);
    let r3 = s3 + r4;
    lemma_regroup(s0 + s1 + s2, s3, r4);
    let r2 = s2 + r3;
    lemma_regroup(s0 + s1, s2, r3);
    let r1 = s1 + r2;
    lemma_regroup(s0, s1, r2);
}

/// 10 strings one after the other, grouped from the other end.
pub proof fn lemma_regroup_10(
    s0: Seq<u8>,
    s1: Seq<u8>,
    s2: Seq<u8>,
    s3: Seq<u8>,
    s4: Seq<u8>,
    s5: Seq<u8>,
    s6: Seq<u8>,
    s7: Seq<u8>,
    s8: Seq<u8>,
    s9: Seq<u8>,
)
    ensures
        s0 + s1 + s2 + s3 + s4 + s5 + s6 + s7 + s8 + s9 == s0 + (s1 + (s2 + (s3 + (s4 + (s5 + (s6 + (s7 + (s8 + (s9 + Seq::<u8>::empty()))))))))),
{
    let r9 = s9 + Seq::<u8>::empty();
    assert(r9 =~= s9);
    let r8 = s8 + r9;
    lemma_regroup(s0 + s1 + s2 + s3 + s4 + s5 + s6 + s7, s8, r9);
    let r7 = s7 + r8;
    lemma_regroup(s0 + s1 + s2 + s3 + s4 + s5 + s6, s7, r8);
    let r6 = s6 + r7;
    lemma_regroup(s0 + s1 + s2 + s3 + s4 + s5, s6, r7);
    let r5 = s5 + r6;
    lemma_regroup(s0 + s1 + s2 + s3 + s4, s5, r6);
    let r4 = s4 + r5;
    lemma_regroup(s0 + s1 + s2 + s3, s4, r5);
    let r3 = s3 + r4;
    lemma_regroup(s0 + s1 + s2, s3, r4);
    let r2 = s2 + r3;
    lemma_regroup(s0 + s1, s2, r3);
    let r1 = s1 + r2;
    lemma_regroup(s0, s1, r2);
}

/// The forms of 64-bit numbers are unambiguous.
pub proof fn lemma_u64_cut(m: u64, x: Seq<u8>, n: u64, y: Seq<u8>)
    requires
        enc_u64(m as nat) + x == enc_u64(n as nat) + y,
    ensures
        m == n,
        x == y,
{
    lemma_le_bytes_len(m as nat, 8);
    lemma_le_bytes_len(n as nat, 8);
    lemma_cut_by_length(enc_u64(m as nat), x, enc_u64(n as nat), y);
    lemma_le_u64_injective(m, n);
}

/// The forms of 128-bit numbers are unambiguous.
pub proof fn lemma_u128_cut(m: u128, x: Seq<u8>, n: u128, y: Seq<u8>)
    requires
        enc_u128(m) + x == enc_u128(n) + y,
    ensures
        m == n,
        x == y,
{
    lemma_le_bytes_len(m as nat, 16);
    lemma_le_bytes_len(n as nat, 16);
    lemma_cut_by_length(enc_u128(m), x, enc_u128(n), y);
    lemma_le_u128_injective(m, n);
}

proof fn lemma_scalar_is_below_255(c: u32)
    by (bit_vector)
    ensures
        c <= 0x7f ==> (c & 0x7f) as u8 != 255,
        (0xC0u8 | ((c >> 6) & 0x1F) as u8) != 255,
        (0xE0u8 | ((c >> 12) & 0x0F) as u8) != 255,
        (0xF0u8 | ((c >> 18) & 0x7) as u8) != 255,
        (0x80u8 | (c & 0x3F) as u8) != 255,
        (0x80u8 | ((c >> 6) & 0x3F) as u8) != 255,
        (0x80u8 | ((c >> 12) & 0x3F) as u8) != 255,
{
}

/// The byte that ends the form of a text occurs in no text.
pub proof fn lemma_text_has_no_end_byte(s: Seq<char>)
    ensures
        !encode_utf8(s).contains(255),
    decreases s.len(),
{
    if s.len() > 0 {
        lemma_text_has_no_end_byte(s.drop_first());
        let first = encode_scalar(s[0] as u32);
        let rest = encode_utf8(s.drop_first());
        lemma_scalar_is_below_255(s[0] as u32);
        assert forall|i: int| 0 <= i < encode_utf8(s).len() implies encode_utf8(s)[i] != 255 by {
            if i < first.len() {
                assert(encode_utf8(s)[i] == first[i]);
            } else {
                assert(encode_utf8(s)[i] == rest[i - first.len()]);
            }
        }
    }
}

/// The forms of texts are unambiguous.
pub proof fn lemma_text_cut(a: Seq<char>, x: Seq<u8>, b: Seq<char>, y: Seq<u8>)
    requires
        enc_text(a) + x == enc_text(b) + y,
    ensures
        a == b,
        x == y,
{
    let ea = encode_utf8(a);
    let eb = encode_utf8(b);
    lemma_text_has_no_end_byte(a);
    lemma_text_has_no_end_byte(b);
    let left = enc_text(a) + x;
    let right = enc_text(b) + y;
    if ea.len() < eb.len() {
        assert(left[ea.len() as int] == 255);
        assert(right[ea.len() as int] == eb[ea.len() as int]);
    } else if eb.len() < ea.len() {
        assert(right[eb.len() as int] == 255);
        assert(left[eb.len() as int] == ea[eb.len() as int]);
    }
    lemma_cut_by_length(enc_text(a), x, enc_text(b), y);
    assert(ea =~= enc_text(a).drop_last());
    assert(eb =~= enc_text(b).drop_last());
    lemma_utf8_injective(a, b);
}

proof fn lemma_each_text_cut(s: Seq<String>, x: Seq<u8>, t: Seq<String>, y: Seq<u8>)
    requires
        s.len() == t.len(),
        enc_each_text(s) + x == enc_each_text(t) + y,
    ensures
        texts(s) == texts(t),
        x == y,
    decreases s.len(),
{
    if s.len() == 0 {
        assert(enc_each_text(s) + x =~= x);
        assert(enc_each_text(t) + y =~= y);
        assert(texts(s) =~= texts(t));
    } else {
        let x1 = enc_text(s.last()@) + x;
        let y1 = enc_text(t.last()@) + y;
        assert(enc_each_text(s) + x =~= enc_each_text(s.drop_last()) + x1);
        assert(enc_each_text(t) + y =~= enc_each_text(t.drop_last()) + y1);
        lemma_each_text_cut(s.drop_last(), x1, t.drop_last(), y1);
        lemma_text_cut(s.last()@, x, t.last()@, y);
        assert(texts(s) =~= texts(s.drop_last()).push(s.last()@));
        assert(texts(t) =~= texts(t.drop_last()).push(t.last()@));
    }
}

/// The forms of lists of texts are unambiguous.
pub proof fn lemma_texts_cut(s: Vec<String>, x: Seq<u8>, t: Vec<String>, y: Seq<u8>)
    requires
        enc_texts(s@) + x == enc_texts(t@) + y,
    ensures
        texts(s@) == texts(t@),
        x == y,
{
    let m = s.len() as u64;
    let n = t.len() as u64;
    assert(enc_texts(s@) + x =~= enc_u64(m as nat) + (enc_each_text(s@) + x));
    assert(enc_texts(t@) + y =~= enc_u64(n as nat) + (enc_each_text(t@) + y));
    lemma_u64_cut(m, enc_each_text(s@) + x, n, enc_each_text(t@) + y);
    lemma_each_text_cut(s@, x, t@, y);
}

/// The forms of sets of names are unambiguous.
pub proof fn lemma_names_cut(a: NameSet, x: Seq<u8>, b: NameSet, y: Seq<u8>)
    requires
        enc_names(a) + x == enc_names(b) + y,
    ensures
        texts(a.names@) == texts(b.names@),
        x == y,
{
    lemma_texts_cut(a.names, x, b.names, y);
}

/// The entries of a map by their texts.
pub open spec fn entry_texts(s: Seq<(String, String)>) -> Seq<(Seq<char>, Seq<char>)> {
    s.map_values(|e: (String, String)| (e.0@, e.1@))
}

proof fn lemma_each_entry_cut(
    s: Seq<(String, String)>,
    x: Seq<u8>,
    t: Seq<(String, String)>,
    y: Seq<u8>,
)
    requires
        s.len() == t.len(),
        enc_each_entry(s) + x == enc_each_entry(t) + y,
    ensures
        entry_texts(s) == entry_texts(t),
        x == y,
    decreases s.len(),
{
    if s.len() == 0 {
        assert(enc_each_entry(s) + x =~= x);
        assert(enc_each_entry(t) + y =~= y);
        assert(entry_texts(s) =~= entry_texts(t));
    } else {
        let x2 = enc_text(s.last().1@) + x;
        let y2 = enc_text(t.last().1@) + y;
        let x1 = enc_text(s.last().0@) + x2;
        let y1 = enc_text(t.last().0@) + y2;
        assert(enc_each_entry(s) + x =~= enc_each_entry(s.drop_last()) + x1);
        assert(enc_each_entry(t) + y =~= enc_each_entry(t.drop_last()) + y1);
        lemma_each_entry_cut(s.drop_last(), x1, t.drop_last(), y1);
        lemma_text_cut(s.last().0@, x2, t.last().0@, y2);
        lemma_text_cut(s.last().1@, x, t.last().1@, y);
        assert(entry_texts(s) =~= entry_texts(s.drop_last()).push((s.last().0@, s.last().1@)));
        assert(entry_texts(t) =~= entry_texts(t.drop_last()).push((t.last().0@, t.last().1@)));
    }
}

/// The forms of maps from names to texts are unambiguous.
pub proof fn lemma_env_cut(a: NameMap<String>, x: Seq<u8>, b: NameMap<String>, y: Seq<u8>)
    requires
        enc_env(a) + x == enc_env(b) + y,
    ensures
        entry_texts(a.entries@) == entry_texts(b.entries@),
        x == y,
{
    let m = a.entries.len() as u64;
    let n = b.entries.len() as u64;
    assert(enc_env(a) + x =~= enc_u64(m as nat) + (enc_each_entry(a.entries@) + x));
    assert(enc_env(b) + y =~= enc_u64(n as nat) + (enc_each_entry(b.entries@) + y));
    lemma_u64_cut(m, enc_each_entry(a.entries@) + x, n, enc_each_entry(b.entries@) + y);
    lemma_each_entry_cut(a.entries@, x, b.entries@, y);
}

// ---------------------------------------------------------------------------
// The same things have the same form
// ---------------------------------------------------------------------------

/// Lists of the same texts have the same form.
pub proof fn lemma_texts_by_texts(s: Seq<String>, t: Seq<String>)
    requires
        texts(s) == texts(t),
    ensures
        enc_each_text(s) == enc_each_text(t),
        enc_texts(s) == enc_texts(t),
    decreases s.len(),
{
    assert(texts(s).len() == s.len());
    assert(texts(t).len() == t.len());
    if s.len() > 0 {
        assert(texts(s.drop_last()) =~= texts(s).drop_last());
        assert(texts(t.drop_last()) =~= texts(t).drop_last());
        lemma_texts_by_texts(s.drop_last(), t.drop_last());
        assert(texts(s).last() == s.last()@);
        assert(texts(t).last() == t.last()@);
    }
}

proof fn lemma_each_entry_by_texts(s: Seq<(String, String)>, t: Seq<(String, String)>)
    requires
        entry_texts(s) == entry_texts(t),
    ensures
        s.len() == t.len(),
        enc_each_entry(s) == enc_each_entry(t),
    decreases s.len(),
{
    assert(entry_texts(s).len() == s.len());
    assert(entry_texts(t).len() == t.len());
    if s.len() > 0 {
        assert(entry_texts(s.drop_last()) =~= entry_texts(s).drop_last());
        assert(entry_texts(t.drop_last()) =~= entry_texts(t).drop_last());
        lemma_each_entry_by_texts(s.drop_last(), t.drop_last());
        assert(entry_texts(s).last() == (s.last().0@, s.last().1@));
        assert(entry_texts(t).last() == (t.last().0@, t.last().1@));
    }
}

/// Maps of the same names to the same texts have the same form.
pub proof fn lemma_env_by_texts(a: NameMap<String>, b: NameMap<String>)
    requires
        entry_texts(a.entries@) == entry_texts(b.entries@),
    ensures
        enc_env(a) == enc_env(b),
{
    lemma_each_entry_by_texts(a.entries@, b.entries@);
}

} // verus!
