//! The byte forms in which values are fed to a hasher.
//!
//! Integers are fed in their full width, lowest byte first; lengths and the numbers of variants
//! as 64-bit integers; a text as its UTF-8 bytes and then the byte 255, which no text holds; a
//! list as its length and then its items; a map or set as the list of its entries in their order.

use crate::util::bytes::{le_bytes, to_le_bytes};
use crate::util::names::{NameMap, NameSet};
use crate::util::xxh3::{xxh3_fed, Xxh3Hasher};
use vstd::prelude::*;
use vstd::utf8::encode_utf8;

verus! {

/// The byte form of a 64-bit integer, a length or the number of a variant.
pub open spec fn enc_u64(n: nat) -> Seq<u8> {
    le_bytes(n, 8)
}

/// The byte form of a 128-bit integer.
pub open spec fn enc_u128(n: u128) -> Seq<u8> {
    le_bytes(n as nat, 16)
}

/// The byte form of a text.
pub open spec fn enc_text(s: Seq<char>) -> Seq<u8> {
    encode_utf8(s).push(255)
}

/// The byte forms of texts, one after the other.
pub open spec fn enc_each_text(s: Seq<String>) -> Seq<u8>
    decreases s.len(),
{
    if s.len() == 0 {
        Seq::empty()
    } else {
        enc_each_text(s.drop_last()) + enc_text(s.last()@)
    }
}

/// The byte form of a list of texts.
pub open spec fn enc_texts(s: Seq<String>) -> Seq<u8> {
    enc_u64(s.len()) + enc_each_text(s)
}

/// The byte forms of entries of a map from names to texts, one after the other.
pub open spec fn enc_each_entry(s: Seq<(String, String)>) -> Seq<u8>
    decreases s.len(),
{
    if s.len() == 0 {
        Seq::empty()
    } else {
        enc_each_entry(s.drop_last()) + (enc_text(s.last().0@) + enc_text(s.last().1@))
    }
}

/// The byte form of a map from names to texts.
pub open spec fn enc_env(map: NameMap<String>) -> Seq<u8> {
    enc_u64(map.entries@.len()) + enc_each_entry(map.entries@)
}

/// The byte form of a set of names.
pub open spec fn enc_names(set: NameSet) -> Seq<u8> {
    enc_texts(set.names@)
}

/// Feeds bytes as they are.
pub fn feed_bytes(hasher: &mut Xxh3Hasher, bytes: &[u8])
    ensures
        xxh3_fed(*final(hasher)) == xxh3_fed(*old(hasher)) + bytes@,
{
    hasher.update(bytes);
}

/// Feeds one byte.
pub fn feed_u8(hasher: &mut Xxh3Hasher, b: u8)
    ensures
        xxh3_fed(*final(hasher)) == xxh3_fed(*old(hasher)).push(b),
{
    let mut one: Vec<u8> = Vec::new();
    one.push(b);
    hasher.update(one.as_slice());
    assert(xxh3_fed(*hasher) =~= xxh3_fed(*old(hasher)).push(b));
}

/// Feeds a 64-bit integer.
pub fn feed_u64(hasher: &mut Xxh3Hasher, n: u64)
    ensures
        xxh3_fed(*final(hasher)) == xxh3_fed(*old(hasher)) + enc_u64(n as nat),
{
    let bytes: Vec<u8> = to_le_bytes(n as u128, 8);
    hasher.update(bytes.as_slice());
}

/// Feeds a 128-bit integer.
pub fn feed_u128(hasher: &mut Xxh3Hasher, n: u128)
    ensures
        xxh3_fed(*final(hasher)) == xxh3_fed(*old(hasher)) + enc_u128(n),
{
    let bytes: Vec<u8> = to_le_bytes(n, 16);
    hasher.update(bytes.as_slice());
}

/// Feeds a text.
pub fn feed_text(hasher: &mut Xxh3Hasher, s: &str)
    ensures
        xxh3_fed(*final(hasher)) == xxh3_fed(*old(hasher)) + enc_text(s@),
{
    hasher.update(s.as_bytes());
    feed_u8(hasher, 255);
    assert(xxh3_fed(*hasher) =~= xxh3_fed(*old(hasher)) + enc_text(s@));
}

/// Feeds a list of texts.
pub fn feed_texts(hasher: &mut Xxh3Hasher, list: &Vec<String>)
    ensures
        xxh3_fed(*final(hasher)) == xxh3_fed(*old(hasher)) + enc_texts(list@),
{
    let ghost start = xxh3_fed(*hasher);
    feed_u64(hasher, list.len() as u64);
    let ghost base = xxh3_fed(*hasher);
    let mut i: usize = 0;
    assert(enc_each_text(list@.take(0)) =~= Seq::<u8>::empty());
    assert(xxh3_fed(*hasher) =~= base + enc_each_text(list@.take(0)));
    while i < list.len()
        invariant
            0 <= i <= list@.len(),
            xxh3_fed(*hasher) == base + enc_each_text(list@.take(i as int)),
        decreases list@.len() - i,
    {
        feed_text(hasher, list[i].as_str());
        assert(list@.take(i + 1).drop_last() =~= list@.take(i as int));
        assert(xxh3_fed(*hasher) =~= base + enc_each_text(list@.take(i + 1)));
        i = i + 1;
    }
    assert(list@.take(list@.len() as int) =~= list@);
    assert(xxh3_fed(*hasher) =~= start + enc_texts(list@));
}

/// Feeds a map from names to texts.
pub fn feed_env(hasher: &mut Xxh3Hasher, map: &NameMap<String>)
    ensures
        xxh3_fed(*final(hasher)) == xxh3_fed(*old(hasher)) + enc_env(*map),
{
    let ghost start = xxh3_fed(*hasher);
    let ghost all = map.entries@;
    feed_u64(hasher, map.entries.len() as u64);
    let ghost base = xxh3_fed(*hasher);
    let mut i: usize = 0;
    assert(enc_each_entry(all.take(0)) =~= Seq::<u8>::empty());
    assert(xxh3_fed(*hasher) =~= base + enc_each_entry(all.take(0)));
    while i < map.entries.len()
        invariant
            all == map.entries@,
            0 <= i <= all.len(),
            xxh3_fed(*hasher) == base + enc_each_entry(all.take(i as int)),
        decreases all.len() - i,
    {
        feed_text(hasher, map.entries[i].0.as_str());
        feed_text(hasher, map.entries[i].1.as_str());
        assert(all.take(i + 1).drop_last() =~= all.take(i as int));
        assert(xxh3_fed(*hasher) =~= base + enc_each_entry(all.take(i + 1)));
        i = i + 1;
    }
    assert(all.take(all.len() as int) =~= all);
    assert(xxh3_fed(*hasher) =~= start + enc_env(*map));
}

/// Feeds a set of names.
pub fn feed_names(hasher: &mut Xxh3Hasher, set: &NameSet)
    ensures
        xxh3_fed(*final(hasher)) == xxh3_fed(*old(hasher)) + enc_names(*set),
{
    feed_texts(hasher, &set.names);
}

} // verus!
