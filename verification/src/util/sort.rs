//! Sorting what carries a name by the bytes of the name.

use crate::util::bytes::{
    lemma_lex_irreflexive, lemma_lex_total, lemma_lex_transitive, lex_lt,
};
use vstd::prelude::*;

verus! {

/// `item` put into a sorted list, behind the items whose names do not come after its own.
pub open spec fn place<T>(s: Seq<(Seq<u8>, T)>, item: (Seq<u8>, T)) -> Seq<(Seq<u8>, T)>
    decreases s.len(),
{
    if s.len() > 0 && lex_lt(item.0, s.last().0) {
        place(s.drop_last(), item).push(s.last())
    } else {
        s.push(item)
    }
}

/// The items in the order of their names; items of one name stay as they stood.
pub open spec fn by_name<T>(s: Seq<(Seq<u8>, T)>) -> Seq<(Seq<u8>, T)>
    decreases s.len(),
{
    if s.len() == 0 {
        s
    } else {
        place(by_name(s.drop_last()), s.last())
    }
}

/// No name comes before one that stands ahead of it.
pub open spec fn in_name_order<T>(s: Seq<(Seq<u8>, T)>) -> bool {
    forall|i: int, j: int| 0 <= i < j < s.len() ==> !lex_lt((#[trigger] s[j]).0, (#[trigger] s[i]).0)
}

/// Every name comes before those that stand behind it: in particular no name occurs twice.
pub open spec fn in_strict_name_order<T>(s: Seq<(Seq<u8>, T)>) -> bool {
    forall|i: int, j: int| 0 <= i < j < s.len() ==> lex_lt((#[trigger] s[i]).0, (#[trigger] s[j]).0)
}

proof fn lemma_place<T>(s: Seq<(Seq<u8>, T)>, item: (Seq<u8>, T))
    requires
        in_name_order(s),
    ensures
        in_name_order(place(s, item)),
        place(s, item).to_multiset() == s.to_multiset().insert(item),
        place(s, item).len() == s.len() + 1,
        forall|k: int|
            0 <= k < place(s, item).len() ==> (#[trigger] place(s, item)[k]) == item || exists|m: int|
                0 <= m < s.len() && s[m] == place(s, item)[k],
    decreases s.len(),
{
    broadcast use vstd::seq_lib::group_to_multiset_ensures;

    let r = place(s, item);
    if s.len() > 0 && lex_lt(item.0, s.last().0) {
        let front = s.drop_last();
        lemma_place(front, item);
        let placed = place(front, item);
        assert(r == placed.push(s.last()));
        assert(s =~= front.push(s.last()));
        assert(r.to_multiset() =~= s.to_multiset().insert(item));
        assert forall|k: int| 0 <= k < r.len() implies (#[trigger] r[k]) == item || exists|m: int|
            0 <= m < s.len() && s[m] == r[k] by {
            if k < placed.len() {
                assert(r[k] == placed[k]);
                if placed[k] != item {
                    let m = choose|m: int| 0 <= m < front.len() && front[m] == placed[k];
                    assert(s[m] == r[k]);
                }
            } else {
                assert(s[s.len() - 1] == r[k]);
            }
        }
        assert forall|i: int, j: int| 0 <= i < j < r.len() implies !lex_lt(
            (#[trigger] r[j]).0,
            (#[trigger] r[i]).0,
        ) by {
            if j == placed.len() {
                assert(r[j] == s.last());
                assert(r[i] == placed[i]);
                if placed[i] == item {
                    if lex_lt(s.last().0, item.0) {
                        lemma_lex_transitive(s.last().0, item.0, s.last().0);
                        lemma_lex_irreflexive(s.last().0);
                    }
                } else {
                    let m = choose|m: int| 0 <= m < front.len() && front[m] == placed[i];
                    assert(s[m] == placed[i]);
                    assert(s[s.len() - 1] == s.last());
                }
            } else {
                assert(r[j] == placed[j]);
                assert(r[i] == placed[i]);
            }
        }
    } else {
        assert(r == s.push(item));
        assert(r.to_multiset() =~= s.to_multiset().insert(item));
        assert forall|k: int| 0 <= k < r.len() implies (#[trigger] r[k]) == item || exists|m: int|
            0 <= m < s.len() && s[m] == r[k] by {
            if k < s.len() {
                assert(s[k] == r[k]);
            }
        }
        assert forall|i: int, j: int| 0 <= i < j < r.len() implies !lex_lt(
            (#[trigger] r[j]).0,
            (#[trigger] r[i]).0,
        ) by {
            if j == s.len() {
                assert(r[i] == s[i]);
                let top = s[s.len() - 1];
                assert(!lex_lt(item.0, top.0));
                if lex_lt(item.0, s[i].0) {
                    if i < s.len() - 1 {
                        assert(!lex_lt(top.0, s[i].0));
                        lemma_lex_total(s[i].0, top.0);
                        if lex_lt(s[i].0, top.0) {
                            lemma_lex_transitive(item.0, s[i].0, top.0);
                        }
                    }
                }
            } else {
                assert(r[i] == s[i]);
                assert(r[j] == s[j]);
            }
        }
    }
}

/// Sorting puts the names in order and keeps every item as often as it was there.
pub proof fn lemma_by_name<T>(s: Seq<(Seq<u8>, T)>)
    ensures
        in_name_order(by_name(s)),
        by_name(s).to_multiset() == s.to_multiset(),
        by_name(s).len() == s.len(),
    decreases s.len(),
{
    broadcast use vstd::seq_lib::group_to_multiset_ensures;

    if s.len() > 0 {
        lemma_by_name(s.drop_last());
        lemma_place(by_name(s.drop_last()), s.last());
        assert(s =~= s.drop_last().push(s.last()));
    }
}

/// The order in which items are handed over does not matter: if names are distinct, every
/// arrangement of the same items is sorted into the same list.
pub proof fn lemma_by_name_of_arrangement<T>(s: Seq<(Seq<u8>, T)>, ordered: Seq<(Seq<u8>, T)>)
    requires
        in_strict_name_order(ordered),
        s.to_multiset() == ordered.to_multiset(),
    ensures
        by_name(s) == ordered,
{
    lemma_by_name(s);
    lemma_same_items_in_order(by_name(s), ordered);
}

proof fn lemma_same_items_in_order<T>(a: Seq<(Seq<u8>, T)>, b: Seq<(Seq<u8>, T)>)
    requires
        in_name_order(a),
        in_strict_name_order(b),
        a.to_multiset() == b.to_multiset(),
    ensures
        a == b,
    decreases b.len(),
{
    broadcast use vstd::seq_lib::group_to_multiset_ensures;

    assert(a.len() == a.to_multiset().len());
    assert(b.len() == b.to_multiset().len());
    if b.len() == 0 {
        assert(a =~= b);
    } else {
        let x = a.last();
        let y = b.last();
        assert(a.contains(a[a.len() - 1]));
        assert(b.contains(b[b.len() - 1]));
        assert(a.to_multiset().count(x) > 0);
        assert(b.contains(x));
        assert(b.to_multiset().count(y) > 0);
        assert(a.contains(y));
        let i = choose|i: int| 0 <= i < b.len() && b[i] == x;
        let j = choose|j: int| 0 <= j < a.len() && a[j] == y;
        if i < b.len() - 1 {
            assert(lex_lt(b[i].0, b[b.len() - 1].0));
            if j < a.len() - 1 {
                assert(!lex_lt(a[a.len() - 1].0, a[j].0));
            } else {
                lemma_lex_irreflexive(x.0);
            }
        }
        assert(x == y);
        let a0 = a.drop_last();
        let b0 = b.drop_last();
        assert(a =~= a0.push(x));
        assert(b =~= b0.push(x));
        assert(a0.to_multiset() =~= b0.to_multiset()) by {
            assert(a0.to_multiset().insert(x) == b0.to_multiset().insert(x));
            assert forall|v: (Seq<u8>, T)| #[trigger] a0.to_multiset().count(v)
                == b0.to_multiset().count(v) by {
                assert(a0.to_multiset().insert(x).count(v) == b0.to_multiset().insert(x).count(v));
            }
        }
        assert forall|i: int, j: int| 0 <= i < j < a0.len() implies !lex_lt(
            (#[trigger] a0[j]).0,
            (#[trigger] a0[i]).0,
        ) by {
            assert(a0[i] == a[i]);
            assert(a0[j] == a[j]);
        }
        assert forall|i: int, j: int| 0 <= i < j < b0.len() implies lex_lt(
            (#[trigger] b0[i]).0,
            (#[trigger] b0[j]).0,
        ) by {
            assert(b0[i] == b[i]);
            assert(b0[j] == b[j]);
        }
        lemma_same_items_in_order(a0, b0);
    }
}

/// Putting an item in its place is inserting it behind the last item whose name does not come
/// after its own.
pub proof fn lemma_place_is_insert<T>(s: Seq<(Seq<u8>, T)>, item: (Seq<u8>, T), at: int)
    requires
        0 <= at <= s.len(),
        forall|k: int| at <= k < s.len() ==> lex_lt(item.0, (#[trigger] s[k]).0),
        at > 0 ==> !lex_lt(item.0, s[at - 1].0),
    ensures
        place(s, item) == s.insert(at, item),
    decreases s.len(),
{
    if at == s.len() {
        assert(s.insert(at, item) =~= s.push(item));
    } else {
        assert(lex_lt(item.0, s[s.len() - 1].0));
        let front = s.drop_last();
        assert forall|k: int| at <= k < front.len() implies lex_lt(item.0, (#[trigger] front[k]).0) by {
            assert(front[k] == s[k]);
        }
        lemma_place_is_insert(front, item, at);
        assert(front.insert(at, item).push(s.last()) =~= s.insert(at, item));
    }
}

} // verus!
