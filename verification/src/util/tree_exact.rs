//! The bytes that a walk over a directory tree feeds tell what is in the tree: different trees are
//! fed as different bytes.

use crate::util::bytes::{lemma_lex_irreflexive, lex_lt};
use crate::util::feed::enc_u64;
use crate::util::hash::{child_path, enc_header, kind_tag, EntryKind};
use crate::util::path::SEPARATOR;
use crate::util::sort::in_strict_name_order;
use crate::util::tree::{are_trees, enc_entries, enc_node, is_tree, kind_of, Node};
use crate::util::unambiguous::{lemma_cut_by_length, lemma_u64_cut};
use vstd::prelude::*;

verus! {

// ---------------------------------------------------------------------------
// A tree as a list
// ---------------------------------------------------------------------------

/// An entry of a tree by its path from the top: its kind, and the target of a link or the bytes of
/// a file.
#[verifier::ext_equal]
pub struct Item {
    pub path: Seq<u8>,
    pub kind: EntryKind,
    pub blob: Option<Seq<u8>>,
}

/// What a node holds itself.
pub open spec fn blob_of(node: Node) -> Option<Seq<u8>> {
    match node {
        Node::Symlink(target) => Some(target),
        Node::File(_, bytes) => Some(bytes),
        _ => None,
    }
}

/// A node at a path, and all that is below it.
pub open spec fn flat_node(path: Seq<u8>, node: Node) -> Seq<Item>
    decreases node, 1nat,
{
    let own = seq![Item { path, kind: kind_of(node), blob: blob_of(node) }];
    match node {
        Node::Directory(entries) => own + flat(path, entries),
        _ => own,
    }
}

/// The entries of a directory at a path, and all that is below them.
pub open spec fn flat(dir: Seq<u8>, entries: Seq<(Seq<u8>, Node)>) -> Seq<Item>
    decreases entries, 0nat,
{
    if entries.len() == 0 {
        Seq::empty()
    } else {
        flat(dir, entries.drop_last()) + flat_node(
            child_path(dir, entries.last().0),
            entries.last().1,
        )
    }
}

/// The bytes of an item.
pub open spec fn enc_item(item: Item) -> Seq<u8> {
    enc_header(kind_tag(item.kind), item.path) + match item.blob {
        None => Seq::empty(),
        Some(blob) => enc_u64(blob.len()) + blob,
    }
}

/// The bytes of items, one after the other.
pub open spec fn enc_items(items: Seq<Item>) -> Seq<u8>
    decreases items.len(),
{
    if items.len() == 0 {
        Seq::empty()
    } else {
        enc_items(items.drop_last()) + enc_item(items.last())
    }
}

/// A node is as a file system holds it: names are not empty and hold no separator, and files are as
/// large as they say.
pub open spec fn is_real(node: Node) -> bool
    decreases node, 0nat,
{
    match node {
        Node::Directory(entries) => are_real(entries),
        Node::Symlink(target) => target.len() <= u64::MAX,
        Node::File(size, bytes) => size == bytes.len(),
        Node::Special(_) => true,
    }
}

/// All of the entries are as a file system holds them.
pub open spec fn are_real(s: Seq<(Seq<u8>, Node)>) -> bool
    decreases s, 0nat,
{
    if s.len() == 0 {
        true
    } else {
        &&& are_real(s.drop_last())
        &&& is_real(s.last().1)
        &&& s.last().0.len() > 0
        &&& !s.last().0.contains(SEPARATOR)
    }
}

/// An item can be fed: its lengths are 64-bit numbers, and it holds something just when its kind
/// says so.
pub open spec fn fits(item: Item) -> bool {
    &&& item.path.len() <= u64::MAX
    &&& item.blob is Some <==> (item.kind == EntryKind::Symlink || item.kind == EntryKind::File)
    &&& item.blob matches Some(blob) ==> blob.len() <= u64::MAX
}

proof fn lemma_are_real(s: Seq<(Seq<u8>, Node)>, i: int)
    requires
        are_real(s),
        0 <= i < s.len(),
    ensures
        is_real(s[i].1),
        s[i].0.len() > 0,
        !s[i].0.contains(SEPARATOR),
    decreases s.len(),
{
    if i < s.len() - 1 {
        lemma_are_real(s.drop_last(), i);
    }
}

proof fn lemma_are_real_skip(s: Seq<(Seq<u8>, Node)>)
    requires
        are_real(s),
        s.len() > 0,
    ensures
        are_real(s.skip(1)),
    decreases s.len(),
{
    if s.len() > 1 {
        lemma_are_real_skip(s.drop_last());
        assert(s.skip(1).drop_last() =~= s.drop_last().skip(1));
    }
}

proof fn lemma_are_trees_skip(s: Seq<(Seq<u8>, Node)>)
    requires
        are_trees(s),
        s.len() > 0,
    ensures
        are_trees(s.skip(1)),
        is_tree(s[0].1),
    decreases s.len(),
{
    if s.len() > 1 {
        lemma_are_trees_skip(s.drop_last());
        assert(s.skip(1).drop_last() =~= s.drop_last().skip(1));
    }
}

// ---------------------------------------------------------------------------
// The bytes are those of the list
// ---------------------------------------------------------------------------

proof fn lemma_enc_items_concat(a: Seq<Item>, b: Seq<Item>)
    ensures
        enc_items(a + b) == enc_items(a) + enc_items(b),
    decreases b.len(),
{
    if b.len() == 0 {
        assert(a + b =~= a);
        assert(enc_items(a) + enc_items(b) =~= enc_items(a));
    } else {
        lemma_enc_items_concat(a, b.drop_last());
        assert((a + b).drop_last() =~= a + b.drop_last());
        assert(enc_items(a + b) =~= enc_items(a) + enc_items(b));
    }
}

proof fn lemma_enc_one_item(item: Item)
    ensures
        enc_items(seq![item]) == enc_item(item),
{
    reveal_with_fuel(enc_items, 2);
    assert(seq![item].drop_last() =~= Seq::<Item>::empty());
    assert(enc_items(seq![item]) =~= enc_item(item));
}

proof fn lemma_node_bytes(path: Seq<u8>, node: Node)
    requires
        is_real(node),
    ensures
        enc_node(path, node) == enc_items(flat_node(path, node)),
    decreases node, 1nat,
{
    let own = Item { path, kind: kind_of(node), blob: blob_of(node) };
    lemma_enc_one_item(own);
    match node {
        Node::Directory(entries) => {
            lemma_entries_bytes(path, entries);
            lemma_enc_items_concat(seq![own], flat(path, entries));
            assert(enc_item(own) =~= enc_header(kind_tag(kind_of(node)), path));
        },
        Node::Symlink(target) => {},
        Node::File(size, bytes) => {},
        Node::Special(kind) => {},
    }
    assert(enc_node(path, node) =~= enc_items(flat_node(path, node)));
}

proof fn lemma_entries_bytes(dir: Seq<u8>, entries: Seq<(Seq<u8>, Node)>)
    requires
        are_real(entries),
    ensures
        enc_entries(dir, entries) == enc_items(flat(dir, entries)),
    decreases entries, 0nat,
{
    if entries.len() > 0 {
        let path = child_path(dir, entries.last().0);
        lemma_entries_bytes(dir, entries.drop_last());
        lemma_node_bytes(path, entries.last().1);
        lemma_enc_items_concat(flat(dir, entries.drop_last()), flat_node(path, entries.last().1));
    }
}

// ---------------------------------------------------------------------------
// The bytes tell the list
// ---------------------------------------------------------------------------

proof fn lemma_item_cut(i: Item, x: Seq<u8>, j: Item, y: Seq<u8>)
    requires
        fits(i),
        fits(j),
        enc_item(i) + x == enc_item(j) + y,
    ensures
        i == j,
        x == y,
{
    let bi = match i.blob {
        None => x,
        Some(blob) => enc_u64(blob.len()) + (blob + x),
    };
    let bj = match j.blob {
        None => y,
        Some(blob) => enc_u64(blob.len()) + (blob + y),
    };
    let pi = enc_u64(i.path.len()) + (i.path + bi);
    let pj = enc_u64(j.path.len()) + (j.path + bj);
    assert(enc_item(i) + x =~= seq![kind_tag(i.kind)] + pi);
    assert(enc_item(j) + y =~= seq![kind_tag(j.kind)] + pj);
    lemma_cut_by_length(seq![kind_tag(i.kind)], pi, seq![kind_tag(j.kind)], pj);
    assert(seq![kind_tag(i.kind)][0] == seq![kind_tag(j.kind)][0]);
    assert(i.kind == j.kind);
    lemma_u64_cut(i.path.len() as u64, i.path + bi, j.path.len() as u64, j.path + bj);
    lemma_cut_by_length(i.path, bi, j.path, bj);
    if let (Some(a), Some(b)) = (i.blob, j.blob) {
        lemma_u64_cut(a.len() as u64, a + x, b.len() as u64, b + y);
        lemma_cut_by_length(a, x, b, y);
    }
}

proof fn lemma_enc_items_first(items: Seq<Item>)
    requires
        items.len() > 0,
    ensures
        enc_items(items) == enc_item(items[0]) + enc_items(items.skip(1)),
{
    lemma_enc_one_item(items[0]);
    lemma_enc_items_concat(seq![items[0]], items.skip(1));
    assert(items =~= seq![items[0]] + items.skip(1));
}

proof fn lemma_items_exact(s: Seq<Item>, t: Seq<Item>)
    requires
        forall|i: int| 0 <= i < s.len() ==> fits(#[trigger] s[i]),
        forall|i: int| 0 <= i < t.len() ==> fits(#[trigger] t[i]),
        enc_items(s) == enc_items(t),
    ensures
        s == t,
    decreases s.len(),
{
    if s.len() > 0 {
        lemma_enc_items_first(s);
    }
    if t.len() > 0 {
        lemma_enc_items_first(t);
    }
    if s.len() == 0 || t.len() == 0 {
        assert(s =~= t);
    } else {
        lemma_item_cut(s[0], enc_items(s.skip(1)), t[0], enc_items(t.skip(1)));
        assert forall|i: int| 0 <= i < s.skip(1).len() implies fits(#[trigger] s.skip(1)[i]) by {
            assert(s.skip(1)[i] == s[i + 1]);
        }
        assert forall|i: int| 0 <= i < t.skip(1).len() implies fits(#[trigger] t.skip(1)[i]) by {
            assert(t.skip(1)[i] == t[i + 1]);
        }
        lemma_items_exact(s.skip(1), t.skip(1));
        assert(s =~= seq![s[0]] + s.skip(1));
        assert(t =~= seq![t[0]] + t.skip(1));
    }
}

// ---------------------------------------------------------------------------
// The list tells the tree
// ---------------------------------------------------------------------------

/// A path leads to something below another one.
pub open spec fn is_below(top: Seq<u8>, path: Seq<u8>) -> bool {
    &&& path.len() > top.len()
    &&& path.take(top.len() as int) == top
    &&& path[top.len() as int] == SEPARATOR
}

proof fn lemma_child_is_below(dir: Seq<u8>, name: Seq<u8>)
    requires
        dir.len() > 0,
    ensures
        is_below(dir, child_path(dir, name)),
{
    assert(child_path(dir, name).take(dir.len() as int) =~= dir);
}

proof fn lemma_below_transitive(a: Seq<u8>, b: Seq<u8>, c: Seq<u8>)
    requires
        is_below(a, b),
        is_below(b, c),
    ensures
        is_below(a, c),
{
    assert(c.take(a.len() as int) =~= c.take(b.len() as int).take(a.len() as int));
    assert(c[a.len() as int] == c.take(b.len() as int)[a.len() as int]);
}

/// An item is one of the entries of a directory or below one.
pub open spec fn is_at_entry(dir: Seq<u8>, entries: Seq<(Seq<u8>, Node)>, path: Seq<u8>) -> bool {
    exists|k: int|
        0 <= k < entries.len() && is_at_or_below(
            child_path(dir, (#[trigger] entries[k]).0),
            path,
        )
}

/// A path leads to a place or below it.
pub open spec fn is_at_or_below(top: Seq<u8>, path: Seq<u8>) -> bool {
    path == top || is_below(top, path)
}

proof fn lemma_node_paths(path: Seq<u8>, node: Node, i: int)
    requires
        path.len() > 0,
        0 <= i < flat_node(path, node).len(),
    ensures
        is_at_or_below(path, flat_node(path, node)[i].path),
    decreases node, 1nat,
{
    if i > 0 {
        if let Node::Directory(entries) = node {
            lemma_entry_paths(path, entries, i - 1);
            let below = flat(path, entries)[i - 1].path;
            let k = choose|k: int|
                0 <= k < entries.len() && is_at_or_below(
                    child_path(path, (#[trigger] entries[k]).0),
                    below,
                );
            let child = child_path(path, entries[k].0);
            lemma_child_is_below(path, entries[k].0);
            if below != child {
                lemma_below_transitive(path, child, below);
            }
        }
    }
}

proof fn lemma_entry_paths(dir: Seq<u8>, entries: Seq<(Seq<u8>, Node)>, i: int)
    requires
        0 <= i < flat(dir, entries).len(),
        forall|k: int| 0 <= k < entries.len() ==> child_path(dir, (#[trigger] entries[k]).0).len() > 0,
    ensures
        is_at_entry(dir, entries, flat(dir, entries)[i].path),
    decreases entries, 0nat,
{
    let front = flat(dir, entries.drop_last());
    let last = entries.len() - 1;
    if i < front.len() {
        assert forall|k: int| 0 <= k < entries.drop_last().len() implies child_path(
            dir,
            (#[trigger] entries.drop_last()[k]).0,
        ).len() > 0 by {
            assert(entries.drop_last()[k] == entries[k]);
        }
        lemma_entry_paths(dir, entries.drop_last(), i);
        let path = front[i].path;
        let k = choose|k: int|
            0 <= k < entries.drop_last().len() && is_at_or_below(
                child_path(dir, (#[trigger] entries.drop_last()[k]).0),
                path,
            );
        assert(entries[k] == entries.drop_last()[k]);
        assert(is_at_or_below(child_path(dir, entries[k].0), path));
    } else {
        let child = child_path(dir, entries[last as int].0);
        lemma_node_paths(child, entries.last().1, i - front.len());
        assert(is_at_or_below(child, flat(dir, entries)[i].path));
    }
}

proof fn lemma_siblings_are_apart(dir: Seq<u8>, m: Seq<u8>, n: Seq<u8>, path: Seq<u8>)
    requires
        m != n,
        !m.contains(SEPARATOR),
        !n.contains(SEPARATOR),
        is_at_or_below(child_path(dir, m), path),
    ensures
        !is_below(child_path(dir, n), path),
{
    let cm = child_path(dir, m);
    let cn = child_path(dir, n);
    let skip = cm.len() - m.len();
    assert(cn.len() - n.len() == skip);
    if is_below(cn, path) {
        // Behind what both have in common, `path` goes on with `n` and a separator, and with `m`
        // and a separator or its end.
        assert forall|i: int| 0 <= i < m.len() && skip + i < path.len() implies path[skip + i]
            == m[i] by {
            assert(path.take(cm.len() as int)[skip + i] == cm[skip + i]);
        }
        assert forall|i: int| 0 <= i < n.len() implies path[skip + i] == n[i] by {
            assert(path.take(cn.len() as int)[skip + i] == cn[skip + i]);
        }
        assert(path[skip + n.len()] == SEPARATOR);
        if n.len() < m.len() {
            assert(path[skip + n.len()] == m[n.len() as int]);
        } else if m.len() < n.len() {
            assert(path.len() > cm.len());
            assert(path[skip + m.len()] == SEPARATOR);
            assert(path[skip + m.len()] == n[m.len() as int]);
        } else {
            assert(m =~= n);
        }
    }
}

proof fn lemma_flat_first(dir: Seq<u8>, entries: Seq<(Seq<u8>, Node)>)
    requires
        entries.len() > 0,
    ensures
        flat(dir, entries) == flat_node(child_path(dir, entries[0].0), entries[0].1) + flat(
            dir,
            entries.skip(1),
        ),
    decreases entries.len(),
{
    if entries.len() == 1 {
        assert(entries.drop_last() =~= Seq::empty());
        assert(entries.skip(1) =~= Seq::empty());
        assert(flat(dir, entries.drop_last()) =~= Seq::empty());
        assert(flat(dir, entries) =~= flat_node(child_path(dir, entries[0].0), entries[0].1) + flat(
            dir,
            entries.skip(1),
        ));
    } else {
        lemma_flat_first(dir, entries.drop_last());
        assert(entries.skip(1).drop_last() =~= entries.drop_last().skip(1));
        assert(flat(dir, entries) =~= flat_node(child_path(dir, entries[0].0), entries[0].1) + flat(
            dir,
            entries.skip(1),
        ));
    }
}

proof fn lemma_first_not_below_rest(dir: Seq<u8>, entries: Seq<(Seq<u8>, Node)>, i: int)
    requires
        entries.len() > 0,
        are_real(entries),
        in_strict_name_order(entries),
        0 <= i < flat(dir, entries.skip(1)).len(),
    ensures
        !is_below(child_path(dir, entries[0].0), flat(dir, entries.skip(1))[i].path),
{
    let rest = entries.skip(1);
    assert forall|k: int| 0 <= k < rest.len() implies child_path(dir, (#[trigger] rest[k]).0).len()
        > 0 by {
        lemma_are_real(entries, k + 1);
    }
    lemma_entry_paths(dir, rest, i);
    let path = flat(dir, rest)[i].path;
    let k = choose|k: int|
        0 <= k < rest.len() && is_at_or_below(child_path(dir, (#[trigger] rest[k]).0), path);
    lemma_are_real(entries, 0);
    lemma_are_real(entries, k + 1);
    assert(rest[k] == entries[k + 1]);
    assert(lex_lt(entries[0].0, entries[k + 1].0));
    lemma_lex_irreflexive(entries[0].0);
    lemma_siblings_are_apart(dir, rest[k].0, entries[0].0, path);
}

proof fn lemma_flat_exact(dir: Seq<u8>, a: Seq<(Seq<u8>, Node)>, b: Seq<(Seq<u8>, Node)>)
    requires
        are_real(a),
        are_real(b),
        are_trees(a),
        are_trees(b),
        in_strict_name_order(a),
        in_strict_name_order(b),
        flat(dir, a) == flat(dir, b),
    ensures
        a == b,
    decreases a, 0nat,
{
    if a.len() > 0 {
        lemma_flat_first(dir, a);
    }
    if b.len() > 0 {
        lemma_flat_first(dir, b);
    }
    if a.len() == 0 || b.len() == 0 {
        assert(a =~= b);
    } else {
        let fa = flat_node(child_path(dir, a[0].0), a[0].1);
        let fb = flat_node(child_path(dir, b[0].0), b[0].1);
        let ra = flat(dir, a.skip(1));
        let rb = flat(dir, b.skip(1));
        assert((fa + ra)[0] == fa[0]);
        assert((fb + rb)[0] == fb[0]);
        lemma_child_path_exact(dir, a[0].0, b[0].0);
        lemma_are_real(a, 0);
        lemma_are_real(b, 0);
        lemma_are_real_skip(a);
        lemma_are_real_skip(b);
        lemma_are_trees_skip(a);
        lemma_are_trees_skip(b);
        assert(in_strict_name_order(a.skip(1)));
        assert(in_strict_name_order(b.skip(1)));
        let path = child_path(dir, a[0].0);
        if let Node::Directory(ca) = a[0].1 {
            assert(b[0].1 is Directory) by {
                assert(kind_of(b[0].1) == EntryKind::Directory);
            }
            let cb = b[0].1->Directory_0;
            let da = flat(path, ca);
            let db = flat(path, cb);
            if da.len() < db.len() {
                let at = da.len() as int;
                assert((fb + rb)[at + 1] == db[at]);
                assert((fa + ra)[at + 1] == ra[0]);
                lemma_directory_items_are_below(path, cb, at);
                lemma_first_not_below_rest(dir, a, 0);
            } else if db.len() < da.len() {
                let at = db.len() as int;
                assert((fa + ra)[at + 1] == da[at]);
                assert((fb + rb)[at + 1] == rb[0]);
                lemma_directory_items_are_below(path, ca, at);
                lemma_first_not_below_rest(dir, b, 0);
            }
            lemma_cut_by_length(fa, ra, fb, rb);
            assert(da =~= fa.skip(1));
            assert(db =~= fb.skip(1));
            lemma_flat_exact(path, ca, cb);
        } else {
            lemma_cut_by_length(fa, ra, fb, rb);
            lemma_leaf_exact(a[0].1, b[0].1);
        }
        lemma_flat_exact(dir, a.skip(1), b.skip(1));
        assert(a =~= seq![a[0]] + a.skip(1));
        assert(b =~= seq![b[0]] + b.skip(1));
    }
}

proof fn lemma_directory_items_are_below(path: Seq<u8>, entries: Seq<(Seq<u8>, Node)>, i: int)
    requires
        path.len() > 0,
        0 <= i < flat(path, entries).len(),
    ensures
        is_below(path, flat(path, entries)[i].path),
{
    lemma_entry_paths(path, entries, i);
    let below = flat(path, entries)[i].path;
    let k = choose|k: int|
        0 <= k < entries.len() && is_at_or_below(child_path(path, (#[trigger] entries[k]).0), below);
    lemma_child_is_below(path, entries[k].0);
    if below != child_path(path, entries[k].0) {
        lemma_below_transitive(path, child_path(path, entries[k].0), below);
    }
}

proof fn lemma_leaf_exact(a: Node, b: Node)
    requires
        is_tree(a),
        is_tree(b),
        is_real(a),
        is_real(b),
        !(a is Directory),
        kind_of(a) == kind_of(b),
        blob_of(a) == blob_of(b),
    ensures
        a == b,
{
}

proof fn lemma_child_path_exact(dir: Seq<u8>, m: Seq<u8>, n: Seq<u8>)
    requires
        child_path(dir, m) == child_path(dir, n),
    ensures
        m == n,
{
    if dir.len() > 0 {
        lemma_cut_by_length(dir.push(SEPARATOR), m, dir.push(SEPARATOR), n);
    }
}

proof fn lemma_items_fit(dir: Seq<u8>, entries: Seq<(Seq<u8>, Node)>)
    requires
        are_real(entries),
        are_trees(entries),
        forall|i: int|
            0 <= i < flat(dir, entries).len() ==> (#[trigger] flat(dir, entries)[i]).path.len()
                <= u64::MAX,
    ensures
        forall|i: int|
            0 <= i < flat(dir, entries).len() ==> fits(#[trigger] flat(dir, entries)[i]),
    decreases entries, 0nat,
{
    if entries.len() > 0 {
        let front = flat(dir, entries.drop_last());
        let path = child_path(dir, entries.last().0);
        let node = entries.last().1;
        let back = flat_node(path, node);
        let all = flat(dir, entries);
        assert(is_real(node) && is_tree(node));
        assert forall|i: int| 0 <= i < front.len() implies (#[trigger] front[i]).path.len()
            <= u64::MAX by {
            assert(all[i] == front[i]);
        }
        lemma_items_fit(dir, entries.drop_last());
        assert forall|i: int| 0 <= i < back.len() implies (#[trigger] back[i]).path.len()
            <= u64::MAX by {
            assert(all[front.len() + i] == back[i]);
        }
        if let Node::Directory(below) = node {
            let inner = flat(path, below);
            assert forall|i: int| 0 <= i < inner.len() implies (#[trigger] inner[i]).path.len()
                <= u64::MAX by {
                assert(back[i + 1] == inner[i]);
            }
            lemma_items_fit(path, below);
            assert forall|i: int| 0 <= i < back.len() implies fits(#[trigger] back[i]) by {
                if i > 0 {
                    assert(back[i] == inner[i - 1]);
                }
            }
        } else {
            assert(back.len() == 1 && back[0].path.len() <= u64::MAX);
            assert(fits(back[0]));
        }
        assert forall|i: int| 0 <= i < all.len() implies fits(#[trigger] all[i]) by {
            if i < front.len() {
                assert(all[i] == front[i]);
            } else {
                assert(all[i] == back[i - front.len()]);
            }
        }
    }
}

/// Paths in a tree can be fed: their lengths are 64-bit numbers.
pub open spec fn paths_fit(entries: Seq<(Seq<u8>, Node)>) -> bool {
    forall|i: int|
        0 <= i < flat(Seq::empty(), entries).len() ==> (#[trigger] flat(
            Seq::empty(),
            entries,
        )[i]).path.len() <= u64::MAX
}

/// Directory trees as file systems hold them are fed as the same bytes only if they are the same:
/// the same names, kinds, link targets and file contents at the same places.
pub proof fn lemma_tree_bytes_are_exact(a: Seq<(Seq<u8>, Node)>, b: Seq<(Seq<u8>, Node)>)
    requires
        is_tree(Node::Directory(a)),
        is_tree(Node::Directory(b)),
        is_real(Node::Directory(a)),
        is_real(Node::Directory(b)),
        paths_fit(a),
        paths_fit(b),
        enc_entries(Seq::empty(), a) == enc_entries(Seq::empty(), b),
    ensures
        a == b,
{
    lemma_entries_bytes(Seq::empty(), a);
    lemma_entries_bytes(Seq::empty(), b);
    lemma_items_fit(Seq::empty(), a);
    lemma_items_fit(Seq::empty(), b);
    lemma_items_exact(flat(Seq::empty(), a), flat(Seq::empty(), b));
    lemma_flat_exact(Seq::empty(), a, b);
}

} // verus!
