//! File system paths as byte strings with `/` between their parts.

use crate::util::bytes::bytes_to_vec;
use crate::util::text::{chars_of, lemma_utf8_concat};
use vstd::prelude::*;
use vstd::utf8::*;

verus! {

/// The byte between the parts of a path.
pub const SEPARATOR: u8 = 47;

/// A path. Its view is its bytes.
#[derive(Debug)]
pub struct UnixPath {
    pub bytes: Vec<u8>,
}

impl View for UnixPath {
    type V = Seq<u8>;

    open spec fn view(&self) -> Seq<u8> {
        self.bytes@
    }
}

/// The path that a text names.
pub open spec fn path_of(text: Seq<char>) -> Seq<u8> {
    encode_utf8(text)
}

/// `tail` seen from the directory `base`: an absolute `tail` stands alone, any other is put
/// behind `base` with one separator between them.
pub open spec fn join_path(base: Seq<u8>, tail: Seq<u8>) -> Seq<u8> {
    if tail.len() > 0 && tail[0] == SEPARATOR {
        tail
    } else if base.len() == 0 || base.last() == SEPARATOR {
        base + tail
    } else {
        base.push(SEPARATOR) + tail
    }
}

impl UnixPath {
    /// The path with the given bytes.
    pub fn from_bytes(bytes: &[u8]) -> (r: UnixPath)
        ensures
            r@ == bytes@,
    {
        UnixPath { bytes: bytes_to_vec(bytes) }
    }

    /// The path that a text names.
    pub fn from_text(text: &str) -> (r: UnixPath)
        ensures
            r@ == path_of(text@),
    {
        UnixPath { bytes: bytes_to_vec(text.as_bytes()) }
    }

    /// A copy of this path.
    pub fn copy(&self) -> (r: UnixPath)
        ensures
            r@ == self@,
    {
        UnixPath { bytes: bytes_to_vec(self.bytes.as_slice()) }
    }

    /// `tail` seen from this directory.
    pub fn join_bytes(&self, tail: &[u8]) -> (r: UnixPath)
        ensures
            r@ == join_path(self@, tail@),
    {
        if tail.len() > 0 && tail[0] == SEPARATOR {
            return UnixPath::from_bytes(tail);
        }
        let mut bytes: Vec<u8> = bytes_to_vec(self.bytes.as_slice());
        if bytes.len() > 0 && bytes[bytes.len() - 1] != SEPARATOR {
            bytes.push(SEPARATOR);
        }
        let ghost base = bytes@;
        bytes.extend_from_slice(tail);
        assert(bytes@ =~= base + tail@);
        UnixPath { bytes }
    }

    /// The path that `text` names, seen from this directory.
    pub fn join(&self, text: &str) -> (r: UnixPath)
        ensures
            r@ == join_path(self@, path_of(text@)),
    {
        self.join_bytes(text.as_bytes())
    }
}

/// `name` seen from the directory `base`, as a text, where `base` does not end in a separator.
pub open spec fn join_text(base: Seq<char>, name: Seq<char>) -> Seq<char> {
    if name.len() > 0 && name[0] == '/' {
        name
    } else {
        base + "/"@ + name
    }
}

/// `name` seen from the directory `base`, as a text, where `base` does not end in a separator.
pub fn join_names(base: &str, name: &str) -> (r: String)
    ensures
        r@ == join_text(base@, name@),
{
    let chars: Vec<char> = chars_of(name);
    if chars.len() > 0 && chars[0] == '/' {
        name.to_string()
    } else {
        let mut out: String = base.to_string();
        out.append("/");
        out.append(name);
        out
    }
}

proof fn lemma_scalar_bytes(c: u32)
    by (bit_vector)
    ensures
        c <= 0x7f ==> (c & 0x7f) as u8 == c,
        (0xC0u8 | ((c >> 6) & 0x1F) as u8) >= 0x80,
        (0xE0u8 | ((c >> 12) & 0x0F) as u8) >= 0x80,
        (0xF0u8 | ((c >> 18) & 0x7) as u8) >= 0x80,
        (0x80u8 | (c & 0x3F) as u8) >= 0x80,
{
}

proof fn lemma_scalar_ends(c: char)
    ensures
        encode_scalar(c as u32).len() > 0,
        encode_scalar(c as u32)[0] == SEPARATOR <==> c == '/',
        encode_scalar(c as u32).last() == SEPARATOR <==> c == '/',
        c == '/' ==> encode_scalar(c as u32) == seq![SEPARATOR],
{
    lemma_scalar_bytes(c as u32);
    if c == '/' {
        assert(encode_scalar(c as u32) =~= seq![SEPARATOR]);
    }
}

proof fn lemma_encode_one(c: char)
    ensures
        encode_utf8(seq![c]) == encode_scalar(c as u32),
{
    reveal_with_fuel(encode_utf8, 2);
    assert(seq![c].drop_first() =~= Seq::<char>::empty());
    assert(encode_utf8(seq![c]) =~= encode_scalar(c as u32));
}

/// Joining texts and joining the paths that they name come to the same.
pub proof fn lemma_join_text(base: Seq<char>, name: Seq<char>)
    requires
        base.len() > 0,
        base.last() != '/',
    ensures
        path_of(join_text(base, name)) == join_path(path_of(base), path_of(name)),
{
    if name.len() > 0 {
        lemma_scalar_ends(name[0]);
        assert(path_of(name)[0] == encode_scalar(name[0] as u32)[0]);
    }
    let front = base.drop_last();
    let end = seq![base.last()];
    assert(base =~= front + end);
    lemma_utf8_concat(front, end);
    lemma_encode_one(base.last());
    lemma_scalar_ends(base.last());
    assert(path_of(base).last() == encode_scalar(base.last() as u32).last());
    reveal_strlit("/");
    assert("/"@ =~= seq!['/']);
    lemma_utf8_concat(base + "/"@, name);
    lemma_utf8_concat(base, "/"@);
    lemma_encode_one('/');
    lemma_scalar_ends('/');
    assert(path_of(base) + seq![SEPARATOR] =~= path_of(base).push(SEPARATOR));
}

/// The bytes of a path that may be absent.
pub open spec fn path_option(path: Option<UnixPath>) -> Option<Seq<u8>> {
    match path {
        None => None,
        Some(path) => Some(path@),
    }
}

// ---------------------------------------------------------------------------
// Parts of a path
// ---------------------------------------------------------------------------

/// The pieces of `s` between its separators, empty ones among them.
pub open spec fn pieces(s: Seq<u8>) -> Seq<Seq<u8>>
    decreases s.len(),
{
    if s.len() == 0 {
        seq![Seq::<u8>::empty()]
    } else {
        let before = pieces(s.drop_last());
        if s.last() == SEPARATOR {
            before.push(Seq::<u8>::empty())
        } else {
            before.update(before.len() - 1, before.last().push(s.last()))
        }
    }
}

/// A piece that leads nowhere: nothing between two separators, or `.`.
pub open spec fn is_idle_piece(piece: Seq<u8>) -> bool {
    piece.len() == 0 || piece == seq![46u8]
}

/// `base` with the given pieces behind it, but for those that lead nowhere.
pub open spec fn descend(base: Seq<u8>, steps: Seq<Seq<u8>>) -> Seq<u8>
    decreases steps.len(),
{
    if steps.len() == 0 {
        base
    } else {
        let before = descend(base, steps.drop_last());
        if is_idle_piece(steps.last()) {
            before
        } else {
            join_path(before, steps.last())
        }
    }
}

/// Where `path` lies in a tree whose root is the directory `root`.
pub open spec fn path_within(root: Seq<u8>, path: Seq<u8>) -> Seq<u8> {
    descend(root, pieces(path))
}

/// There is always a last piece, and no piece holds a separator.
pub proof fn lemma_pieces(s: Seq<u8>)
    ensures
        pieces(s).len() > 0,
        forall|i: int, j: int|
            0 <= i < pieces(s).len() && 0 <= j < pieces(s)[i].len() ==> #[trigger] pieces(s)[i][j]
                != SEPARATOR,
    decreases s.len(),
{
    if s.len() > 0 {
        lemma_pieces(s.drop_last());
    }
}

/// Descending from a directory never leaves its name behind.
pub proof fn lemma_descend_keeps_base(base: Seq<u8>, steps: Seq<Seq<u8>>)
    requires
        forall|i: int|
            0 <= i < steps.len() && (#[trigger] steps[i]).len() > 0 ==> steps[i][0] != SEPARATOR,
    ensures
        base.len() <= descend(base, steps).len(),
        descend(base, steps).take(base.len() as int) == base,
    decreases steps.len(),
{
    if steps.len() == 0 {
        assert(base.take(base.len() as int) =~= base);
    } else {
        let front = steps.drop_last();
        assert forall|i: int| 0 <= i < front.len() && (#[trigger] front[i]).len() > 0 implies front[i][0]
            != SEPARATOR by {
            assert(front[i] == steps[i]);
        }
        lemma_descend_keeps_base(base, front);
        let before = descend(base, front);
        let after = descend(base, steps);
        assert(steps.last() == steps[steps.len() - 1]);
        assert(before.len() <= after.len());
        assert(after.take(before.len() as int) =~= before);
        assert(after.take(base.len() as int) =~= after.take(before.len() as int).take(
            base.len() as int,
        ));
    }
}

/// A path placed within a tree always begins with the tree's root, even if the path is absolute.
pub proof fn lemma_path_within_root(root: Seq<u8>, path: Seq<u8>)
    ensures
        root.len() <= path_within(root, path).len(),
        path_within(root, path).take(root.len() as int) == root,
{
    lemma_pieces(path);
    let steps = pieces(path);
    assert forall|i: int| 0 <= i < steps.len() && (#[trigger] steps[i]).len() > 0 implies steps[i][0]
        != SEPARATOR by {}
    lemma_descend_keeps_base(root, steps);
}

proof fn lemma_descend_push(base: Seq<u8>, steps: Seq<Seq<u8>>, piece: Seq<u8>)
    ensures
        descend(base, steps.push(piece)) == (if is_idle_piece(piece) {
            descend(base, steps)
        } else {
            join_path(descend(base, steps), piece)
        }),
{
    assert(steps.push(piece).drop_last() =~= steps);
}

fn step_into(at: UnixPath, piece: &Vec<u8>) -> (r: UnixPath)
    ensures
        r@ == (if is_idle_piece(piece@) {
            at@
        } else {
            join_path(at@, piece@)
        }),
{
    if piece.len() == 0 || (piece.len() == 1 && piece[0] == 46) {
        proof {
            if piece@.len() == 1 {
                assert(piece@ =~= seq![46u8]);
            }
        }
        at
    } else {
        proof {
            assert(piece@ != seq![46u8]);
        }
        at.join_bytes(piece.as_slice())
    }
}

/// Where `path` lies in a tree whose root is the directory `root`.
pub fn relative_rootfs_path(root: &UnixPath, path: &UnixPath) -> (r: UnixPath)
    ensures
        r@ == path_within(root@, path@),
{
    let mut at: UnixPath = root.copy();
    let mut piece: Vec<u8> = Vec::new();
    let mut i: usize = 0;
    assert(path@.take(0) =~= Seq::<u8>::empty());
    assert(pieces(path@.take(0)) =~= seq![piece@]);
    assert(pieces(path@.take(0)).drop_last() =~= Seq::<Seq<u8>>::empty());
    while i < path.bytes.len()
        invariant
            0 <= i <= path@.len(),
            pieces(path@.take(i as int)).len() > 0,
            piece@ == pieces(path@.take(i as int)).last(),
            at@ == descend(root@, pieces(path@.take(i as int)).drop_last()),
        decreases path@.len() - i,
    {
        let b: u8 = path.bytes[i];
        let ghost before = pieces(path@.take(i as int));
        let ghost after = pieces(path@.take(i + 1));
        proof {
            assert(path@.take(i + 1).drop_last() =~= path@.take(i as int));
            assert(path@.take(i + 1).last() == b);
        }
        if b == SEPARATOR {
            proof {
                lemma_descend_push(root@, before.drop_last(), before.last());
                assert(before.drop_last().push(before.last()) =~= before);
                assert(after.drop_last() =~= before);
            }
            at = step_into(at, &piece);
            piece = Vec::new();
        } else {
            proof {
                assert(after.drop_last() =~= before.drop_last());
            }
            piece.push(b);
        }
        i = i + 1;
    }
    proof {
        let all = pieces(path@);
        assert(path@.take(path@.len() as int) =~= path@);
        lemma_descend_push(root@, all.drop_last(), all.last());
        assert(all.drop_last().push(all.last()) =~= all);
    }
    step_into(at, &piece)
}

} // verus!
