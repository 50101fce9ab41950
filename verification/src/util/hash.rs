//! Hashing a directory tree.
//!
//! The tree is walked depth first, each directory in the order of its entries' names. Of every
//! entry the hasher is fed a header (a byte for the kind of entry, and the path from the top of
//! the tree with its length), then the target of a symbolic link with its length, or the size of
//! a file and its bytes.
//!
//! [`DirectoryHash`] says at every moment what it has to know next of the file system, and is
//! told by the method that answers to it.

use crate::util::bytes::{bytes_lt, bytes_to_vec, lex_lt};
use crate::util::feed::{enc_u64, feed_bytes, feed_u64, feed_u8};
use crate::util::path::SEPARATOR;
use crate::util::sort::{by_name, lemma_place_is_insert};
use crate::util::xxh3::{xxh3_128, xxh3_fed, Xxh3Hasher};
use vstd::prelude::*;

verus! {

/// The kinds of directory entries.
#[derive(Debug, Clone, Copy, PartialEq, Eq, Structural)]
pub enum EntryKind {
    Directory,
    Symlink,
    File,
    Socket,
    Fifo,
    BlockDevice,
    CharDevice,
    Other,
}

/// An entry of a directory.
#[derive(Debug)]
pub struct DirectoryEntry {
    pub name: Vec<u8>,
    pub kind: EntryKind,
}

impl View for DirectoryEntry {
    type V = (Seq<u8>, EntryKind);

    open spec fn view(&self) -> (Seq<u8>, EntryKind) {
        (self.name@, self.kind)
    }
}

/// The names and kinds of directory entries.
pub open spec fn entries_of(s: Seq<DirectoryEntry>) -> Seq<(Seq<u8>, EntryKind)> {
    s.map_values(|e: DirectoryEntry| e@)
}

// ---------------------------------------------------------------------------
// What is fed
// ---------------------------------------------------------------------------

/// The byte that stands for a kind of entry.
pub open spec fn kind_tag(kind: EntryKind) -> u8 {
    match kind {
        EntryKind::Directory => 'D' as u8,
        EntryKind::Symlink => 'L' as u8,
        EntryKind::File => 'F' as u8,
        EntryKind::Socket => 'S' as u8,
        EntryKind::Fifo => 'I' as u8,
        EntryKind::BlockDevice => 'B' as u8,
        EntryKind::CharDevice => 'C' as u8,
        EntryKind::Other => 'O' as u8,
    }
}

/// The header of an entry.
pub open spec fn enc_header(tag: u8, path: Seq<u8>) -> Seq<u8> {
    seq![tag] + enc_u64(path.len()) + path
}

/// The path of an entry of the directory `dir`, both seen from the top of the tree.
pub open spec fn child_path(dir: Seq<u8>, name: Seq<u8>) -> Seq<u8> {
    if dir.len() == 0 {
        name
    } else {
        dir.push(SEPARATOR) + name
    }
}

/// Feeds the header of an entry.
pub fn write_header(hasher: &mut Xxh3Hasher, tag: u8, rel_path: &[u8])
    ensures
        xxh3_fed(*final(hasher)) == xxh3_fed(*old(hasher)) + enc_header(tag, rel_path@),
{
    feed_u8(hasher, tag);
    feed_u64(hasher, rel_path.len() as u64);
    feed_bytes(hasher, rel_path);
    assert(xxh3_fed(*hasher) =~= xxh3_fed(*old(hasher)) + enc_header(tag, rel_path@));
}

fn tag_of(kind: EntryKind) -> (r: u8)
    ensures
        r == kind_tag(kind),
{
    match kind {
        EntryKind::Directory => 68,
        EntryKind::Symlink => 76,
        EntryKind::File => 70,
        EntryKind::Socket => 83,
        EntryKind::Fifo => 73,
        EntryKind::BlockDevice => 66,
        EntryKind::CharDevice => 67,
        EntryKind::Other => 79,
    }
}

fn join_child(dir: &Vec<u8>, name: &Vec<u8>) -> (r: Vec<u8>)
    ensures
        r@ == child_path(dir@, name@),
{
    let mut out: Vec<u8> = bytes_to_vec(dir.as_slice());
    if dir.len() > 0 {
        out.push(SEPARATOR);
    }
    let ghost front = out@;
    out.extend_from_slice(name.as_slice());
    assert(out@ =~= front + name@);
    assert(out@ =~= child_path(dir@, name@));
    out
}

// ---------------------------------------------------------------------------
// The walk
// ---------------------------------------------------------------------------

/// What the walk has to know next. Paths are seen from the top of the tree.
#[derive(Debug)]
pub enum WalkRequest {
    /// the entries of a directory
    List(Vec<u8>),
    /// the target of a symbolic link
    ReadLink(Vec<u8>),
    /// the size of a file
    Size(Vec<u8>),
    /// the next bytes of a file
    Read(Vec<u8>),
    /// nothing: the whole tree has been fed
    Finished,
}

/// [`WalkRequest`] by its paths.
pub enum Want {
    List(Seq<u8>),
    ReadLink(Seq<u8>),
    Size(Seq<u8>),
    Read(Seq<u8>),
    Finished,
}

impl View for WalkRequest {
    type V = Want;

    open spec fn view(&self) -> Want {
        match self {
            WalkRequest::List(p) => Want::List(p@),
            WalkRequest::ReadLink(p) => Want::ReadLink(p@),
            WalkRequest::Size(p) => Want::Size(p@),
            WalkRequest::Read(p) => Want::Read(p@),
            WalkRequest::Finished => Want::Finished,
        }
    }
}

/// The walk over a directory tree that feeds a hasher.
pub struct DirectoryHash {
    pub hasher: Xxh3Hasher,
    /// the entries that are still to be fed, by their paths, the next one last
    pub tasks: Vec<DirectoryEntry>,
    pub request: WalkRequest,
}

/// Where a walk stands: what has been fed, which entries are still to be fed (the next one
/// last), and what the walk has to know next.
#[verifier::ext_equal]
pub struct WalkState {
    pub fed: Seq<u8>,
    pub tasks: Seq<(Seq<u8>, EntryKind)>,
    pub want: Want,
}

impl View for DirectoryHash {
    type V = WalkState;

    open spec fn view(&self) -> WalkState {
        WalkState {
            fed: xxh3_fed(self.hasher),
            tasks: entries_of(self.tasks@),
            want: self.request@,
        }
    }
}

/// Feeds headers of the next entries, up to the first one of which more than its kind and path
/// is fed.
pub open spec fn advance(fed: Seq<u8>, tasks: Seq<(Seq<u8>, EntryKind)>) -> WalkState
    decreases tasks.len(),
{
    if tasks.len() == 0 {
        WalkState { fed, tasks, want: Want::Finished }
    } else {
        let (path, kind) = tasks.last();
        let now = fed + enc_header(kind_tag(kind), path);
        let rest = tasks.drop_last();
        match kind {
            EntryKind::Directory => WalkState { fed: now, tasks: rest, want: Want::List(path) },
            EntryKind::Symlink => WalkState { fed: now, tasks: rest, want: Want::ReadLink(path) },
            EntryKind::File => WalkState { fed: now, tasks: rest, want: Want::Size(path) },
            _ => advance(now, rest),
        }
    }
}

/// The entries of the directory `dir` by their paths, the last one first.
pub open spec fn tasks_of(
    dir: Seq<u8>,
    entries: Seq<(Seq<u8>, EntryKind)>,
) -> Seq<(Seq<u8>, EntryKind)> {
    entries.map_values(|e: (Seq<u8>, EntryKind)| (child_path(dir, e.0), e.1)).reverse()
}

/// The walk goes on into a directory: its entries, in the order of their names, come before
/// everything that is still to be fed.
pub open spec fn after_listing(
    state: WalkState,
    dir: Seq<u8>,
    entries: Seq<(Seq<u8>, EntryKind)>,
) -> WalkState {
    advance(state.fed, state.tasks + tasks_of(dir, by_name(entries)))
}

/// The target of a link is fed with its length, and the walk goes on.
pub open spec fn after_target(state: WalkState, target: Seq<u8>) -> WalkState {
    advance(state.fed + enc_u64(target.len()) + target, state.tasks)
}

/// The size of a file is fed, and then its bytes are due.
pub open spec fn after_size(state: WalkState, path: Seq<u8>, size: u64) -> WalkState {
    WalkState { fed: state.fed + enc_u64(size as nat), tasks: state.tasks, want: Want::Read(path) }
}

/// The bytes of a file are fed as they come; when none come any more, the walk goes on.
pub open spec fn after_read(state: WalkState, chunk: Seq<u8>) -> WalkState {
    if chunk.len() == 0 {
        advance(state.fed, state.tasks)
    } else {
        WalkState { fed: state.fed + chunk, tasks: state.tasks, want: state.want }
    }
}

/// Starts to feed a directory tree to a hasher. The first thing to know is what the directory at
/// the top holds.
pub fn hash_directory(hasher: Xxh3Hasher) -> (r: DirectoryHash)
    ensures
        r@ == (WalkState {
            fed: xxh3_fed(hasher),
            tasks: Seq::empty(),
            want: Want::List(Seq::empty()),
        }),
{
    let r = DirectoryHash { hasher, tasks: Vec::new(), request: WalkRequest::List(Vec::new()) };
    assert(r@.tasks =~= Seq::empty());
    assert(r.request@->List_0 =~= Seq::<u8>::empty());
    r
}

/// Entries in the order of their names.
pub fn sort_entries(entries: Vec<DirectoryEntry>) -> (r: Vec<DirectoryEntry>)
    ensures
        entries_of(r@) == by_name(entries_of(entries@)),
{
    let mut rest: Vec<DirectoryEntry> = entries;
    let mut incoming: Vec<DirectoryEntry> = Vec::new();
    let ghost all = entries@;
    // Turn the list round, so that taking from its end gives the entries in their first order.
    while rest.len() > 0
        invariant
            rest@ + incoming@.reverse() == all,
        decreases rest@.len(),
    {
        let ghost before = rest@;
        let ghost taken = incoming@;
        match rest.pop() {
            Some(e) => {
                incoming.push(e);
                assert(before =~= rest@.push(e));
                assert(incoming@.reverse() =~= seq![e] + taken.reverse());
                assert(rest@ + incoming@.reverse() =~= before + taken.reverse());
            },
            None => {},
        }
    }
    assert(incoming@.reverse() =~= all);
    let mut out: Vec<DirectoryEntry> = Vec::new();
    let ghost mut done: int = 0;
    assert(entries_of(all).take(0) =~= Seq::empty());
    assert(entries_of(out@) =~= Seq::empty());
    while incoming.len() > 0
        invariant
            0 <= done <= all.len(),
            incoming@.len() == all.len() - done,
            forall|k: int| 0 <= k < incoming@.len() ==> incoming@[k] == all[all.len() - 1 - k],
            entries_of(out@) == by_name(entries_of(all).take(done)),
        decreases incoming@.len(),
    {
        match incoming.pop() {
            Some(e) => {
                let ghost sorted = entries_of(out@);
                let mut at: usize = out.len();
                while at > 0 && bytes_lt(e.name.as_slice(), out[at - 1].name.as_slice())
                    invariant
                        0 <= at <= out@.len(),
                        sorted == entries_of(out@),
                        forall|k: int|
                            at <= k < sorted.len() ==> lex_lt(e@.0, (#[trigger] sorted[k]).0),
                    decreases at,
                {
                    assert(sorted[at - 1] == out@[at - 1]@);
                    at = at - 1;
                }
                proof {
                    if at > 0 {
                        assert(sorted[at - 1] == out@[at - 1]@);
                    }
                    lemma_place_is_insert(sorted, e@, at as int);
                    assert(e == all[done]);
                    assert(entries_of(all).take(done + 1).drop_last() =~= entries_of(all).take(
                        done,
                    ));
                    assert(entries_of(all).take(done + 1).last() == e@);
                    done = done + 1;
                }
                out.insert(at, e);
                assert(entries_of(out@) =~= sorted.insert(at as int, e@));
            },
            None => {},
        }
    }
    assert(entries_of(all).take(all.len() as int) =~= entries_of(all));
    out
}

impl DirectoryHash {
    /// Feeds headers of the next entries, up to the first one of which more is fed.
    fn go_on(&mut self)
        ensures
            final(self)@ == advance(old(self)@.fed, old(self)@.tasks),
    {
        let ghost goal = advance(self@.fed, self@.tasks);
        while self.tasks.len() > 0
            invariant
                goal == advance(old(self)@.fed, old(self)@.tasks),
                advance(self@.fed, self@.tasks) == goal,
            decreases self.tasks@.len(),
        {
            let ghost tasks = self@.tasks;
            let ghost fed = self@.fed;
            match self.tasks.pop() {
                Some(task) => {
                    proof {
                        assert(tasks.last() == task@);
                        assert(entries_of(self.tasks@) =~= tasks.drop_last());
                    }
                    write_header(&mut self.hasher, tag_of(task.kind), task.name.as_slice());
                    match task.kind {
                        EntryKind::Directory => {
                            self.request = WalkRequest::List(task.name);
                            return;
                        },
                        EntryKind::Symlink => {
                            self.request = WalkRequest::ReadLink(task.name);
                            return;
                        },
                        EntryKind::File => {
                            self.request = WalkRequest::Size(task.name);
                            return;
                        },
                        _ => {},
                    }
                },
                None => {},
            }
        }
        self.request = WalkRequest::Finished;
    }

    /// Tells the walk what the directory that it asked for holds.
    pub fn listing(&mut self, entries: Vec<DirectoryEntry>)
        requires
            old(self).request is List,
        ensures
            final(self)@ == after_listing(
                old(self)@,
                old(self)@.want->List_0,
                entries_of(entries@),
            ),
    {
        let dir: Vec<u8> = match &self.request {
            WalkRequest::List(path) => bytes_to_vec(path.as_slice()),
            _ => Vec::new(),
        };
        let sorted: Vec<DirectoryEntry> = sort_entries(entries);
        let ghost tasks = self@.tasks;
        let ghost names = entries_of(sorted@);
        let mut i: usize = sorted.len();
        assert(self@.tasks =~= tasks + tasks_of(dir@, names.skip(i as int)));
        while i > 0
            invariant
                0 <= i <= sorted@.len(),
                names == entries_of(sorted@),
                self@.tasks == tasks + tasks_of(dir@, names.skip(i as int)),
                self@.fed == old(self)@.fed,
            decreases i,
        {
            i = i - 1;
            let ghost before = self@.tasks;
            let task = DirectoryEntry {
                name: join_child(&dir, &sorted[i].name),
                kind: sorted[i].kind,
            };
            self.tasks.push(task);
            proof {
                assert(self@.tasks =~= before.push(task@));
                assert(names[i as int] == sorted@[i as int]@);
                assert(tasks_of(dir@, names.skip(i as int)) =~= tasks_of(
                    dir@,
                    names.skip(i + 1),
                ).push(task@));
                assert(self@.tasks =~= tasks + tasks_of(dir@, names.skip(i as int)));
            }
        }
        assert(names.skip(0) =~= names);
        self.go_on();
    }

    /// Tells the walk where the link that it asked for points.
    pub fn target(&mut self, target: &[u8])
        requires
            old(self).request is ReadLink,
        ensures
            final(self)@ == after_target(old(self)@, target@),
    {
        feed_u64(&mut self.hasher, target.len() as u64);
        feed_bytes(&mut self.hasher, target);
        self.go_on();
    }

    /// Tells the walk how large the file that it asked for is.
    pub fn size(&mut self, size: u64)
        requires
            old(self).request is Size,
        ensures
            final(self)@ == after_size(old(self)@, old(self)@.want->Size_0, size),
    {
        feed_u64(&mut self.hasher, size);
        let path: Vec<u8> = match &self.request {
            WalkRequest::Size(path) => bytes_to_vec(path.as_slice()),
            _ => Vec::new(),
        };
        self.request = WalkRequest::Read(path);
    }

    /// Hands the walk the next bytes of the file that it asked for: none at the file's end.
    pub fn chunk(&mut self, chunk: &[u8])
        requires
            old(self).request is Read,
        ensures
            final(self)@ == after_read(old(self)@, chunk@),
    {
        if chunk.len() == 0 {
            self.go_on();
        } else {
            feed_bytes(&mut self.hasher, chunk);
        }
    }

    /// The digest of everything fed, once the whole tree has been.
    pub fn digest128(&self) -> (r: u128)
        requires
            self.request is Finished,
        ensures
            r == xxh3_128(self@.fed),
    {
        self.hasher.digest128()
    }
}

} // verus!
