//! The hash of what is in an environment: the names and files of its sources, the files of its
//! sysroot, and the files of its tools if it has any.

use crate::util::feed::{enc_text, feed_text, feed_u8};
use crate::util::hash::{
    hash_directory, DirectoryHash, EntryKind, WalkRequest, WalkState, Want,
};
use crate::util::path::UnixPath;
use crate::util::tree::{
    answers, enc_entries, first_turn, is_tree, lemma_walk_feeds_tree, Node, Turn,
};
use crate::util::xxh3::{xxh3_128, Xxh3Hasher};
use vstd::prelude::*;

verus! {

/// A thing to feed.
#[derive(Debug)]
pub enum HashTask {
    /// a text
    Text(String),
    /// a byte
    Byte(u8),
    /// the files in a directory
    Directory(UnixPath),
}

/// [`HashTask`] by its texts and paths.
pub enum TaskSpec {
    Text(Seq<char>),
    Byte(u8),
    Directory(Seq<u8>),
}

impl View for HashTask {
    type V = TaskSpec;

    open spec fn view(&self) -> TaskSpec {
        match self {
            HashTask::Text(text) => TaskSpec::Text(text@),
            HashTask::Byte(byte) => TaskSpec::Byte(*byte),
            HashTask::Directory(path) => TaskSpec::Directory(path@),
        }
    }
}

/// Things to feed by their texts and paths.
pub open spec fn task_specs(s: Seq<HashTask>) -> Seq<TaskSpec> {
    s.map_values(|t: HashTask| t@)
}

/// The feeding of things one after the other. Of a directory it asks, as [`DirectoryHash`] does,
/// what is in it.
pub struct DepsHash {
    /// the directory that is being fed
    pub directory: Option<UnixPath>,
    /// the walk over it
    pub walk: DirectoryHash,
    pub tasks: Vec<HashTask>,
    /// the number of tasks that have been begun
    pub begun: usize,
}

/// Where the feeding stands: the directory that is being fed, the walk over it, and what is still
/// to be fed after it.
#[verifier::ext_equal]
pub struct DepsState {
    pub directory: Option<Seq<u8>>,
    pub walk: WalkState,
    pub rest: Seq<TaskSpec>,
}

impl View for DepsHash {
    type V = DepsState;

    open spec fn view(&self) -> DepsState {
        DepsState {
            directory: match self.directory {
                None => None,
                Some(path) => Some(path@),
            },
            walk: self.walk@,
            rest: task_specs(self.tasks@).skip(self.begun as int),
        }
    }
}

/// Feeds texts and bytes up to the next directory.
pub open spec fn begin(fed: Seq<u8>, rest: Seq<TaskSpec>) -> DepsState
    decreases rest.len(),
{
    if rest.len() == 0 {
        DepsState {
            directory: None,
            walk: WalkState { fed, tasks: Seq::empty(), want: Want::Finished },
            rest,
        }
    } else {
        match rest[0] {
            TaskSpec::Text(text) => begin(fed + enc_text(text), rest.skip(1)),
            TaskSpec::Byte(byte) => begin(fed.push(byte), rest.skip(1)),
            TaskSpec::Directory(path) => DepsState {
                directory: Some(path),
                walk: WalkState { fed, tasks: Seq::empty(), want: Want::List(Seq::empty()) },
                rest: rest.skip(1),
            },
        }
    }
}

impl DepsHash {
    /// The number of begun tasks is no more than there are.
    pub open spec fn wf(self) -> bool {
        self.begun <= self.tasks@.len()
    }

    /// Starts to feed things to a new hasher.
    pub fn new(tasks: Vec<HashTask>) -> (r: DepsHash)
        ensures
            r.wf(),
            r@ == begin(Seq::empty(), task_specs(tasks@)),
    {
        let ghost all = task_specs(tasks@);
        let mut r = DepsHash {
            directory: None,
            walk: hash_directory(Xxh3Hasher::new()),
            tasks,
            begun: 0,
        };
        assert(all.skip(0) =~= all);
        r.go_on();
        r
    }

    fn go_on(&mut self)
        requires
            old(self).wf(),
        ensures
            final(self).wf(),
            final(self)@ == begin(old(self)@.walk.fed, old(self)@.rest),
    {
        let ghost goal = begin(self@.walk.fed, self@.rest);
        self.walk.tasks = Vec::new();
        assert(self@.walk.tasks =~= Seq::empty());
        while self.begun < self.tasks.len()
            invariant
                self.wf(),
                self@.walk.tasks == Seq::<(Seq<u8>, EntryKind)>::empty(),
                goal == begin(old(self)@.walk.fed, old(self)@.rest),
                begin(self@.walk.fed, self@.rest) == goal,
            decreases self.tasks@.len() - self.begun,
        {
            let ghost rest = self@.rest;
            let ghost all = task_specs(self.tasks@);
            assert(rest[0] == self.tasks@[self.begun as int]@);
            assert(all.skip(self.begun as int).skip(1) =~= all.skip(self.begun + 1));
            match &self.tasks[self.begun] {
                HashTask::Text(text) => {
                    feed_text(&mut self.walk.hasher, text.as_str());
                },
                HashTask::Byte(byte) => {
                    feed_u8(&mut self.walk.hasher, *byte);
                },
                HashTask::Directory(path) => {
                    self.directory = Some(path.copy());
                    self.walk.request = WalkRequest::List(Vec::new());
                    self.begun = self.begun + 1;
                    assert(self.walk.request@->List_0 =~= Seq::<u8>::empty());
                    return;
                },
            }
            self.begun = self.begun + 1;
            assert(self@.rest =~= rest.skip(1));
        }
        self.directory = None;
        self.walk.request = WalkRequest::Finished;
    }

    /// Goes on after a directory has been fed.
    pub fn next_directory(&mut self)
        requires
            old(self).wf(),
            old(self).walk.request is Finished,
        ensures
            final(self).wf(),
            final(self)@ == begin(old(self)@.walk.fed, old(self)@.rest),
    {
        self.go_on();
    }

    /// The digest of all things, once they have been fed.
    pub fn digest128(&self) -> (r: u128)
        requires
            self.directory is None,
        ensures
            r == xxh3_128(self@.walk.fed),
    {
        self.walk.hasher.digest128()
    }
}

// ---------------------------------------------------------------------------
// Laws
// ---------------------------------------------------------------------------

/// The bytes of things, where the files in directories are given.
pub open spec fn enc_tasks(
    tasks: Seq<TaskSpec>,
    files: spec_fn(Seq<u8>) -> Seq<(Seq<u8>, Node)>,
) -> Seq<u8>
    decreases tasks.len(),
{
    if tasks.len() == 0 {
        Seq::empty()
    } else {
        let first = match tasks[0] {
            TaskSpec::Text(text) => enc_text(text),
            TaskSpec::Byte(byte) => seq![byte],
            TaskSpec::Directory(path) => enc_entries(Seq::empty(), files(path)),
        };
        first + enc_tasks(tasks.skip(1), files)
    }
}

/// The bytes that a moment of the feeding stands for: what has been fed and, if a directory is
/// about to be fed or everything has been, what is still to be fed.
pub open spec fn total_of(
    state: DepsState,
    files: spec_fn(Seq<u8>) -> Seq<(Seq<u8>, Node)>,
) -> Seq<u8> {
    match state.directory {
        None => state.walk.fed,
        Some(path) => state.walk.fed + enc_entries(Seq::empty(), files(path)) + enc_tasks(
            state.rest,
            files,
        ),
    }
}

/// `after` comes of `before` by a walk over the directory that is being fed, answered truly all
/// the time and come to its end.
pub open spec fn feeds_directory(
    before: DepsState,
    after: DepsState,
    turns: Seq<Turn>,
    files: spec_fn(Seq<u8>) -> Seq<(Seq<u8>, Node)>,
) -> bool {
    &&& before.directory is Some
    &&& turns.len() > 0
    &&& turns[0] == first_turn(before.walk.fed, files(before.directory->0))
    &&& forall|i: int| 0 <= i < turns.len() - 1 ==> answers(#[trigger] turns[i], turns[i + 1])
    &&& turns.last().state.want is Finished
    &&& after == begin(turns.last().state.fed, before.rest)
}

/// Where the feeding stands at its beginning or after a directory, fed and due bytes taken
/// together are the bytes of all that was to be fed.
pub proof fn lemma_begin_keeps_total(
    fed: Seq<u8>,
    rest: Seq<TaskSpec>,
    files: spec_fn(Seq<u8>) -> Seq<(Seq<u8>, Node)>,
)
    ensures
        total_of(begin(fed, rest), files) == fed + enc_tasks(rest, files),
    decreases rest.len(),
{
    if rest.len() == 0 {
        assert(fed + enc_tasks(rest, files) =~= fed);
    } else {
        match rest[0] {
            TaskSpec::Text(text) => {
                lemma_begin_keeps_total(fed + enc_text(text), rest.skip(1), files);
                assert(fed + enc_text(text) + enc_tasks(rest.skip(1), files) =~= fed + enc_tasks(
                    rest,
                    files,
                ));
            },
            TaskSpec::Byte(byte) => {
                lemma_begin_keeps_total(fed.push(byte), rest.skip(1), files);
                assert(fed.push(byte) + enc_tasks(rest.skip(1), files) =~= fed + enc_tasks(
                    rest,
                    files,
                ));
            },
            TaskSpec::Directory(path) => {
                assert(total_of(begin(fed, rest), files) =~= fed + enc_tasks(rest, files));
            },
        }
    }
}

/// Feeding a directory does not change what has been fed and is still to be fed, taken together.
/// So at the end exactly the bytes of all things have been fed, and the hash depends on the names
/// and on what is in the directories, not on where they are or how they were read.
pub proof fn lemma_directory_keeps_total(
    before: DepsState,
    after: DepsState,
    turns: Seq<Turn>,
    files: spec_fn(Seq<u8>) -> Seq<(Seq<u8>, Node)>,
)
    requires
        feeds_directory(before, after, turns, files),
        is_tree(Node::Directory(files(before.directory->0))),
    ensures
        total_of(after, files) == total_of(before, files),
{
    let entries = files(before.directory->0);
    lemma_walk_feeds_tree(turns, before.walk.fed, entries);
    lemma_begin_keeps_total(turns.last().state.fed, before.rest, files);
}

proof fn lemma_feeding_total(
    states: Seq<DepsState>,
    walks: Seq<Seq<Turn>>,
    files: spec_fn(Seq<u8>) -> Seq<(Seq<u8>, Node)>,
    k: int,
)
    requires
        0 <= k < states.len(),
        walks.len() == states.len() - 1,
        forall|p: Seq<u8>| is_tree(Node::Directory(#[trigger] files(p))),
        forall|i: int|
            0 <= i < walks.len() ==> feeds_directory(
                states[i],
                states[i + 1],
                #[trigger] walks[i],
                files,
            ),
    ensures
        total_of(states[k], files) == total_of(states[0], files),
    decreases k,
{
    if k > 0 {
        lemma_feeding_total(states, walks, files, k - 1);
        let walk = walks[k - 1];
        lemma_directory_keeps_total(states[k - 1], states[k], walk, files);
    }
}

/// Things have been fed from the beginning to the end, with all directories walked and answered
/// truly.
pub open spec fn is_feeding(
    tasks: Seq<TaskSpec>,
    states: Seq<DepsState>,
    walks: Seq<Seq<Turn>>,
    files: spec_fn(Seq<u8>) -> Seq<(Seq<u8>, Node)>,
) -> bool {
    &&& states.len() > 0
    &&& walks.len() == states.len() - 1
    &&& states[0] == begin(Seq::empty(), tasks)
    &&& states.last().directory is None
    &&& forall|p: Seq<u8>| is_tree(Node::Directory(#[trigger] files(p)))
    &&& forall|i: int|
        0 <= i < walks.len() ==> feeds_directory(states[i], states[i + 1], #[trigger] walks[i], files)
}

/// The bytes fed from the beginning to the end are the bytes of all things.
pub proof fn lemma_feeding_is_exact(
    tasks: Seq<TaskSpec>,
    states: Seq<DepsState>,
    walks: Seq<Seq<Turn>>,
    files: spec_fn(Seq<u8>) -> Seq<(Seq<u8>, Node)>,
)
    requires
        is_feeding(tasks, states, walks, files),
    ensures
        states.last().walk.fed == enc_tasks(tasks, files),
{
    let last = states.len() - 1;
    lemma_feeding_total(states, walks, files, last as int);
    lemma_begin_keeps_total(Seq::empty(), tasks, files);
    assert(Seq::<u8>::empty() + enc_tasks(tasks, files) =~= enc_tasks(tasks, files));
}

} // verus!
