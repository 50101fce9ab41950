//! What a walk over a directory tree feeds, stated of the tree itself.

use crate::util::bytes::lex_lt;
use crate::util::feed::enc_u64;
use crate::util::hash::{
    advance, after_listing, after_read, after_size, after_target, child_path, enc_header, kind_tag,
    tasks_of, EntryKind, WalkState, Want,
};
use crate::util::sort::{by_name, in_strict_name_order, lemma_by_name_of_arrangement};
use vstd::prelude::*;

verus! {

/// A part of a file system.
pub enum Node {
    /// a directory with its entries in the order of their names
    Directory(Seq<(Seq<u8>, Node)>),
    /// a symbolic link with its target
    Symlink(Seq<u8>),
    /// a file with its size and its bytes
    File(u64, Seq<u8>),
    /// anything else
    Special(EntryKind),
}

/// The kind of entry that a node is.
pub open spec fn kind_of(node: Node) -> EntryKind {
    match node {
        Node::Directory(_) => EntryKind::Directory,
        Node::Symlink(_) => EntryKind::Symlink,
        Node::File(_, _) => EntryKind::File,
        Node::Special(kind) => kind,
    }
}

/// The names and kinds of named nodes.
pub open spec fn kinds_of(s: Seq<(Seq<u8>, Node)>) -> Seq<(Seq<u8>, EntryKind)> {
    s.map_values(|e: (Seq<u8>, Node)| (e.0, kind_of(e.1)))
}

/// The bytes that are fed of a node at a path.
pub open spec fn enc_node(path: Seq<u8>, node: Node) -> Seq<u8>
    decreases node, 1nat,
{
    enc_header(kind_tag(kind_of(node)), path) + enc_body(path, node)
}

/// The bytes that are fed of a node behind its header.
pub open spec fn enc_body(path: Seq<u8>, node: Node) -> Seq<u8>
    decreases node, 0nat,
{
    match node {
        Node::Directory(entries) => enc_entries(path, entries),
        Node::Symlink(target) => enc_u64(target.len()) + target,
        Node::File(size, bytes) => enc_u64(size as nat) + bytes,
        Node::Special(_) => Seq::empty(),
    }
}

/// The bytes that are fed of the entries of a directory.
pub open spec fn enc_entries(dir: Seq<u8>, entries: Seq<(Seq<u8>, Node)>) -> Seq<u8>
    decreases entries, 0nat,
{
    if entries.len() == 0 {
        Seq::empty()
    } else {
        enc_entries(dir, entries.drop_last()) + enc_node(
            child_path(dir, entries.last().0),
            entries.last().1,
        )
    }
}

/// Directories hold their entries in the order of the names, and what is special is neither a
/// directory nor a link nor a file.
pub open spec fn is_tree(node: Node) -> bool
    decreases node, 0nat,
{
    match node {
        Node::Directory(entries) => are_trees(entries) && in_strict_name_order(entries),
        Node::Special(kind) => kind != EntryKind::Directory && kind != EntryKind::Symlink && kind
            != EntryKind::File,
        _ => true,
    }
}

/// All of the nodes are well-formed.
pub open spec fn are_trees(s: Seq<(Seq<u8>, Node)>) -> bool
    decreases s, 0nat,
{
    if s.len() == 0 {
        true
    } else {
        are_trees(s.drop_last()) && is_tree(s.last().1)
    }
}

proof fn lemma_are_trees(s: Seq<(Seq<u8>, Node)>, i: int)
    requires
        are_trees(s),
        0 <= i < s.len(),
    ensures
        is_tree(s[i].1),
    decreases s.len(),
{
    if i < s.len() - 1 {
        lemma_are_trees(s.drop_last(), i);
    }
}

// ---------------------------------------------------------------------------
// A walk over a tree
// ---------------------------------------------------------------------------

/// A walk at a moment, and what the file system holds where the walk stands.
pub struct Turn {
    pub state: WalkState,
    /// the node that the walk asks about
    pub here: Node,
    /// the bytes of the file that the walk reads that it has not been handed yet
    pub left: Seq<u8>,
    /// the nodes that are still to be fed, the next one last
    pub nodes: Seq<Node>,
}

/// The bytes that are still to be fed of nodes at paths, the last one first.
pub open spec fn still_to_feed(tasks: Seq<(Seq<u8>, EntryKind)>, nodes: Seq<Node>) -> Seq<u8>
    decreases tasks.len(),
{
    if tasks.len() == 0 {
        Seq::empty()
    } else {
        enc_node(tasks.last().0, nodes.last()) + still_to_feed(tasks.drop_last(), nodes.drop_last())
    }
}

/// The nodes are those that the tasks name by their kinds.
pub open spec fn tasks_fit(tasks: Seq<(Seq<u8>, EntryKind)>, nodes: Seq<Node>) -> bool {
    &&& tasks.len() == nodes.len()
    &&& forall|i: int|
        0 <= i < tasks.len() ==> (#[trigger] tasks[i]).1 == kind_of(nodes[i]) && is_tree(nodes[i])
}

/// What the walk asks about is there, as the kind that the walk takes it for.
pub open spec fn turn_fits(turn: Turn) -> bool {
    &&& tasks_fit(turn.state.tasks, turn.nodes)
    &&& is_tree(turn.here)
    &&& match turn.state.want {
        Want::List(_) => turn.here is Directory,
        Want::ReadLink(_) => turn.here is Symlink,
        Want::Size(_) => turn.here is File,
        Want::Read(_) => true,
        Want::Finished => turn.state.tasks.len() == 0,
    }
}

/// The bytes that are still to be fed from here on.
pub open spec fn owed(turn: Turn) -> Seq<u8> {
    match turn.state.want {
        Want::List(dir) => enc_body(dir, turn.here) + still_to_feed(turn.state.tasks, turn.nodes),
        Want::ReadLink(path) => enc_body(path, turn.here) + still_to_feed(
            turn.state.tasks,
            turn.nodes,
        ),
        Want::Size(path) => enc_body(path, turn.here) + still_to_feed(turn.state.tasks, turn.nodes),
        Want::Read(path) => turn.left + still_to_feed(turn.state.tasks, turn.nodes),
        Want::Finished => Seq::empty(),
    }
}

/// The node that is asked about next, and those behind it.
pub open spec fn next_nodes(nodes: Seq<Node>) -> (Node, Seq<Node>)
    decreases nodes.len(),
{
    if nodes.len() == 0 {
        (Node::Special(EntryKind::Other), nodes)
    } else {
        match nodes.last() {
            Node::Special(_) => next_nodes(nodes.drop_last()),
            node => (node, nodes.drop_last()),
        }
    }
}

/// The turn after the walk has gone on with the given tasks.
pub open spec fn next_turn(fed: Seq<u8>, tasks: Seq<(Seq<u8>, EntryKind)>, nodes: Seq<Node>) -> Turn {
    let (here, behind) = next_nodes(nodes);
    Turn { state: advance(fed, tasks), here, left: Seq::empty(), nodes: behind }
}

/// The nodes of a directory's entries, the last one first.
pub open spec fn nodes_of(entries: Seq<(Seq<u8>, Node)>) -> Seq<Node> {
    entries.map_values(|e: (Seq<u8>, Node)| e.1).reverse()
}

/// `after` comes of `before` by a true answer: a directory's entries are handed over in any
/// order, and a file's bytes in pieces of any size.
pub open spec fn answers(before: Turn, after: Turn) -> bool {
    match before.state.want {
        Want::List(dir) => exists|listed: Seq<(Seq<u8>, EntryKind)>|
            {
                &&& listed.to_multiset() == kinds_of(before.here->Directory_0).to_multiset()
                &&& after.state == #[trigger] after_listing(before.state, dir, listed)
                &&& after == next_turn(
                    before.state.fed,
                    before.state.tasks + tasks_of(dir, by_name(listed)),
                    before.nodes + nodes_of(before.here->Directory_0),
                )
            },
        Want::ReadLink(_) => {
            let target = before.here->Symlink_0;
            &&& after.state == after_target(before.state, target)
            &&& after == next_turn(
                before.state.fed + enc_u64(target.len()) + target,
                before.state.tasks,
                before.nodes,
            )
        },
        Want::Size(path) => {
            &&& after.state == after_size(before.state, path, before.here->File_0)
            &&& after.here == before.here
            &&& after.nodes == before.nodes
            &&& after.left == before.here->File_1
        },
        Want::Read(_) => if before.left.len() == 0 {
            &&& after.state == after_read(before.state, Seq::empty())
            &&& after == next_turn(before.state.fed, before.state.tasks, before.nodes)
        } else {
            exists|chunk: Seq<u8>|
                {
                    &&& chunk.len() > 0
                    &&& chunk + after.left == before.left
                    &&& after.state == #[trigger] after_read(before.state, chunk)
                    &&& after.here == before.here
                    &&& after.nodes == before.nodes
                }
        },
        Want::Finished => false,
    }
}

proof fn lemma_next_turn(fed: Seq<u8>, tasks: Seq<(Seq<u8>, EntryKind)>, nodes: Seq<Node>)
    requires
        tasks_fit(tasks, nodes),
    ensures
        turn_fits(next_turn(fed, tasks, nodes)),
        next_turn(fed, tasks, nodes).state.fed + owed(next_turn(fed, tasks, nodes)) == fed
            + still_to_feed(tasks, nodes),
    decreases tasks.len(),
{
    let turn = next_turn(fed, tasks, nodes);
    if tasks.len() == 0 {
        assert(turn.state.fed + owed(turn) =~= fed + still_to_feed(tasks, nodes));
    } else {
        let (path, kind) = tasks.last();
        let node = nodes.last();
        assert(tasks[tasks.len() - 1].1 == kind_of(nodes[nodes.len() - 1]));
        let now = fed + enc_header(kind_tag(kind), path);
        let rest = tasks.drop_last();
        let behind = nodes.drop_last();
        assert forall|i: int| 0 <= i < rest.len() implies (#[trigger] rest[i]).1 == kind_of(
            behind[i],
        ) && is_tree(behind[i]) by {
            assert(rest[i] == tasks[i]);
        }
        assert(tasks_fit(rest, behind));
        if node is Special {
            lemma_next_turn(now, rest, behind);
            assert(turn == next_turn(now, rest, behind));
            assert(enc_node(path, node) =~= enc_header(kind_tag(kind), path));
        }
        assert(now + (enc_body(path, node) + still_to_feed(rest, behind)) =~= fed + still_to_feed(
            tasks,
            nodes,
        ));
    }
}

proof fn lemma_still_to_feed_entries(
    tasks: Seq<(Seq<u8>, EntryKind)>,
    nodes: Seq<Node>,
    dir: Seq<u8>,
    entries: Seq<(Seq<u8>, Node)>,
)
    requires
        tasks.len() == nodes.len(),
    ensures
        still_to_feed(tasks + tasks_of(dir, kinds_of(entries)), nodes + nodes_of(entries))
            == enc_entries(dir, entries) + still_to_feed(tasks, nodes),
    decreases entries.len(),
{
    let more = tasks_of(dir, kinds_of(entries));
    let below = nodes_of(entries);
    if entries.len() == 0 {
        assert(tasks + more =~= tasks);
        assert(nodes + below =~= nodes);
        assert(enc_entries(dir, entries) + still_to_feed(tasks, nodes) =~= still_to_feed(
            tasks,
            nodes,
        ));
    } else {
        // The first entry is the last task: peel the entries from the other end.
        let last = entries.last();
        let front = entries.drop_last();
        let path = child_path(dir, last.0);
        let tasks1 = tasks.push((path, kind_of(last.1)));
        let nodes1 = nodes.push(last.1);
        lemma_still_to_feed_entries(tasks1, nodes1, dir, front);
        assert(tasks1 + tasks_of(dir, kinds_of(front)) =~= tasks + more);
        assert(nodes1 + nodes_of(front) =~= nodes + below);
        assert(tasks1.drop_last() =~= tasks);
        assert(nodes1.drop_last() =~= nodes);
        assert(enc_entries(dir, front) + (enc_node(path, last.1) + still_to_feed(tasks, nodes))
            =~= enc_entries(dir, entries) + still_to_feed(tasks, nodes));
    }
}

/// A true answer never changes what has been fed and is still to be fed, taken together.
pub proof fn lemma_answer_keeps_total(before: Turn, after: Turn)
    requires
        turn_fits(before),
        answers(before, after),
    ensures
        turn_fits(after),
        after.state.fed + owed(after) == before.state.fed + owed(before),
{
    let fed = before.state.fed;
    let tasks = before.state.tasks;
    let nodes = before.nodes;
    match before.state.want {
        Want::List(dir) => {
            let entries = before.here->Directory_0;
            let listed = choose|listed: Seq<(Seq<u8>, EntryKind)>|
                {
                    &&& listed.to_multiset() == kinds_of(entries).to_multiset()
                    &&& after.state == #[trigger] after_listing(before.state, dir, listed)
                    &&& after == next_turn(
                        fed,
                        tasks + tasks_of(dir, by_name(listed)),
                        nodes + nodes_of(entries),
                    )
                };
            let named = kinds_of(entries);
            assert forall|i: int, j: int| 0 <= i < j < named.len() implies lex_lt(
                (#[trigger] named[i]).0,
                (#[trigger] named[j]).0,
            ) by {
                assert(named[i].0 == entries[i].0);
                assert(named[j].0 == entries[j].0);
            }
            lemma_by_name_of_arrangement(listed, named);
            let all_tasks = tasks + tasks_of(dir, named);
            let all_nodes = nodes + nodes_of(entries);
            assert forall|i: int| 0 <= i < all_tasks.len() implies (#[trigger] all_tasks[i]).1
                == kind_of(all_nodes[i]) && is_tree(all_nodes[i]) by {
                if i < tasks.len() {
                    assert(all_tasks[i] == tasks[i]);
                    assert(all_nodes[i] == nodes[i]);
                } else {
                    let k = entries.len() - 1 - (i - tasks.len());
                    assert(all_nodes[i] == entries[k].1);
                    lemma_are_trees(entries, k);
                }
            }
            lemma_next_turn(fed, all_tasks, all_nodes);
            lemma_still_to_feed_entries(tasks, nodes, dir, entries);
        },
        Want::ReadLink(path) => {
            let target = before.here->Symlink_0;
            lemma_next_turn(fed + enc_u64(target.len()) + target, tasks, nodes);
            assert(fed + enc_u64(target.len()) + target + still_to_feed(tasks, nodes) =~= fed
                + owed(before));
        },
        Want::Size(path) => {
            assert(after.state.fed + owed(after) =~= fed + owed(before));
        },
        Want::Read(path) => {
            if before.left.len() == 0 {
                lemma_next_turn(fed, tasks, nodes);
                assert(owed(before) =~= still_to_feed(tasks, nodes));
            } else {
                let chunk = choose|chunk: Seq<u8>|
                    {
                        &&& chunk.len() > 0
                        &&& chunk + after.left == before.left
                        &&& after.state == #[trigger] after_read(before.state, chunk)
                        &&& after.here == before.here
                        &&& after.nodes == before.nodes
                    };
                assert(after.state.fed + owed(after) =~= fed + owed(before));
            }
        },
        Want::Finished => {},
    }
}

/// The first turn of a walk over a directory with the given entries.
pub open spec fn first_turn(fed: Seq<u8>, entries: Seq<(Seq<u8>, Node)>) -> Turn {
    Turn {
        state: WalkState { fed, tasks: Seq::empty(), want: Want::List(Seq::empty()) },
        here: Node::Directory(entries),
        left: Seq::empty(),
        nodes: Seq::empty(),
    }
}

proof fn lemma_walk_total(turns: Seq<Turn>, k: int)
    requires
        turns.len() > 0,
        turn_fits(turns[0]),
        forall|i: int| 0 <= i < turns.len() - 1 ==> answers(#[trigger] turns[i], turns[i + 1]),
        0 <= k < turns.len(),
    ensures
        turn_fits(turns[k]),
        turns[k].state.fed + owed(turns[k]) == turns[0].state.fed + owed(turns[0]),
    decreases k,
{
    if k > 0 {
        lemma_walk_total(turns, k - 1);
        assert(answers(turns[k - 1], turns[k - 1 + 1]));
        lemma_answer_keeps_total(turns[k - 1], turns[k]);
    }
}

/// A walk that is answered truly and comes to its end has fed the hasher exactly the bytes of the
/// tree, however the entries of directories were ordered and files were cut into pieces.
pub proof fn lemma_walk_feeds_tree(turns: Seq<Turn>, fed: Seq<u8>, entries: Seq<(Seq<u8>, Node)>)
    requires
        is_tree(Node::Directory(entries)),
        turns.len() > 0,
        turns[0] == first_turn(fed, entries),
        forall|i: int| 0 <= i < turns.len() - 1 ==> answers(#[trigger] turns[i], turns[i + 1]),
        turns.last().state.want is Finished,
    ensures
        turns.last().state.fed == fed + enc_entries(Seq::empty(), entries),
{
    let last = turns.len() - 1;
    lemma_walk_total(turns, last as int);
    assert(owed(turns[last as int]) =~= Seq::empty());
    assert(turns[last as int].state.fed + Seq::<u8>::empty() =~= turns[last as int].state.fed);
    assert(owed(turns[0]) =~= enc_entries(Seq::empty(), entries)) by {
        assert(still_to_feed(Seq::empty(), Seq::empty()) =~= Seq::empty());
    }
}

} // verus!
