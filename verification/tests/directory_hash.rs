//! Hashing directory trees.

use std::hash::Hasher;

use chariot::depshash::{DepsHash, HashTask};
use chariot::package::begin_package_hash;
use chariot::util::hash::{
    hash_directory, sort_entries, DirectoryEntry, DirectoryHash, EntryKind, WalkRequest,
};
use chariot::util::path::UnixPath;
use chariot::util::xxh3::Xxh3Hasher;
use xxhash_rust::xxh3::Xxh3;

use chariot::config::package::{Package, PackagePlatform};
use chariot::config::script::Script;
use chariot::config::{Dependencies, GlobalEnvironment};
use chariot::util::names::{NameMap, NameSet};
use std::sync::Arc;

enum Tree {
    Directory(Vec<(&'static str, Tree)>),
    Link(&'static str),
    File(&'static str),
    Special(EntryKind),
}

fn kind(tree: &Tree) -> EntryKind {
    match tree {
        Tree::Directory(_) => EntryKind::Directory,
        Tree::Link(_) => EntryKind::Symlink,
        Tree::File(_) => EntryKind::File,
        Tree::Special(kind) => *kind,
    }
}

fn at<'a>(tree: &'a Tree, path: &[u8]) -> &'a Tree {
    let mut here = tree;
    if path.is_empty() {
        return here;
    }
    for part in path.split(|b| *b == b'/') {
        match here {
            Tree::Directory(entries) => {
                let found = entries.iter().find(|(name, _)| name.as_bytes() == part);
                here = &found.unwrap().1;
            }
            _ => panic!("not a directory"),
        }
    }
    here
}

/// Answers a walk from a tree in memory. Directories are listed backwards if wanted, and files are
/// handed over in pieces of the given size.
fn drive(walk: &mut DirectoryHash, tree: &Tree, backwards: bool, piece: usize) {
    let mut offset = 0;
    loop {
        match &walk.request {
            WalkRequest::Finished => return,
            WalkRequest::List(path) => match at(tree, path) {
                Tree::Directory(entries) => {
                    let mut listed: Vec<DirectoryEntry> = entries
                        .iter()
                        .map(|(name, node)| DirectoryEntry {
                            name: name.as_bytes().to_vec(),
                            kind: kind(node),
                        })
                        .collect();
                    if backwards {
                        listed.reverse();
                    }
                    walk.listing(listed);
                }
                _ => panic!("not a directory"),
            },
            WalkRequest::ReadLink(path) => match at(tree, path) {
                Tree::Link(target) => walk.target(target.as_bytes()),
                _ => panic!("not a link"),
            },
            WalkRequest::Size(path) => match at(tree, path) {
                Tree::File(bytes) => {
                    offset = 0;
                    walk.size(bytes.len() as u64)
                }
                _ => panic!("not a file"),
            },
            WalkRequest::Read(path) => match at(tree, path) {
                Tree::File(bytes) => {
                    let bytes = bytes.as_bytes();
                    let end = bytes.len().min(offset + piece);
                    let chunk = bytes[offset..end].to_vec();
                    offset = end;
                    walk.chunk(&chunk);
                }
                _ => panic!("not a file"),
            },
        }
    }
}

fn header(hasher: &mut Xxh3, tag: u8, path: &str) {
    hasher.write_u8(tag);
    hasher.write_u64(path.len() as u64);
    hasher.write(path.as_bytes());
}

fn sample() -> Tree {
    Tree::Directory(vec![
        ("b", Tree::File("content of b")),
        (
            "a",
            Tree::Directory(vec![
                ("z", Tree::File("")),
                ("link", Tree::Link("../b")),
                ("empty", Tree::Directory(vec![])),
            ]),
        ),
        ("c", Tree::Special(EntryKind::Fifo)),
        ("d", Tree::Special(EntryKind::Socket)),
        ("e", Tree::Special(EntryKind::BlockDevice)),
        ("f", Tree::Special(EntryKind::CharDevice)),
        ("g", Tree::Special(EntryKind::Other)),
    ])
}

fn feed_sample(hasher: &mut Xxh3) {
    header(hasher, b'D', "a");
    header(hasher, b'D', "a/empty");
    header(hasher, b'L', "a/link");
    hasher.write_u64(4);
    hasher.write(b"../b");
    header(hasher, b'F', "a/z");
    hasher.write_u64(0);
    header(hasher, b'F', "b");
    hasher.write_u64(12);
    hasher.write(b"content of b");
    header(hasher, b'I', "c");
    header(hasher, b'S', "d");
    header(hasher, b'B', "e");
    header(hasher, b'C', "f");
    header(hasher, b'O', "g");
}

#[test]
fn a_tree_is_fed_in_the_order_of_names() {
    let mut expected = Xxh3::new();
    feed_sample(&mut expected);
    let mut walk = hash_directory(Xxh3Hasher::new());
    drive(&mut walk, &sample(), false, 64);
    assert_eq!(walk.digest128(), expected.digest128());
}

#[test]
fn order_of_listing_and_pieces_make_no_difference() {
    let mut expected = Xxh3::new();
    feed_sample(&mut expected);
    for piece in [1usize, 5, 12, 100] {
        let mut walk = hash_directory(Xxh3Hasher::new());
        drive(&mut walk, &sample(), true, piece);
        assert_eq!(walk.digest128(), expected.digest128());
    }
}

#[test]
fn what_was_fed_before_stays_in_front() {
    let mut start = Xxh3Hasher::new();
    start.update(b"before");
    let mut expected = Xxh3::new();
    expected.update(b"before");
    feed_sample(&mut expected);
    let mut walk = hash_directory(start);
    drive(&mut walk, &sample(), false, 3);
    assert_eq!(walk.digest128(), expected.digest128());
}

#[test]
fn an_empty_directory_feeds_nothing() {
    let mut walk = hash_directory(Xxh3Hasher::new());
    drive(&mut walk, &Tree::Directory(vec![]), false, 1);
    assert_eq!(walk.digest128(), Xxh3::new().digest128());
}

#[test]
fn different_trees_have_different_hashes() {
    let trees = [
        Tree::Directory(vec![("a", Tree::File("x"))]),
        Tree::Directory(vec![("a", Tree::File("y"))]),
        Tree::Directory(vec![("b", Tree::File("x"))]),
        Tree::Directory(vec![("a", Tree::Link("x"))]),
        Tree::Directory(vec![("a", Tree::Directory(vec![("x", Tree::File(""))]))]),
        Tree::Directory(vec![("a", Tree::Directory(vec![])), ("x", Tree::File(""))]),
    ];
    let mut seen = Vec::new();
    for tree in &trees {
        let mut walk = hash_directory(Xxh3Hasher::new());
        drive(&mut walk, tree, false, 2);
        let digest = walk.digest128();
        assert!(!seen.contains(&digest));
        seen.push(digest);
    }
}

#[test]
fn entries_are_sorted_by_bytes_and_keep_their_kinds() {
    let entry = |name: &[u8], kind: EntryKind| DirectoryEntry {
        name: name.to_vec(),
        kind,
    };
    let sorted = sort_entries(vec![
        entry(b"b", EntryKind::File),
        entry(&[0xff], EntryKind::Fifo),
        entry(b"B", EntryKind::Symlink),
        entry(b"a", EntryKind::Directory),
    ]);
    let names: Vec<Vec<u8>> = sorted.iter().map(|e| e.name.clone()).collect();
    assert_eq!(names, vec![b"B".to_vec(), b"a".to_vec(), b"b".to_vec(), vec![0xff]]);
    assert_eq!(sorted[0].kind, EntryKind::Symlink);
    assert_eq!(sorted[3].kind, EntryKind::Fifo);
}

#[test]
fn dependencies_are_fed_one_after_the_other() {
    let first = Tree::Directory(vec![("x", Tree::File("1"))]);
    let second = Tree::Directory(vec![("y", Tree::Link("t"))]);
    let mut deps = DepsHash::new(vec![
        HashTask::Text("name".to_string()),
        HashTask::Directory(UnixPath::from_text("/first")),
        HashTask::Directory(UnixPath::from_text("/second")),
        HashTask::Byte(1),
    ]);
    let mut visited = Vec::new();
    while let Some(path) = &deps.directory {
        let text = String::from_utf8(path.bytes.clone()).unwrap();
        let tree = if text == "/first" { &first } else { &second };
        visited.push(text);
        drive(&mut deps.walk, tree, true, 1);
        deps.next_directory();
    }
    assert_eq!(visited, vec!["/first".to_string(), "/second".to_string()]);

    let mut expected = Xxh3::new();
    expected.write(b"name");
    expected.write_u8(0xff);
    header(&mut expected, b'F', "x");
    expected.write_u64(1);
    expected.write(b"1");
    header(&mut expected, b'L', "y");
    expected.write_u64(1);
    expected.write(b"t");
    expected.write_u8(1);
    assert_eq!(deps.digest128(), expected.digest128());
}

fn package() -> Package {
    Package {
        global_env: Arc::new(GlobalEnvironment {
            rootfs_manifest_hash: "m".to_string(),
            global_environment_variables: NameMap::new(),
            global_native_packages: NameSet::new(),
            target_arch: "riscv64".to_string(),
            target_prefix: "/usr".to_string(),
        }),
        platform: PackagePlatform::Target,
        name: "p".to_string(),
        version: "1".to_string(),
        revision: 1,
        dependencies: Dependencies::default(),
        runtime_dependencies: Vec::new(),
        environment_variables: NameMap::new(),
        configure: None,
        build: None,
        install: Script::bash("true"),
    }
}

#[test]
fn the_hash_of_a_package_is_made_of_its_description_and_files() {
    let package = package();
    let mut expected = Xxh3::new();
    expected.write_u128(package.get_package_meta_hash());
    feed_sample(&mut expected);
    let mut walk = begin_package_hash(&package);
    drive(&mut walk, &sample(), true, 7);
    assert_eq!(walk.digest128(), expected.digest128());
}

#[test]
fn a_hasher_agrees_with_the_one_shot_hash() {
    let bytes: Vec<u8> = (0..1000u32).map(|n| (n % 251) as u8).collect();
    for cut in [0, 1, 240, 241, 512, 1000] {
        let mut hasher = Xxh3Hasher::new();
        hasher.update(&bytes[..cut]);
        hasher.update(&bytes[cut..]);
        assert_eq!(hasher.digest128(), xxhash_rust::xxh3::xxh3_128(&bytes));
    }
    // The digest of nothing, as the reference values of the hash give it.
    assert_eq!(Xxh3Hasher::new().digest128(), 0x99aa06d3014798d86001c324468d497f);
}
