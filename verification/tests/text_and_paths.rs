//! Texts, bytes, names and paths.

use std::collections::{BTreeMap, BTreeSet};
use std::path::{Component, Path, PathBuf};

use chariot::util::bytes::{
    bytes_eq, bytes_lt, bytes_to_vec, from_be_bytes, to_be_bytes, to_le_bytes,
};
use chariot::util::names::{name_before, NameMap, NameSet};
use chariot::util::path::{join_names, relative_rootfs_path, UnixPath};
use chariot::util::text::{
    chars_of, dashes, decimal, hex, is_whitespace, join, pad_right, starts_with, str_eq,
};

fn path(text: &str) -> UnixPath {
    UnixPath::from_text(text)
}

fn as_text(path: &UnixPath) -> String {
    String::from_utf8(path.bytes.clone()).unwrap()
}

const NUMBERS: [u128; 9] = [
    0,
    1,
    9,
    10,
    15,
    16,
    255,
    0x1234_5678_9abc_def0,
    u128::MAX,
];

#[test]
fn numerals_are_those_of_format() {
    for n in NUMBERS {
        assert_eq!(hex(n), format!("{:x}", n));
        assert_eq!(decimal(n), format!("{}", n));
    }
}

#[test]
fn fixed_width_numbers_are_those_of_std() {
    for n in NUMBERS {
        assert_eq!(to_le_bytes(n, 16), n.to_le_bytes().to_vec());
        assert_eq!(to_le_bytes(n, 8), (n as u64).to_le_bytes().to_vec());
        assert_eq!(to_be_bytes(n), n.to_be_bytes().to_vec());
        assert_eq!(from_be_bytes(&n.to_be_bytes()), n);
    }
}

#[test]
fn byte_strings_compare_like_slices() {
    let samples: [&[u8]; 6] = [b"", b"a", b"ab", b"b", &[0xff], &[0, 0xff]];
    for a in samples {
        for b in samples {
            assert_eq!(bytes_lt(a, b), a < b);
            assert_eq!(bytes_eq(a, b), a == b);
        }
        assert_eq!(bytes_to_vec(a), a.to_vec());
    }
}

#[test]
fn texts_compare_like_str() {
    let samples = ["", "a", "A", "ab", "\u{e9}", "e\u{301}", "\u{1f600}"];
    for a in samples {
        for b in samples {
            assert_eq!(str_eq(a, b), a == b);
            assert_eq!(starts_with(a, b), a.starts_with(b));
            assert_eq!(name_before(a, b), a < b);
        }
        assert_eq!(chars_of(a), a.chars().collect::<Vec<_>>());
    }
}

#[test]
fn white_space_is_that_of_char() {
    let mut n: u32 = 0;
    while n <= 0x10ffff {
        if let Some(c) = char::from_u32(n) {
            assert_eq!(is_whitespace(c), c.is_whitespace(), "{:x}", n);
        }
        n += 1;
    }
}

#[test]
fn joining_and_padding() {
    let parts: Vec<String> = vec!["a".to_string(), "".to_string(), "c d".to_string()];
    assert_eq!(join(&parts, ", "), parts.join(", "));
    assert_eq!(join(&Vec::new(), ", "), "");
    assert_eq!(dashes(0), "");
    assert_eq!(dashes(4), "----");
    for text in ["", "abc", "\u{e9}t\u{e9}", "abcdefghij"] {
        for width in [0usize, 3, 8] {
            assert_eq!(pad_right(text, width), format!("{:<width$}", text, width = width));
        }
    }
}

#[test]
fn paths_join_like_path_buf() {
    for base in ["", "/", "/a", "/a/", "a/b", "."] {
        for tail in ["", "x", "x/y", "/x", "/", "../x", "\u{e9}"] {
            let expected = PathBuf::from(base).join(tail);
            assert_eq!(as_text(&path(base).join(tail)), expected.to_str().unwrap(), "{} {}", base, tail);
        }
    }
    assert_eq!(path("a").copy().bytes, b"a".to_vec());
    assert_eq!(UnixPath::from_bytes(&[1, 2]).bytes, vec![1, 2]);
}

#[test]
fn names_join_like_paths() {
    for name in ["", "x", "/x", "a b"] {
        let expected = PathBuf::from("/chariot").join(name);
        assert_eq!(join_names("/chariot", name), expected.to_str().unwrap());
        assert_eq!(join_names("/chariot", name).as_bytes().to_vec(), path("/chariot").join(name).bytes);
    }
}

fn std_relative(root: &str, target: &str) -> PathBuf {
    let mut out = PathBuf::from(root);
    for component in Path::new(target).components() {
        match component {
            Component::Prefix(_) | Component::RootDir | Component::CurDir => {}
            Component::ParentDir => out.push(".."),
            Component::Normal(part) => out.push(part),
        }
    }
    out
}

#[test]
fn paths_in_a_root_are_those_of_components() {
    for root in ["/r", "/r/", "r"] {
        for target in ["/", "", ".", "/a", "a/b", "/a//b/", "./a/./b/.", "/a/../b", "..", "/.hidden/...", "/a/b/c"] {
            let ours = as_text(&relative_rootfs_path(&path(root), &path(target)));
            assert_eq!(ours, std_relative(root, target).to_str().unwrap(), "{} {}", root, target);
            assert!(ours.starts_with(root));
        }
    }
}

#[test]
fn name_maps_are_ordered_like_btree_maps() {
    let keys = ["b", "a", "\u{e9}", "c", "a", "B", ""];
    let mut ours: NameMap<String> = NameMap::new();
    let mut theirs: BTreeMap<String, String> = BTreeMap::new();
    for (i, key) in keys.iter().enumerate() {
        let value = format!("v{}", i);
        ours.set(key, &value);
        theirs.insert(key.to_string(), value);
    }
    let listed: Vec<(String, String)> = theirs.into_iter().collect();
    assert_eq!(ours.entries, listed);
    assert_eq!(ours.get("a"), Some(&"v4".to_string()));
    assert_eq!(ours.get("zz"), None);
    assert_eq!(ours.copy().entries, listed);

    let mut other: NameMap<String> = NameMap::new();
    other.set("a", "other");
    other.set("z", "last");
    ours.set_all(&other);
    assert_eq!(ours.get("a"), Some(&"other".to_string()));
    assert_eq!(ours.get("z"), Some(&"last".to_string()));
    assert_eq!(ours.get("b"), Some(&"v0".to_string()));
}

#[test]
fn name_sets_are_ordered_like_btree_sets() {
    let names = ["z", "a", "m", "a", "Z"];
    let mut ours = NameSet::new();
    let mut theirs = BTreeSet::new();
    for name in names {
        ours.insert(name.to_string());
        theirs.insert(name.to_string());
    }
    assert_eq!(ours.names, theirs.into_iter().collect::<Vec<_>>());
    assert!(ours.contains("m"));
    assert!(!ours.contains("b"));
}
