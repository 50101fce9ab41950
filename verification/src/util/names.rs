//! Maps and sets whose keys are names, held in the order of their names.

use crate::util::bytes::{bytes_lt, lemma_lex_total, lemma_lex_transitive, lex_lt};
use crate::util::text::{lemma_utf8_injective, str_eq};
use vstd::prelude::*;
use vstd::utf8::encode_utf8;

verus! {

/// The name `a` comes before the name `b`: names are ordered by their bytes.
pub open spec fn name_lt(a: Seq<char>, b: Seq<char>) -> bool {
    lex_lt(encode_utf8(a), encode_utf8(b))
}

/// Whether the name `a` comes before the name `b`.
pub fn name_before(a: &str, b: &str) -> (r: bool)
    ensures
        r == name_lt(a@, b@),
{
    bytes_lt(a.as_bytes(), b.as_bytes())
}

// ---------------------------------------------------------------------------
// Maps
// ---------------------------------------------------------------------------

/// A map from names to values, as a list of entries in the order of the names.
#[derive(Debug)]
pub struct NameMap<V> {
    pub entries: Vec<(String, V)>,
}

/// The value that a list of entries has under a name: that of the first entry with the name.
pub open spec fn find<V>(entries: Seq<(String, V)>, name: Seq<char>) -> Option<V>
    decreases entries.len(),
{
    if entries.len() == 0 {
        None
    } else if entries[0].0@ == name {
        Some(entries[0].1)
    } else {
        find(entries.skip(1), name)
    }
}

impl<V> View for NameMap<V> {
    type V = Map<Seq<char>, V>;

    open spec fn view(&self) -> Map<Seq<char>, V> {
        Map::new(
            |name: Seq<char>| find(self.entries@, name) is Some,
            |name: Seq<char>| find(self.entries@, name)->0,
        )
    }
}

impl<V> NameMap<V> {
    /// The entries are in the order of their names, and no name occurs twice.
    pub open spec fn wf(self) -> bool {
        forall|i: int, j: int|
            0 <= i < j < self.entries@.len() ==> name_lt(
                (#[trigger] self.entries@[i]).0@,
                (#[trigger] self.entries@[j]).0@,
            )
    }

    /// Whether the entries are in the order of their names, and no name occurs twice.
    pub fn check_order(&self) -> (r: bool)
        ensures
            r == self.wf(),
    {
        let mut i: usize = 1;
        while i < self.entries.len()
            invariant
                1 <= i,
                i <= self.entries@.len() || self.entries@.len() == 0,
                forall|a: int, b: int|
                    0 <= a < b < i && b < self.entries@.len() ==> name_lt(
                        (#[trigger] self.entries@[a]).0@,
                        (#[trigger] self.entries@[b]).0@,
                    ),
            decreases self.entries@.len() - i,
        {
            if !name_before(self.entries[i - 1].0.as_str(), self.entries[i].0.as_str()) {
                assert(!name_lt(self.entries@[i - 1].0@, self.entries@[i as int].0@));
                return false;
            }
            proof {
                let next = self.entries@[i as int].0@;
                assert forall|a: int| 0 <= a < i implies name_lt(
                    (#[trigger] self.entries@[a]).0@,
                    next,
                ) by {
                    if a < i - 1 {
                        lemma_lex_transitive(
                            encode_utf8(self.entries@[a].0@),
                            encode_utf8(self.entries@[i - 1].0@),
                            encode_utf8(next),
                        );
                    }
                }
            }
            i = i + 1;
        }
        true
    }

    /// The map without entries.
    pub fn new() -> (r: NameMap<V>)
        ensures
            r.wf(),
            r.entries@.len() == 0,
            r@ == Map::<Seq<char>, V>::empty(),
    {
        let r = NameMap { entries: Vec::new() };
        assert(r@ =~= Map::<Seq<char>, V>::empty());
        r
    }

    fn position(&self, name: &str) -> (r: Option<usize>)
        ensures
            match r {
                Some(i) => i < self.entries@.len() && self.entries@[i as int].0@ == name@ && find(
                    self.entries@,
                    name@,
                ) == Some(self.entries@[i as int].1) && forall|j: int|
                    0 <= j < i ==> (#[trigger] self.entries@[j]).0@ != name@,
                None => find(self.entries@, name@) is None && forall|j: int|
                    0 <= j < self.entries@.len() ==> (#[trigger] self.entries@[j]).0@ != name@,
            },
    {
        let mut i: usize = 0;
        assert(self.entries@.skip(0) =~= self.entries@);
        while i < self.entries.len()
            invariant
                0 <= i <= self.entries@.len(),
                find(self.entries@, name@) == find(self.entries@.skip(i as int), name@),
                forall|j: int| 0 <= j < i ==> (#[trigger] self.entries@[j]).0@ != name@,
            decreases self.entries@.len() - i,
        {
            if str_eq(self.entries[i].0.as_str(), name) {
                return Some(i);
            }
            assert(self.entries@.skip(i as int).skip(1) =~= self.entries@.skip(i + 1));
            i = i + 1;
        }
        None
    }

    /// The value under a name.
    pub fn get(&self, name: &str) -> (r: Option<&V>)
        ensures
            match r {
                Some(v) => self@.contains_key(name@) && *v == self@[name@],
                None => !self@.contains_key(name@),
            },
    {
        match self.position(name) {
            Some(i) => Some(&self.entries[i].1),
            None => None,
        }
    }

    /// Puts `value` under `name`, in place of what was there.
    pub fn insert(&mut self, name: String, value: V)
        ensures
            final(self)@ == old(self)@.insert(name@, value),
            old(self).wf() ==> final(self).wf(),
    {
        let ghost before = self.entries@;
        match self.position(name.as_str()) {
            Some(i) => {
                self.entries.set(i, (name, value));
                proof {
                    let after = self.entries@;
                    assert forall|k: Seq<char>| #[trigger] find(after, k) == (if k == name@ {
                        Some(value)
                    } else {
                        find(before, k)
                    }) by {
                        lemma_find_update(before, i as int, (name, value), k);
                    }
                    assert(self@ =~= old(self)@.insert(name@, value));
                }
            },
            None => {
                let mut at: usize = 0;
                while at < self.entries.len() && name_before(
                    self.entries[at].0.as_str(),
                    name.as_str(),
                )
                    invariant
                        self.entries@ == before,
                        0 <= at <= before.len(),
                        forall|j: int|
                            0 <= j < at ==> name_lt((#[trigger] before[j]).0@, name@),
                    decreases before.len() - at,
                {
                    at = at + 1;
                }
                self.entries.insert(at, (name, value));
                proof {
                    let after = self.entries@;
                    assert(after == before.insert(at as int, (name, value)));
                    assert forall|k: Seq<char>| #[trigger] find(after, k) == (if k == name@ {
                        Some(value)
                    } else {
                        find(before, k)
                    }) by {
                        lemma_find_insert(before, at as int, (name, value), k);
                    }
                    assert(self@ =~= old(self)@.insert(name@, value));
                    if old(self).wf() {
                        lemma_insert_keeps_order(before, at as int, (name, value));
                    }
                }
            },
        }
    }
}

proof fn lemma_find_update<V>(s: Seq<(String, V)>, i: int, entry: (String, V), k: Seq<char>)
    requires
        0 <= i < s.len(),
        s[i].0@ == entry.0@,
        forall|j: int| 0 <= j < i ==> (#[trigger] s[j]).0@ != entry.0@,
    ensures
        find(s.update(i, entry), k) == (if k == entry.0@ {
            Some(entry.1)
        } else {
            find(s, k)
        }),
    decreases i,
{
    let t = s.update(i, entry);
    if i == 0 {
        assert(t.skip(1) =~= s.skip(1));
    } else {
        assert(t[0] == s[0]);
        assert(t.skip(1) =~= s.skip(1).update(i - 1, entry));
        assert forall|j: int| 0 <= j < i - 1 implies (#[trigger] s.skip(1)[j]).0@ != entry.0@ by {
            assert(s.skip(1)[j] == s[j + 1]);
        }
        lemma_find_update(s.skip(1), i - 1, entry, k);
    }
}

proof fn lemma_find_insert<V>(s: Seq<(String, V)>, i: int, entry: (String, V), k: Seq<char>)
    requires
        0 <= i <= s.len(),
        forall|j: int| 0 <= j < s.len() ==> (#[trigger] s[j]).0@ != entry.0@,
    ensures
        find(s.insert(i, entry), k) == (if k == entry.0@ {
            Some(entry.1)
        } else {
            find(s, k)
        }),
    decreases i,
{
    let t = s.insert(i, entry);
    if i == 0 {
        assert(t.skip(1) =~= s);
    } else {
        assert(t[0] == s[0]);
        assert(t.skip(1) =~= s.skip(1).insert(i - 1, entry));
        assert forall|j: int| 0 <= j < s.skip(1).len() implies (#[trigger] s.skip(1)[j]).0@
            != entry.0@ by {
            assert(s.skip(1)[j] == s[j + 1]);
        }
        lemma_find_insert(s.skip(1), i - 1, entry, k);
    }
}

proof fn lemma_insert_keeps_order<V>(s: Seq<(String, V)>, at: int, entry: (String, V))
    requires
        0 <= at <= s.len(),
        forall|i: int, j: int|
            0 <= i < j < s.len() ==> name_lt((#[trigger] s[i]).0@, (#[trigger] s[j]).0@),
        forall|j: int| 0 <= j < at ==> name_lt((#[trigger] s[j]).0@, entry.0@),
        at < s.len() ==> !name_lt(s[at].0@, entry.0@),
        forall|j: int| 0 <= j < s.len() ==> (#[trigger] s[j]).0@ != entry.0@,
    ensures
        forall|i: int, j: int|
            0 <= i < j < s.insert(at, entry).len() ==> name_lt(
                (#[trigger] s.insert(at, entry)[i]).0@,
                (#[trigger] s.insert(at, entry)[j]).0@,
            ),
{
    let t = s.insert(at, entry);
    if at < s.len() {
        lemma_lex_total(encode_utf8(s[at].0@), encode_utf8(entry.0@));
        if encode_utf8(s[at].0@) == encode_utf8(entry.0@) {
            lemma_utf8_injective(s[at].0@, entry.0@);
        }
        assert(name_lt(entry.0@, s[at].0@));
        assert forall|j: int| at <= j < s.len() implies name_lt(entry.0@, (#[trigger] s[j]).0@) by {
            if j > at {
                lemma_lex_transitive(
                    encode_utf8(entry.0@),
                    encode_utf8(s[at].0@),
                    encode_utf8(s[j].0@),
                );
            }
        }
    }
    assert forall|i: int, j: int| 0 <= i < j < t.len() implies name_lt(
        (#[trigger] t[i]).0@,
        (#[trigger] t[j]).0@,
    ) by {
        let a = if i < at {
            i
        } else {
            i - 1
        };
        let b = if j < at {
            j
        } else {
            j - 1
        };
        if i != at {
            assert(t[i] == s[a]);
        }
        if j != at {
            assert(t[j] == s[b]);
        }
    }
}

/// A list of entries has a value under a name just when one of its entries has the name.
pub proof fn lemma_find_some<V>(s: Seq<(String, V)>, k: Seq<char>)
    ensures
        find(s, k) is Some <==> exists|i: int| 0 <= i < s.len() && (#[trigger] s[i]).0@ == k,
    decreases s.len(),
{
    if s.len() > 0 {
        lemma_find_some(s.skip(1), k);
        if s[0].0@ != k {
            if find(s.skip(1), k) is Some {
                let i = choose|i: int| 0 <= i < s.skip(1).len() && (#[trigger] s.skip(1)[i]).0@ == k;
                assert(s[i + 1].0@ == k);
            }
            if exists|i: int| 0 <= i < s.len() && (#[trigger] s[i]).0@ == k {
                let i = choose|i: int| 0 <= i < s.len() && (#[trigger] s[i]).0@ == k;
                assert(s.skip(1)[i - 1].0@ == k);
            }
        }
    }
}

// ---------------------------------------------------------------------------
// Maps from names to texts
// ---------------------------------------------------------------------------

/// What a map from names to strings says, as texts.
pub open spec fn env_of(map: NameMap<String>) -> Map<Seq<char>, Seq<char>> {
    Map::new(|name: Seq<char>| map@.contains_key(name), |name: Seq<char>| map@[name]@)
}

impl NameMap<String> {
    /// Puts the text `value` under `name`, in place of what was there.
    pub fn set(&mut self, name: &str, value: &str)
        ensures
            env_of(*final(self)) == env_of(*old(self)).insert(name@, value@),
            old(self).wf() ==> final(self).wf(),
    {
        self.insert(name.to_string(), value.to_string());
        assert(env_of(*self) =~= env_of(*old(self)).insert(name@, value@));
    }

    /// Puts all that `other` says into this map, in place of what was there under its names.
    pub fn set_all(&mut self, other: &NameMap<String>)
        ensures
            env_of(*final(self)) == env_of(*old(self)).union_prefer_right(env_of(*other)),
            old(self).wf() ==> final(self).wf(),
    {
        let mut i: usize = other.entries.len();
        let ghost base = env_of(*self);
        assert(env_of(*self) =~= base.union_prefer_right(
            env_of_entries(other.entries@.skip(i as int)),
        ));
        while i > 0
            invariant
                0 <= i <= other.entries@.len(),
                env_of(*self) == base.union_prefer_right(
                    env_of_entries(other.entries@.skip(i as int)),
                ),
                old(self).wf() ==> self.wf(),
            decreases i,
        {
            i = i - 1;
            self.set(other.entries[i].0.as_str(), other.entries[i].1.as_str());
            proof {
                let rest = other.entries@.skip(i + 1);
                let all = other.entries@.skip(i as int);
                assert(all.skip(1) =~= rest);
                assert(env_of_entries(all) =~= env_of_entries(rest).insert(
                    all[0].0@,
                    all[0].1@,
                ));
                assert(env_of(*self) =~= base.union_prefer_right(env_of_entries(all)));
            }
        }
        assert(other.entries@.skip(0) =~= other.entries@);
        assert(env_of_entries(other.entries@) =~= env_of(*other));
    }

    /// A copy of this map.
    pub fn copy(&self) -> (r: NameMap<String>)
        ensures
            r.entries@ == self.entries@,
            r@ == self@,
            env_of(r) == env_of(*self),
    {
        let mut entries: Vec<(String, String)> = Vec::new();
        let mut i: usize = 0;
        while i < self.entries.len()
            invariant
                0 <= i <= self.entries@.len(),
                entries@ == self.entries@.take(i as int),
            decreases self.entries@.len() - i,
        {
            entries.push((self.entries[i].0.clone(), self.entries[i].1.clone()));
            assert(self.entries@.take(i + 1) =~= self.entries@.take(i as int).push(
                self.entries@[i as int],
            ));
            i = i + 1;
        }
        assert(self.entries@.take(self.entries@.len() as int) =~= self.entries@);
        NameMap { entries }
    }
}

/// What a list of entries says, as texts.
pub open spec fn env_of_entries(s: Seq<(String, String)>) -> Map<Seq<char>, Seq<char>> {
    Map::new(|name: Seq<char>| find(s, name) is Some, |name: Seq<char>| (find(s, name)->0)@)
}

// ---------------------------------------------------------------------------
// Sets
// ---------------------------------------------------------------------------

/// A set of names, as a list in their order.
#[derive(Debug)]
pub struct NameSet {
    pub names: Vec<String>,
}

impl View for NameSet {
    type V = Set<Seq<char>>;

    open spec fn view(&self) -> Set<Seq<char>> {
        Set::new(|n: Seq<char>| exists|i: int| 0 <= i < self.names@.len() && (#[trigger] self.names@[i])@ == n)
    }
}

impl NameSet {
    /// The names are in their order, and none occurs twice.
    pub open spec fn wf(self) -> bool {
        forall|i: int, j: int|
            0 <= i < j < self.names@.len() ==> name_lt(
                (#[trigger] self.names@[i])@,
                (#[trigger] self.names@[j])@,
            )
    }

    /// The set without names.
    pub fn new() -> (r: NameSet)
        ensures
            r.wf(),
            r.names@.len() == 0,
            r@ == Set::<Seq<char>>::empty(),
    {
        let r = NameSet { names: Vec::new() };
        assert(r@ =~= Set::<Seq<char>>::empty());
        r
    }

    /// Whether a name is in the set.
    pub fn contains(&self, name: &str) -> (r: bool)
        ensures
            r == self@.contains(name@),
    {
        let mut i: usize = 0;
        while i < self.names.len()
            invariant
                0 <= i <= self.names@.len(),
                forall|j: int| 0 <= j < i ==> (#[trigger] self.names@[j])@ != name@,
            decreases self.names@.len() - i,
        {
            if str_eq(self.names[i].as_str(), name) {
                return true;
            }
            i = i + 1;
        }
        false
    }

    /// Puts a name into the set.
    pub fn insert(&mut self, name: String)
        ensures
            final(self)@ == old(self)@.insert(name@),
            old(self).wf() ==> final(self).wf(),
    {
        let ghost before = self.names@;
        if self.contains(name.as_str()) {
            assert(self@ =~= old(self)@.insert(name@));
            return;
        }
        let mut at: usize = 0;
        while at < self.names.len() && name_before(self.names[at].as_str(), name.as_str())
            invariant
                self.names@ == before,
                0 <= at <= before.len(),
                forall|j: int| 0 <= j < at ==> name_lt((#[trigger] before[j])@, name@),
            decreases before.len() - at,
        {
            at = at + 1;
        }
        self.names.insert(at, name);
        proof {
            let after = self.names@;
            assert(after == before.insert(at as int, name));
            assert forall|j: int| 0 <= j < before.len() implies (#[trigger] before[j])@ != name@ by {
                assert(old(self)@.contains(before[j]@));
            }
            let with_unit = before.map_values(|n: String| (n, ()));
            if old(self).wf() {
                assert(with_unit.insert(at as int, (name, ())) =~= after.map_values(
                    |n: String| (n, ()),
                ));
                lemma_insert_keeps_order(with_unit, at as int, (name, ()));
                assert forall|i: int, j: int| 0 <= i < j < after.len() implies name_lt(
                    (#[trigger] after[i])@,
                    (#[trigger] after[j])@,
                ) by {
                    let t = after.map_values(|n: String| (n, ()));
                    assert(t[i].0@ == after[i]@);
                    assert(t[j].0@ == after[j]@);
                }
            }
            assert forall|n: Seq<char>| self@.contains(n) == old(self)@.insert(name@).contains(n) by {
                if old(self)@.contains(n) {
                    let j = choose|j: int| 0 <= j < before.len() && (#[trigger] before[j])@ == n;
                    assert(after[if j < at {
                        j
                    } else {
                        j + 1
                    }]@ == n);
                }
                if n == name@ {
                    assert(after[at as int]@ == n);
                }
                if self@.contains(n) {
                    let j = choose|j: int| 0 <= j < after.len() && (#[trigger] after[j])@ == n;
                    if j < at {
                        assert(before[j]@ == n);
                    } else if j > at {
                        assert(before[j - 1]@ == n);
                    }
                }
            }
            assert(self@ =~= old(self)@.insert(name@));
        }
    }
}

} // verus!
