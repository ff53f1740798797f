//! Build metadata: a map from text keys to text values, as recorded with
//! each build (`build.profile`, `toolchain.id`, ...).
use vstd::prelude::*;

use crate::text::{copy_string, str_eq};

verus! {

/// Text keys mapped to text values; each key occurs once.
#[derive(Debug, Clone, PartialEq, Eq)]
pub struct Metadata {
    entries: Vec<(String, String)>,
}

/// The map held by a list of distinct-keyed entries.
pub open spec fn map_of(e: Seq<(String, String)>) -> Map<Seq<char>, Seq<char>>
    decreases e.len(),
{
    if e.len() == 0 {
        Map::empty()
    } else {
        map_of(e.drop_last()).insert(e.last().0@, e.last().1@)
    }
}

/// Keys occur once.
pub open spec fn distinct_keys(e: Seq<(String, String)>) -> bool {
    forall|i: int, j: int| 0 <= i < j < e.len() ==> e[i].0@ != e[j].0@
}

proof fn lemma_map_of_index(e: Seq<(String, String)>, i: int)
    requires
        distinct_keys(e),
        0 <= i < e.len(),
    ensures
        map_of(e).contains_key(e[i].0@),
        map_of(e)[e[i].0@] == e[i].1@,
    decreases e.len(),
{
    if i < e.len() - 1 {
        lemma_map_of_index(e.drop_last(), i);
        assert(e[i].0@ != e.last().0@);
    }
}

proof fn lemma_map_of_absent(e: Seq<(String, String)>, k: Seq<char>)
    requires
        forall|i: int| 0 <= i < e.len() ==> (#[trigger] e[i]).0@ != k,
    ensures
        !map_of(e).contains_key(k),
    decreases e.len(),
{
    if e.len() > 0 {
        lemma_map_of_absent(e.drop_last(), k);
        assert(e.last() == e[e.len() - 1]);
    }
}

proof fn lemma_map_of_update(e: Seq<(String, String)>, i: int, v: String)
    requires
        distinct_keys(e),
        0 <= i < e.len(),
    ensures
        map_of(e.update(i, (e[i].0, v))) == map_of(e).insert(e[i].0@, v@),
    decreases e.len(),
{
    let u = e.update(i, (e[i].0, v));
    if i == e.len() - 1 {
        assert(u.drop_last() =~= e.drop_last());
        assert(map_of(e.drop_last()).insert(e[i].0@, v@) =~= map_of(e).insert(e[i].0@, v@));
    } else {
        lemma_map_of_update(e.drop_last(), i, v);
        assert(u.drop_last() =~= e.drop_last().update(i, (e[i].0, v)));
        assert(e[i].0@ != e.last().0@);
        assert(map_of(u) =~= map_of(e).insert(e[i].0@, v@));
    }
}

impl View for Metadata {
    type V = Map<Seq<char>, Seq<char>>;

    closed spec fn view(&self) -> Map<Seq<char>, Seq<char>> {
        map_of(self.entries@)
    }
}

impl Metadata {
    /// Keys occur once.
    pub closed spec fn wf(&self) -> bool {
        distinct_keys(self.entries@)
    }

    /// An empty map.
    pub fn new() -> (m: Metadata)
        ensures
            m.wf(),
            m@ == Map::<Seq<char>, Seq<char>>::empty(),
    {
        Metadata { entries: Vec::new() }
    }

    /// Maps `key` to `value`, returning the value it replaces.
    pub fn insert(&mut self, key: String, value: String) -> (old_value: Option<String>)
        requires
            old(self).wf(),
        ensures
            final(self).wf(),
            final(self)@ == old(self)@.insert(key@, value@),
            match old_value {
                Some(v) => old(self)@.contains_key(key@) && old(self)@[key@] == v@,
                None => !old(self)@.contains_key(key@),
            },
    {
        let mut i: usize = 0;
        while i < self.entries.len()
            invariant
                i <= self.entries.len(),
                self.entries == old(self).entries,
                distinct_keys(self.entries@),
                forall|j: int| 0 <= j < i ==> (#[trigger] self.entries@[j]).0@ != key@,
            decreases self.entries.len() - i,
        {
            if str_eq(self.entries[i].0.as_str(), key.as_str()) {
                let previous = copy_string(&self.entries[i].1);
                let ghost e = self.entries@;
                proof {
                    lemma_map_of_index(e, i as int);
                }
                let k = copy_string(&self.entries[i].0);
                self.entries.set(i, (k, value));
                proof {
                    lemma_map_of_update(e, i as int, value);
                    assert(self.entries@ == e.update(i as int, (e[i as int].0, value)));
                    assert forall|a: int, b: int| 0 <= a < b < self.entries@.len() implies self.entries@[a].0@
                        != self.entries@[b].0@ by {
                        assert(self.entries@[a].0@ == e[a].0@);
                        assert(self.entries@[b].0@ == e[b].0@);
                    }
                }
                return Some(previous);
            }
            i += 1;
        }
        proof {
            lemma_map_of_absent(self.entries@, key@);
        }
        let ghost e = self.entries@;
        self.entries.push((key, value));
        proof {
            assert(self.entries@.drop_last() =~= e);
            assert forall|a: int, b: int| 0 <= a < b < self.entries@.len() implies self.entries@[a].0@
                != self.entries@[b].0@ by {
                if b == e.len() {
                    assert(self.entries@[a] == e[a]);
                }
            }
        }
        None
    }

    /// The value of `key`.
    pub fn get(&self, key: &str) -> (r: Option<&String>)
        requires
            self.wf(),
        ensures
            match r {
                Some(v) => self@.contains_key(key@) && self@[key@] == v@,
                None => !self@.contains_key(key@),
            },
    {
        let mut i: usize = 0;
        while i < self.entries.len()
            invariant
                i <= self.entries.len(),
                distinct_keys(self.entries@),
                forall|j: int| 0 <= j < i ==> (#[trigger] self.entries@[j]).0@ != key@,
            decreases self.entries.len() - i,
        {
            if str_eq(self.entries[i].0.as_str(), key) {
                proof {
                    lemma_map_of_index(self.entries@, i as int);
                }
                return Some(&self.entries[i].1);
            }
            i += 1;
        }
        proof {
            lemma_map_of_absent(self.entries@, key@);
        }
        None
    }

    /// Number of keys.
    pub fn len(&self) -> (n: usize)
        ensures
            n == self.entry_seq().len(),
    {
        self.entries.len()
    }

    /// The map of entries whose keys occur once, kept in their order.
    pub fn from_distinct(entries: Vec<(String, String)>) -> (m: Metadata)
        requires
            distinct_keys(entries@),
        ensures
            m.wf(),
            m@ == map_of(entries@),
            m.entry_seq() == entries@,
    {
        Metadata { entries }
    }

    /// A copy of the map.
    pub fn copy(&self) -> (m: Metadata)
        ensures
            m.wf(),
            m@ == self@,
    {
        let mut m = Metadata::new();
        let mut i: usize = 0;
        while i < self.entries.len()
            invariant
                i <= self.entries.len(),
                m.wf(),
                m@ == map_of(self.entries@.take(i as int)),
            decreases self.entries.len() - i,
        {
            assert(self.entries@.take(i + 1).drop_last() =~= self.entries@.take(i as int));
            m.insert(copy_string(&self.entries[i].0), copy_string(&self.entries[i].1));
            i += 1;
        }
        assert(self.entries@.take(self.entries.len() as int) =~= self.entries@);
        m
    }

    /// The entries, in insertion order.
    pub closed spec fn entry_seq(&self) -> Seq<(String, String)> {
        self.entries@
    }

    /// The entries, in insertion order.
    pub fn entries(&self) -> (r: &Vec<(String, String)>)
        ensures
            r@ == self.entry_seq(),
            self.wf() ==> map_of(r@) == self@,
    {
        &self.entries
    }
}

/// A value read back after an insert is the value inserted; other keys keep theirs.
pub proof fn law_insert_then_get(m: Map<Seq<char>, Seq<char>>, k: Seq<char>, v: Seq<char>, other: Seq<char>)
    ensures
        m.insert(k, v).contains_key(k),
        m.insert(k, v)[k] == v,
        other != k ==> (m.insert(k, v).contains_key(other) == m.contains_key(other)),
        other != k && m.contains_key(other) ==> m.insert(k, v)[other] == m[other],
{
}

} // verus!
