//! The document model: named sections of key-value pairs.
//!
//! Both [`Document`] and [`Section`] are maps keyed by strings, stored as
//! vectors of entries with pairwise-distinct keys and viewed as a
//! mathematical `Map` from character sequences.  Insertion overwrites the
//! value of an existing key and leaves every other key unchanged.

use vstd::prelude::*;

use crate::chars::str_eq;
use crate::value::{IniValue, ValueModel};

verus! {

/// The map denoted by a sequence of key-value entries; a later entry for
/// the same key overwrites an earlier one.
pub open spec fn assoc_map<V: View>(es: Seq<(String, V)>) -> Map<Seq<char>, V::V>
    decreases es.len(),
{
    if es.len() == 0 {
        Map::empty()
    } else {
        assoc_map(es.drop_last()).insert(es.last().0@, es.last().1@)
    }
}

/// Pairwise-distinct keys.
pub open spec fn assoc_wf<V: View>(es: Seq<(String, V)>) -> bool {
    forall|i: int, j: int| 0 <= i < j < es.len() ==> es[i].0@ != es[j].0@
}

/// A key is in the denoted map exactly when some entry holds it.
pub proof fn lemma_assoc_contains<V: View>(es: Seq<(String, V)>, k: Seq<char>)
    ensures
        assoc_map(es).contains_key(k) <==> (exists|i: int| 0 <= i < es.len() && es[i].0@ == k),
    decreases es.len(),
{
    if es.len() > 0 {
        lemma_assoc_contains(es.drop_last(), k);
        if es.last().0@ == k {
            assert(es[es.len() - 1].0@ == k);
        } else {
            if assoc_map(es).contains_key(k) {
                let i = choose|i: int| 0 <= i < es.drop_last().len() && es.drop_last()[i].0@ == k;
                assert(es[i].0@ == k);
            }
            if exists|i: int| 0 <= i < es.len() && es[i].0@ == k {
                let i = choose|i: int| 0 <= i < es.len() && es[i].0@ == k;
                assert(es.drop_last()[i].0@ == k);
            }
        }
    }
}

/// With distinct keys, each entry is in the denoted map with its own value.
pub proof fn lemma_assoc_get<V: View>(es: Seq<(String, V)>, i: int)
    requires
        assoc_wf(es),
        0 <= i < es.len(),
    ensures
        assoc_map(es).contains_key(es[i].0@),
        assoc_map(es)[es[i].0@] == es[i].1@,
    decreases es.len(),
{
    if i == es.len() - 1 {
    } else {
        assert(assoc_wf(es.drop_last())) by {
            assert(forall|x: int, y: int|
                0 <= x < y < es.drop_last().len() ==> es.drop_last()[x] == es[x]
                    && es.drop_last()[y] == es[y]);
        }
        lemma_assoc_get(es.drop_last(), i);
        assert(es.drop_last()[i] == es[i]);
        assert(es[i].0@ != es.last().0@);
    }
}

/// With distinct keys, the denoted map has exactly one key per entry.
pub proof fn lemma_assoc_len<V: View>(es: Seq<(String, V)>)
    requires
        assoc_wf(es),
    ensures
        assoc_map(es).dom().finite(),
        assoc_map(es).len() == es.len(),
    decreases es.len(),
{
    broadcast use vstd::set::group_set_axioms;

    if es.len() > 0 {
        assert(assoc_wf(es.drop_last())) by {
            assert(forall|x: int, y: int|
                0 <= x < y < es.drop_last().len() ==> es.drop_last()[x] == es[x]
                    && es.drop_last()[y] == es[y]);
        }
        lemma_assoc_len(es.drop_last());
        lemma_assoc_contains(es.drop_last(), es.last().0@);
        assert(forall|i: int| 0 <= i < es.len() - 1 ==> es.drop_last()[i] == es[i]);
        assert(!assoc_map(es.drop_last()).contains_key(es.last().0@));
        assert(assoc_map(es).dom() =~= assoc_map(es.drop_last()).dom().insert(es.last().0@));
    }
}

/// Replacing the entry of a key denotes inserting into the map.
pub proof fn lemma_assoc_update<V: View>(es: Seq<(String, V)>, i: int, p: (String, V))
    requires
        assoc_wf(es),
        0 <= i < es.len(),
        p.0@ == es[i].0@,
    ensures
        assoc_wf(es.update(i, p)),
        assoc_map(es.update(i, p)) == assoc_map(es).insert(p.0@, p.1@),
    decreases es.len(),
{
    let es2 = es.update(i, p);
    assert(forall|j: int| 0 <= j < es.len() ==> es2[j].0@ == es[j].0@);
    if i == es.len() - 1 {
        assert(es2.drop_last() =~= es.drop_last());
        assert(es2.last() == p);
        assert(assoc_map(es2) == assoc_map(es.drop_last()).insert(p.0@, p.1@));
        assert(assoc_map(es.drop_last()).insert(p.0@, p.1@) =~= assoc_map(es).insert(
            p.0@,
            p.1@,
        ));
    } else {
        assert(assoc_wf(es.drop_last())) by {
            assert(forall|x: int, y: int|
                0 <= x < y < es.drop_last().len() ==> es.drop_last()[x] == es[x]
                    && es.drop_last()[y] == es[y]);
        }
        assert(es2.drop_last() =~= es.drop_last().update(i, p));
        lemma_assoc_update(es.drop_last(), i, p);
        assert(es2.last() == es.last());
        assert(es.drop_last()[i] == es[i]);
        // the two inserted keys differ, so the inserts commute
        assert(p.0@ != es.last().0@);
        assert(assoc_map(es.drop_last()).insert(p.0@, p.1@).insert(es.last().0@, es.last().1@)
            =~= assoc_map(es.drop_last()).insert(es.last().0@, es.last().1@).insert(
            p.0@,
            p.1@,
        ));
    }
}

/// Appending an entry with a fresh key denotes inserting into the map.
pub proof fn lemma_assoc_push<V: View>(es: Seq<(String, V)>, p: (String, V))
    requires
        assoc_wf(es),
        forall|i: int| 0 <= i < es.len() ==> es[i].0@ != p.0@,
    ensures
        assoc_wf(es.push(p)),
        assoc_map(es.push(p)) == assoc_map(es).insert(p.0@, p.1@),
{
    assert(es.push(p).drop_last() =~= es);
    assert(es.push(p).last() == p);
    assert(forall|i: int| 0 <= i < es.len() ==> es.push(p)[i] == es[i]);
}

/// A named group of key-value pairs.
#[derive(Debug, Clone, PartialEq)]
pub struct Section {
    entries: Vec<(String, IniValue)>,
}

impl View for Section {
    type V = Map<Seq<char>, ValueModel>;

    closed spec fn view(&self) -> Map<Seq<char>, ValueModel> {
        assoc_map(self.entries@)
    }
}

impl Section {
    /// The stored entries hold pairwise-distinct keys.
    pub closed spec fn wf(&self) -> bool {
        assoc_wf(self.entries@)
    }

    /// An empty section.
    pub fn new() -> (s: Section)
        ensures
            s.wf(),
            s@ == Map::<Seq<char>, ValueModel>::empty(),
    {
        Section { entries: Vec::new() }
    }

    /// The value of `key`, if the section holds it.
    pub fn get(&self, key: &str) -> (r: Option<&IniValue>)
        requires
            self.wf(),
        ensures
            match r {
                Some(v) => self@.contains_key(key@) && v@ == self@[key@],
                None => !self@.contains_key(key@),
            },
    {
        let n = self.entries.len();
        let mut i: usize = 0;
        while i < n
            invariant
                self.wf(),
                n == self.entries@.len(),
                i <= n,
                forall|j: int| 0 <= j < i ==> self.entries@[j].0@ != key@,
            decreases n - i,
        {
            if str_eq(self.entries[i].0.as_str(), key) {
                proof {
                    lemma_assoc_get(self.entries@, i as int);
                }
                return Some(&self.entries[i].1);
            }
            i = i + 1;
        }
        proof {
            lemma_assoc_contains(self.entries@, key@);
        }
        None
    }

    /// Inserts `key`, overwriting any value it already had and leaving
    /// every other key unchanged.
    pub fn insert(&mut self, key: String, value: IniValue)
        requires
            old(self).wf(),
        ensures
            final(self).wf(),
            final(self)@ == old(self)@.insert(key@, value@),
    {
        let n = self.entries.len();
        let mut i: usize = 0;
        while i < n
            invariant
                self.wf(),
                self == old(self),
                n == self.entries@.len(),
                i <= n,
                forall|j: int| 0 <= j < i ==> self.entries@[j].0@ != key@,
            decreases n - i,
        {
            if str_eq(self.entries[i].0.as_str(), key.as_str()) {
                proof {
                    lemma_assoc_update(self.entries@, i as int, (key, value));
                }
                self.entries.remove(i);
                self.entries.insert(i, (key, value));
                proof {
                    assert(self.entries@ =~= old(self).entries@.update(
                        i as int,
                        (key, value),
                    ));
                }
                return ;
            }
            i = i + 1;
        }
        proof {
            lemma_assoc_push(self.entries@, (key, value));
        }
        self.entries.push((key, value));
    }

    /// How many keys the section holds.
    pub fn len(&self) -> (n: usize)
        requires
            self.wf(),
        ensures
            n == self@.len(),
    {
        proof {
            lemma_assoc_len(self.entries@);
        }
        self.entries.len()
    }
}

/// A parsed configuration: a map from section name to [`Section`].
#[derive(Debug, Clone, PartialEq)]
pub struct Document {
    entries: Vec<(String, Section)>,
}

impl View for Document {
    type V = Map<Seq<char>, Map<Seq<char>, ValueModel>>;

    closed spec fn view(&self) -> Map<Seq<char>, Map<Seq<char>, ValueModel>> {
        assoc_map(self.entries@)
    }
}

impl Document {
    /// Distinct section names, and every stored section well formed.
    pub closed spec fn wf(&self) -> bool {
        &&& assoc_wf(self.entries@)
        &&& forall|i: int| 0 <= i < self.entries@.len() ==> (#[trigger] self.entries@[i]).1.wf()
    }

    /// A document holding only the empty default section.
    pub fn new() -> (d: Document)
        ensures
            d.wf(),
            d@ == Map::<Seq<char>, Map<Seq<char>, ValueModel>>::empty().insert(
                Seq::<char>::empty(),
                Map::<Seq<char>, ValueModel>::empty(),
            ),
    {
        let mut entries: Vec<(String, Section)> = Vec::new();
        let ghost empty_entries = entries@;
        entries.push((String::new(), Section::new()));
        proof {
            assert(entries@.drop_last() =~= empty_entries);
            assert(assoc_map(empty_entries)
                == Map::<Seq<char>, Map<Seq<char>, ValueModel>>::empty());
            assert(assoc_map(entries@) == assoc_map(entries@.drop_last()).insert(
                entries@.last().0@,
                entries@.last().1@,
            ));
            assert(entries@[0].1.wf());
        }
        Document { entries }
    }

    /// The section of `name`, if the document holds it.
    pub fn get(&self, name: &str) -> (r: Option<&Section>)
        requires
            self.wf(),
        ensures
            match r {
                Some(s) => self@.contains_key(name@) && s@ == self@[name@] && s.wf(),
                None => !self@.contains_key(name@),
            },
    {
        let n = self.entries.len();
        let mut i: usize = 0;
        while i < n
            invariant
                self.wf(),
                n == self.entries@.len(),
                i <= n,
                forall|j: int| 0 <= j < i ==> self.entries@[j].0@ != name@,
            decreases n - i,
        {
            if str_eq(self.entries[i].0.as_str(), name) {
                proof {
                    lemma_assoc_get(self.entries@, i as int);
                }
                return Some(&self.entries[i].1);
            }
            i = i + 1;
        }
        proof {
            lemma_assoc_contains(self.entries@, name@);
        }
        None
    }

    /// Whether the document holds a section of `name`.
    pub fn contains_section(&self, name: &str) -> (r: bool)
        requires
            self.wf(),
        ensures
            r == self@.contains_key(name@),
    {
        match self.get(name) {
            Some(_) => true,
            None => false,
        }
    }

    /// Creates an empty section of `name` if the document holds none;
    /// a section already present keeps its contents.
    pub fn ensure_section(&mut self, name: &str)
        requires
            old(self).wf(),
        ensures
            final(self).wf(),
            final(self)@ == if old(self)@.contains_key(name@) {
                old(self)@
            } else {
                old(self)@.insert(name@, Map::<Seq<char>, ValueModel>::empty())
            },
    {
        if !self.contains_section(name) {
            proof {
                lemma_assoc_contains(self.entries@, name@);
                assert(forall|i: int|
                    0 <= i < self.entries@.len() ==> self.entries@[i].0@ != name@);
            }
            let entry = (String::from_str(name), Section::new());
            proof {
                lemma_assoc_push(self.entries@, entry);
            }
            self.entries.push(entry);
        }
    }

    /// Inserts `(key, value)` into the section of `section`, overwriting
    /// any value the key already had there; a section not yet present is
    /// created.  No other section and no other key changes.
    pub fn insert_value(&mut self, section: &str, key: String, value: IniValue)
        requires
            old(self).wf(),
        ensures
            final(self).wf(),
            final(self)@ == if old(self)@.contains_key(section@) {
                old(self)@.insert(section@, old(self)@[section@].insert(key@, value@))
            } else {
                old(self)@.insert(
                    section@,
                    Map::<Seq<char>, ValueModel>::empty().insert(key@, value@),
                )
            },
    {
        let n = self.entries.len();
        let mut i: usize = 0;
        while i < n
            invariant
                self.wf(),
                self == old(self),
                n == self.entries@.len(),
                i <= n,
                forall|j: int| 0 <= j < i ==> self.entries@[j].0@ != section@,
            decreases n - i,
        {
            if str_eq(self.entries[i].0.as_str(), section) {
                proof {
                    lemma_assoc_get(self.entries@, i as int);
                }
                let (name, mut sec) = self.entries.remove(i);
                sec.insert(key, value);
                proof {
                    lemma_assoc_update(old(self).entries@, i as int, (name, sec));
                }
                self.entries.insert(i, (name, sec));
                proof {
                    assert(self.entries@ =~= old(self).entries@.update(i as int, (name, sec)));
                }
                return ;
            }
            i = i + 1;
        }
        proof {
            lemma_assoc_contains(self.entries@, section@);
        }
        let mut sec = Section::new();
        sec.insert(key, value);
        let entry = (String::from_str(section), sec);
        proof {
            lemma_assoc_push(self.entries@, entry);
        }
        self.entries.push(entry);
    }

    /// How many sections the document holds.
    pub fn len(&self) -> (n: usize)
        requires
            self.wf(),
        ensures
            n == self@.len(),
    {
        proof {
            lemma_assoc_len(self.entries@);
        }
        self.entries.len()
    }
}

} // verus!
