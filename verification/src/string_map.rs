//! A finite map from strings to strings, as used for variable tables.

use vstd::prelude::*;
use crate::text::str_eq;

verus! {

/// One binding of a key to a value.
#[derive(Debug, Clone)]
pub struct StringEntry {
    pub name: String,
    pub value: String,
}

/// The value bound to `key` in a list of bindings; the last binding of a name wins.
pub open spec fn lookup(s: Seq<StringEntry>, key: Seq<char>) -> Option<Seq<char>>
    decreases s.len(),
{
    if s.len() == 0 {
        None
    } else if s.last().name@ == key {
        Some(s.last().value@)
    } else {
        lookup(s.drop_last(), key)
    }
}

/// No name is bound twice.
pub open spec fn distinct_names(s: Seq<StringEntry>) -> bool {
    forall|i: int, j: int| 0 <= i < j < s.len() ==> s[i].name@ != s[j].name@
}

/// The map that a list of bindings denotes.
pub open spec fn bindings_map(s: Seq<StringEntry>) -> Map<Seq<char>, Seq<char>> {
    Map::new(|k: Seq<char>| lookup(s, k) is Some, |k: Seq<char>| lookup(s, k)->0)
}

/// A name that no binding carries is not found.
pub proof fn lemma_lookup_absent(s: Seq<StringEntry>, key: Seq<char>)
    requires
        forall|i: int| 0 <= i < s.len() ==> s[i].name@ != key,
    ensures
        lookup(s, key) is None,
    decreases s.len(),
{
    if s.len() > 0 {
        lemma_lookup_absent(s.drop_last(), key);
    }
}

/// With distinct names, the binding at any index is the one found for its name.
pub proof fn lemma_lookup_at(s: Seq<StringEntry>, i: int)
    requires
        distinct_names(s),
        0 <= i < s.len(),
    ensures
        lookup(s, s[i].name@) == Some(s[i].value@),
    decreases s.len(),
{
    if i < s.len() - 1 {
        lemma_lookup_at(s.drop_last(), i);
    }
}

/// A found name is carried by some binding.
pub proof fn lemma_lookup_present(s: Seq<StringEntry>, key: Seq<char>) -> (i: int)
    requires
        lookup(s, key) is Some,
    ensures
        0 <= i < s.len(),
        s[i].name@ == key,
    decreases s.len(),
{
    if s.last().name@ == key {
        s.len() - 1
    } else {
        lemma_lookup_present(s.drop_last(), key)
    }
}

/// Replacing the value at index `i` changes what is found for that name only.
pub proof fn lemma_lookup_update(s: Seq<StringEntry>, i: int, e: StringEntry, key: Seq<char>)
    requires
        distinct_names(s),
        0 <= i < s.len(),
        e.name@ == s[i].name@,
    ensures
        distinct_names(s.update(i, e)),
        lookup(s.update(i, e), key) == if key == e.name@ {
            Some(e.value@)
        } else {
            lookup(s, key)
        },
{
    let t = s.update(i, e);
    assert(distinct_names(t));
    if key == e.name@ {
        lemma_lookup_at(t, i);
    } else {
        lemma_lookup_other(s, t, key);
    }
}

/// Two lists that agree on every binding whose name is `key` find the same value for it.
proof fn lemma_lookup_other(s: Seq<StringEntry>, t: Seq<StringEntry>, key: Seq<char>)
    requires
        s.len() == t.len(),
        forall|j: int| 0 <= j < s.len() ==> (s[j].name@ == key <==> t[j].name@ == key),
        forall|j: int| 0 <= j < s.len() && s[j].name@ == key ==> s[j].value@ == t[j].value@,
    ensures
        lookup(s, key) == lookup(t, key),
    decreases s.len(),
{
    if s.len() > 0 {
        if s.last().name@ != key {
            lemma_lookup_other(s.drop_last(), t.drop_last(), key);
        }
    }
}

/// Removing the binding at index `i` unbinds its name and nothing else.
pub proof fn lemma_lookup_remove(s: Seq<StringEntry>, i: int, key: Seq<char>)
    requires
        distinct_names(s),
        0 <= i < s.len(),
    ensures
        distinct_names(s.remove(i)),
        lookup(s.remove(i), key) == if key == s[i].name@ {
            None
        } else {
            lookup(s, key)
        },
    decreases s.len(),
{
    let t = s.remove(i);
    assert(distinct_names(t));
    if key == s[i].name@ {
        lemma_lookup_absent(t, key);
    } else if i == s.len() - 1 {
        assert(t =~= s.drop_last());
    } else {
        assert(t.last() == s.last());
        assert(t.drop_last() =~= s.drop_last().remove(i));
        if s.last().name@ != key {
            lemma_lookup_remove(s.drop_last(), i, key);
        }
    }
}

/// A finite map from string keys to string values.
#[derive(Debug)]
pub struct StringMap {
    entries: Vec<StringEntry>,
}

impl View for StringMap {
    type V = Map<Seq<char>, Seq<char>>;

    closed spec fn view(&self) -> Map<Seq<char>, Seq<char>> {
        bindings_map(self.entries@)
    }
}

impl Clone for StringMap {
    /// A table with the same bindings.
    fn clone(&self) -> (r: Self)
        ensures
            r@ == self@,
    {
        proof {
            use_type_invariant(self);
        }
        let mut entries: Vec<StringEntry> = Vec::new();
        let mut i: usize = 0;
        while i < self.entries.len()
            invariant
                i <= self.entries@.len(),
                entries@ == self.entries@.subrange(0, i as int),
            decreases self.entries@.len() - i,
        {
            let e = StringEntry {
                name: self.entries[i].name.clone(),
                value: self.entries[i].value.clone(),
            };
            entries.push(e);
            i += 1;
            assert(entries@ =~= self.entries@.subrange(0, i as int));
        }
        assert(entries@ =~= self.entries@);
        StringMap { entries }
    }
}

impl StringMap {
    /// The representation invariant: every key is bound at most once.
    #[verifier::type_invariant]
    closed spec fn distinct(&self) -> bool {
        distinct_names(self.entries@)
    }

    /// The empty table.
    pub fn new() -> (e: StringMap)
        ensures
            e@ == Map::<Seq<char>, Seq<char>>::empty(),
    {
        let e = StringMap { entries: Vec::new() };
        assert(e@ =~= Map::<Seq<char>, Seq<char>>::empty());
        e
    }

    /// The index of the binding of `key`, if there is one.
    fn position(&self, key: &str) -> (r: Option<usize>)
        ensures
            match r {
                Some(i) => i < self.entries@.len() && self.entries@[i as int].name@ == key@,
                None => forall|j: int| 0 <= j < self.entries@.len() ==> self.entries@[j].name@ != key@,
            },
    {
        proof {
            use_type_invariant(self);
        }
        let mut i: usize = 0;
        while i < self.entries.len()
            invariant
                i <= self.entries@.len(),
                forall|j: int| 0 <= j < i ==> self.entries@[j].name@ != key@,
            decreases self.entries@.len() - i,
        {
            if str_eq(self.entries[i].name.as_str(), key) {
                return Some(i);
            }
            i += 1;
        }
        None
    }

    /// The value bound to `key`, or `None` where `key` is unbound.
    pub fn get(&self, key: &str) -> (r: Option<&String>)
        ensures
            match r {
                Some(v) => self@.contains_key(key@) && v@ == self@[key@],
                None => !self@.contains_key(key@),
            },
    {
        proof {
            use_type_invariant(self);
        }
        match self.position(key) {
            Some(i) => {
                proof {
                    lemma_lookup_at(self.entries@, i as int);
                }
                Some(&self.entries[i].value)
            },
            None => {
                proof {
                    lemma_lookup_absent(self.entries@, key@);
                }
                None
            },
        }
    }

    /// Whether `key` is bound.
    pub fn contains_key(&self, key: &str) -> (r: bool)
        ensures
            r == self@.contains_key(key@),
    {
        self.get(key).is_some()
    }

    /// Binds `key` to `value`, replacing an earlier binding of `key`.
    pub fn set(&mut self, key: String, value: String)
        ensures
            final(self)@ == old(self)@.insert(key@, value@),
    {
        proof {
            use_type_invariant(&*self);
        }
        let found = self.position(key.as_str());
        let ghost before = self.entries@;
        let ghost k = key@;
        let ghost v = value@;
        let e = StringEntry { name: key, value };
        let mut entries = self.take_entries();
        match found {
            Some(i) => {
                entries.set(i, e);
                proof {
                    assert forall|q: Seq<char>| #[trigger]
                        lookup(entries@, q) == if q == k {
                            Some(v)
                        } else {
                            lookup(before, q)
                        } by {
                        lemma_lookup_update(before, i as int, e, q);
                    }
                    lemma_lookup_update(before, i as int, e, k);
                }
            },
            None => {
                entries.push(e);
                proof {
                    assert(entries@.drop_last() =~= before);
                    assert(distinct_names(entries@));
                }
            },
        }
        *self = StringMap { entries };
        assert(self@ =~= old(self)@.insert(k, v));
    }

    /// The bindings as a list of pairs, each key once.
    pub fn to_pairs(&self) -> (r: Vec<(String, String)>)
        ensures
            forall|i: int|
                0 <= i < r@.len() ==> self@.contains_key(#[trigger] r@[i].0@) && self@[r@[i].0@]
                    == r@[i].1@,
            forall|k: Seq<char>|
                self@.contains_key(k) ==> exists|i: int| 0 <= i < r@.len() && #[trigger] r@[i].0@ == k,
            forall|i: int, j: int| 0 <= i < j < r@.len() ==> r@[i].0@ != r@[j].0@,
    {
        proof {
            use_type_invariant(self);
        }
        let mut r: Vec<(String, String)> = Vec::new();
        let mut i: usize = 0;
        while i < self.entries.len()
            invariant
                distinct_names(self.entries@),
                i <= self.entries@.len(),
                r@.len() == i,
                forall|j: int|
                    0 <= j < i ==> (#[trigger] r@[j]).0@ == self.entries@[j].name@ && r@[j].1@
                        == self.entries@[j].value@,
            decreases self.entries@.len() - i,
        {
            r.push((self.entries[i].name.clone(), self.entries[i].value.clone()));
            i += 1;
        }
        proof {
            assert forall|j: int| 0 <= j < r@.len() implies self@.contains_key(
                #[trigger] r@[j].0@,
            ) && self@[r@[j].0@] == r@[j].1@ by {
                lemma_lookup_at(self.entries@, j);
            }
            assert forall|k: Seq<char>| self@.contains_key(k) implies exists|j: int|
                0 <= j < r@.len() && #[trigger] r@[j].0@ == k by {
                let j = lemma_lookup_present(self.entries@, k);
                assert(r@[j].0@ == k);
            }
        }
        r
    }

    /// Moves the bindings out and leaves the table empty.
    fn take_entries(&mut self) -> (entries: Vec<StringEntry>)
        ensures
            entries == old(self).entries,
            final(self).entries@.len() == 0,
    {
        let mut taken = StringMap { entries: Vec::new() };
        core::mem::swap(self, &mut taken);
        taken.entries
    }

    /// Unbinds `key`; a table without `key` is left as it is.
    pub fn remove(&mut self, key: &str)
        ensures
            final(self)@ == old(self)@.remove(key@),
    {
        proof {
            use_type_invariant(&*self);
        }
        let found = self.position(key);
        let ghost before = self.entries@;
        let mut entries = self.take_entries();
        match found {
            Some(i) => {
                entries.remove(i);
                proof {
                    assert forall|q: Seq<char>| #[trigger]
                        lookup(entries@, q) == if q == key@ {
                            None
                        } else {
                            lookup(before, q)
                        } by {
                        lemma_lookup_remove(before, i as int, q);
                    }
                    lemma_lookup_remove(before, i as int, key@);
                }
            },
            None => {
                proof {
                    lemma_lookup_absent(before, key@);
                }
            },
        }
        *self = StringMap { entries };
        assert(self@ =~= old(self)@.remove(key@));
    }
}

} // verus!
