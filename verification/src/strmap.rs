//! A string-keyed map of strings with a `Map` view.

use crate::text::{chars_eq, chars_of, owned, string_from_chars};
use vstd::prelude::*;

verus! {

broadcast use vstd::string::group_string_axioms;

// ---------------------------------------------------------------------------
// Variables
// ---------------------------------------------------------------------------

/// A map from names to string values (template variables, markdown sections).
/// Later insertions of a name override earlier ones.
pub struct StrMap {
    keys: Vec<Vec<char>>,
    values: Vec<String>,
}

/// The mapping described by parallel key and value sequences, later entries winning.
pub open spec fn entries_map(keys: Seq<Vec<char>>, values: Seq<String>) -> Map<Seq<char>, Seq<char>>
    decreases keys.len(),
{
    if keys.len() == 0 || values.len() == 0 {
        Map::empty()
    } else {
        entries_map(keys.drop_last(), values.drop_last()).insert(keys.last()@, values.last()@)
    }
}

proof fn lemma_entries_lookup(keys: Seq<Vec<char>>, values: Seq<String>, k: Seq<char>, i: int)
    requires
        keys.len() == values.len(),
        -1 <= i < keys.len(),
        forall|j: int| i < j < keys.len() ==> keys[j]@ != k,
        i >= 0 ==> keys[i]@ == k,
        i == -1 ==> forall|j: int| 0 <= j < keys.len() ==> keys[j]@ != k,
    ensures
        i >= 0 ==> entries_map(keys, values).contains_key(k) && entries_map(keys, values)[k]
            == values[i]@,
        i == -1 ==> !entries_map(keys, values).contains_key(k),
    decreases keys.len(),
{
    if keys.len() > 0 {
        if i == keys.len() - 1 {
        } else {
            lemma_entries_lookup(keys.drop_last(), values.drop_last(), k, i);
        }
    }
}

proof fn lemma_last_with_key(keys: Seq<Vec<char>>, k: Seq<char>)
    requires
        exists|i: int| 0 <= i < keys.len() && (#[trigger] keys[i])@ == k,
    ensures
        exists|i: int|
            0 <= i < keys.len() && keys[i]@ == k && forall|j: int| i < j < keys.len() ==> keys[j]@ != k,
    decreases keys.len(),
{
    let n = keys.len() - 1;
    if keys[n]@ != k {
        let w = choose|i: int| 0 <= i < keys.len() && (#[trigger] keys[i])@ == k;
        assert(keys.drop_last()[w]@ == k);
        lemma_last_with_key(keys.drop_last(), k);
        let i = choose|i: int|
            0 <= i < keys.drop_last().len() && keys.drop_last()[i]@ == k && forall|j: int|
                i < j < keys.drop_last().len() ==> keys.drop_last()[j]@ != k;
        assert(keys[i]@ == k);
        assert forall|j: int| i < j < keys.len() implies keys[j]@ != k by {
            if j < n {
                assert(keys.drop_last()[j] == keys[j]);
            }
        }
    }
}

impl View for StrMap {
    type V = Map<Seq<char>, Seq<char>>;

    closed spec fn view(&self) -> Map<Seq<char>, Seq<char>> {
        entries_map(self.keys@, self.values@)
    }
}

impl StrMap {
    /// Whether the internal sequences are consistent.
    pub closed spec fn wf(&self) -> bool {
        self.keys@.len() == self.values@.len()
    }

    /// An empty variable set.
    pub fn new() -> (r: StrMap)
        ensures
            r.wf(),
            r@ == Map::<Seq<char>, Seq<char>>::empty(),
    {
        StrMap { keys: Vec::new(), values: Vec::new() }
    }

    /// Sets `name` to `value`, replacing any earlier value.
    pub fn insert(&mut self, name: &str, value: &str)
        requires
            old(self).wf(),
        ensures
            final(self).wf(),
            final(self)@ == old(self)@.insert(name@, value@),
    {
        let k = chars_of(name);
        self.keys.push(k);
        self.values.push(owned(value));
        assert(self.keys@.drop_last() =~= old(self).keys@);
        assert(self.values@.drop_last() =~= old(self).values@);
    }

    /// Sets `name` (given as characters) to `value`, replacing any earlier value.
    pub fn insert_chars(&mut self, name: &Vec<char>, value: &Vec<char>)
        requires
            old(self).wf(),
        ensures
            final(self).wf(),
            final(self)@ == old(self)@.insert(name@, value@),
    {
        self.keys.push(name.clone());
        self.values.push(string_from_chars(value));
        assert(self.keys@.drop_last() =~= old(self).keys@);
        assert(self.values@.drop_last() =~= old(self).values@);
    }

    /// Looks a value up by its name given as characters.
    pub fn lookup(&self, name: &Vec<char>) -> (r: Option<&String>)
        requires
            self.wf(),
        ensures
            r is Some <==> self@.contains_key(name@),
            r is Some ==> r->0@ == self@[name@],
    {
        let mut i: usize = self.keys.len();
        while i > 0
            invariant
                self.wf(),
                i <= self.keys@.len(),
                forall|j: int| i <= j < self.keys@.len() ==> self.keys@[j]@ != name@,
            decreases i,
        {
            if chars_eq(&self.keys[i - 1], name) {
                proof {
                    lemma_entries_lookup(self.keys@, self.values@, name@, i - 1);
                }
                return Some(&self.values[i - 1]);
            }
            i = i - 1;
        }
        proof {
            lemma_entries_lookup(self.keys@, self.values@, name@, -1);
        }
        None
    }

    /// Whether the map has no entries.
    pub fn is_empty(&self) -> (r: bool)
        requires
            self.wf(),
        ensures
            r == (forall|k: Seq<char>| !self@.contains_key(k)),
    {
        if self.keys.len() == 0 {
            assert(self@ =~= Map::<Seq<char>, Seq<char>>::empty());
            assert(forall|k: Seq<char>| !self@.contains_key(k));
            true
        } else {
            proof {
                let n = self.keys@.len() - 1;
                lemma_entries_lookup(self.keys@, self.values@, self.keys@[n]@, n);
                assert(self@.contains_key(self.keys@[n]@));
            }
            false
        }
    }

    /// Every name that has a value, in insertion order, possibly more than once.
    pub fn names(&self) -> (r: Vec<Vec<char>>)
        requires
            self.wf(),
        ensures
            forall|k: Seq<char>|
                self@.contains_key(k) <==> exists|i: int| 0 <= i < r@.len() && (#[trigger] r@[i])@ == k,
    {
        proof {
            assert forall|k: Seq<char>|
                self@.contains_key(k) <==> exists|i: int|
                    0 <= i < self.keys@.len() && (#[trigger] self.keys@[i])@ == k by {
                if exists|i: int| 0 <= i < self.keys@.len() && (#[trigger] self.keys@[i])@ == k {
                    let last = choose|i: int|
                        0 <= i < self.keys@.len() && self.keys@[i]@ == k && forall|j: int|
                            i < j < self.keys@.len() ==> self.keys@[j]@ != k;
                    assert(exists|i: int|
                        0 <= i < self.keys@.len() && self.keys@[i]@ == k && forall|j: int|
                            i < j < self.keys@.len() ==> self.keys@[j]@ != k) by {
                        lemma_last_with_key(self.keys@, k);
                    }
                    lemma_entries_lookup(self.keys@, self.values@, k, last);
                } else {
                    lemma_entries_lookup(self.keys@, self.values@, k, -1);
                }
            }
        }
        self.keys.clone()
    }

    /// Whether `name` has a value.
    pub fn contains_key(&self, name: &str) -> (r: bool)
        requires
            self.wf(),
        ensures
            r == self@.contains_key(name@),
    {
        self.get(name).is_some()
    }

    /// Looks a value up by name.
    pub fn get(&self, name: &str) -> (r: Option<&String>)
        requires
            self.wf(),
        ensures
            r is Some <==> self@.contains_key(name@),
            r is Some ==> r->0@ == self@[name@],
    {
        let k = chars_of(name);
        self.lookup(&k)
    }
}

/// Builds a variable set from name/value pairs, later pairs overriding earlier ones.
pub fn vars(pairs: &[(&str, &str)]) -> (r: StrMap)
    ensures
        r.wf(),
        r@ == pairs_map(pairs@),
{
    let mut r = StrMap::new();
    let mut i: usize = 0;
    while i < pairs.len()
        invariant
            i <= pairs@.len(),
            r.wf(),
            r@ == pairs_map(pairs@.take(i as int)),
        decreases pairs@.len() - i,
    {
        let (k, v) = pairs[i];
        r.insert(k, v);
        assert(pairs@.take(i + 1).drop_last() =~= pairs@.take(i as int));
        i = i + 1;
    }
    assert(pairs@.take(pairs@.len() as int) =~= pairs@);
    r
}

/// The mapping described by a sequence of name/value pairs, later pairs winning.
pub open spec fn pairs_map(pairs: Seq<(&str, &str)>) -> Map<Seq<char>, Seq<char>>
    decreases pairs.len(),
{
    if pairs.len() == 0 {
        Map::empty()
    } else {
        pairs_map(pairs.drop_last()).insert(pairs.last().0@, pairs.last().1@)
    }
}

} // verus!
