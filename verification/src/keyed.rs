//! Ordered string-keyed entries: the model of a `BTreeMap<String, V>` as a
//! vector of `(key, value)` pairs whose keys are strictly increasing.
//!
//! Keys are compared the way `String`'s `Ord` compares them: UTF-8 byte order,
//! which is the lexicographic order of their characters' code points.

use crate::text::{chars_eq, chars_of, owned};
use vstd::prelude::*;

verus! {

broadcast use vstd::string::group_string_axioms;

/// Lexicographic order on character sequences (code point by code point,
/// a proper prefix coming first).
pub open spec fn lex_lt(a: Seq<char>, b: Seq<char>) -> bool
    decreases a.len(),
{
    if b.len() == 0 {
        false
    } else if a.len() == 0 {
        true
    } else if a[0] != b[0] {
        a[0] < b[0]
    } else {
        lex_lt(a.drop_first(), b.drop_first())
    }
}

/// `lex_lt` is irreflexive and asymmetric, and any two distinct sequences are ordered.
pub proof fn lemma_lex_total(a: Seq<char>, b: Seq<char>)
    ensures
        !lex_lt(a, a),
        !(lex_lt(a, b) && lex_lt(b, a)),
        a != b ==> lex_lt(a, b) || lex_lt(b, a),
    decreases a.len(),
{
    if a.len() > 0 {
        lemma_lex_total(a.drop_first(), a.drop_first());
        if b.len() > 0 {
            lemma_lex_total(a.drop_first(), b.drop_first());
            if a[0] == b[0] && a != b {
                assert(a.drop_first() != b.drop_first()) by {
                    if a.drop_first() == b.drop_first() {
                        assert(a =~= seq![a[0]] + a.drop_first());
                        assert(b =~= seq![b[0]] + b.drop_first());
                    }
                }
            }
        }
    } else if b.len() == 0 {
        assert(a =~= b);
    }
}

/// `lex_lt` is transitive.
pub proof fn lemma_lex_trans(a: Seq<char>, b: Seq<char>, c: Seq<char>)
    requires
        lex_lt(a, b),
        lex_lt(b, c),
    ensures
        lex_lt(a, c),
    decreases a.len(),
{
    if a.len() > 0 && a[0] == b[0] && b[0] == c[0] {
        lemma_lex_trans(a.drop_first(), b.drop_first(), c.drop_first());
    }
}

/// Whether `a` comes before `b` in lexicographic order.
pub fn chars_lt(a: &Vec<char>, b: &Vec<char>) -> (r: bool)
    ensures
        r == lex_lt(a@, b@),
{
    let mut i: usize = 0;
    assert(a@.skip(0) =~= a@);
    assert(b@.skip(0) =~= b@);
    while i < a.len() && i < b.len()
        invariant
            i <= a@.len(),
            i <= b@.len(),
            lex_lt(a@, b@) == lex_lt(a@.skip(i as int), b@.skip(i as int)),
        decreases a@.len() - i,
    {
        if a[i] != b[i] {
            assert(a@.skip(i as int)[0] == a@[i as int]);
            assert(b@.skip(i as int)[0] == b@[i as int]);
            return a[i] < b[i];
        }
        assert(a@.skip(i as int).drop_first() =~= a@.skip(i + 1));
        assert(b@.skip(i as int).drop_first() =~= b@.skip(i + 1));
        i = i + 1;
    }
    i < b.len()
}

/// Whether the keys of `s` strictly increase.
pub open spec fn keys_sorted<V>(s: Seq<(String, V)>) -> bool {
    forall|i: int, j: int| 0 <= i < j < s.len() ==> lex_lt(#[trigger] s[i].0@, #[trigger] s[j].0@)
}

/// Position of the entry with key `k`, if any.
pub open spec fn key_index<V>(s: Seq<(String, V)>, k: Seq<char>) -> Option<int> {
    if exists|i: int| 0 <= i < s.len() && s[i].0@ == k {
        Some(choose|i: int| 0 <= i < s.len() && s[i].0@ == k)
    } else {
        None
    }
}

/// The value stored under key `k`, if any.
pub open spec fn value_of<V>(s: Seq<(String, V)>, k: Seq<char>) -> Option<V> {
    match key_index(s, k) {
        Some(i) => Some(s[i].1),
        None => None,
    }
}

/// The keys of `s`, in order.
pub open spec fn keys_of<V>(s: Seq<(String, V)>) -> Seq<Seq<char>> {
    s.map_values(|e: (String, V)| e.0@)
}

/// In sorted entries, the entry at `i` is the one found for its key.
pub proof fn lemma_key_index_at<V>(s: Seq<(String, V)>, i: int)
    requires
        keys_sorted(s),
        0 <= i < s.len(),
    ensures
        key_index(s, s[i].0@) == Some(i),
        value_of(s, s[i].0@) == Some(s[i].1),
{
    let k = s[i].0@;
    assert(0 <= i < s.len() && s[i].0@ == k);
    let j = choose|j: int| 0 <= j < s.len() && s[j].0@ == k;
    lemma_lex_total(k, k);
    if j < i {
        assert(lex_lt(s[j].0@, s[i].0@));
    } else if j > i {
        assert(lex_lt(s[i].0@, s[j].0@));
    }
}

/// First position whose key does not come before `key`, and whether the key there is `key`.
fn find_slot<V>(entries: &Vec<(String, V)>, key: &Vec<char>) -> (r: (usize, bool))
    requires
        keys_sorted(entries@),
    ensures
        r.0 <= entries@.len(),
        forall|i: int| 0 <= i < r.0 ==> lex_lt(#[trigger] entries@[i].0@, key@),
        r.0 < entries@.len() ==> !lex_lt(entries@[r.0 as int].0@, key@),
        r.1 <==> (r.0 < entries@.len() && entries@[r.0 as int].0@ == key@),
        !r.1 ==> key_index(entries@, key@) is None,
        r.1 ==> key_index(entries@, key@) == Some(r.0 as int),
{
    let mut i: usize = 0;
    while i < entries.len()
        invariant
            keys_sorted(entries@),
            i <= entries@.len(),
            forall|j: int| 0 <= j < i ==> lex_lt(#[trigger] entries@[j].0@, key@),
        decreases entries@.len() - i,
    {
        let k = chars_of(entries[i].0.as_str());
        if !chars_lt(&k, key) {
            let found = chars_eq(&k, key);
            proof {
                if found {
                    lemma_key_index_at(entries@, i as int);
                } else {
                    assert forall|j: int| 0 <= j < entries@.len() implies entries@[j].0@ != key@ by {
                        if j < i {
                            lemma_lex_total(entries@[j].0@, key@);
                        } else if j > i {
                            lemma_lex_total(entries@[i as int].0@, key@);
                            lemma_lex_total(entries@[j].0@, key@);
                            if entries@[j].0@ == key@ {
                                assert(lex_lt(entries@[i as int].0@, entries@[j].0@));
                            }
                        }
                    }
                }
            }
            return (i, found);
        }
        i = i + 1;
    }
    proof {
        assert forall|j: int| 0 <= j < entries@.len() implies entries@[j].0@ != key@ by {
            lemma_lex_total(entries@[j].0@, key@);
        }
    }
    (i, false)
}

/// Looks up the value stored under `key`.
pub fn lookup_entry<'a, V>(entries: &'a Vec<(String, V)>, key: &str) -> (r: Option<&'a V>)
    requires
        keys_sorted(entries@),
    ensures
        match r {
            Some(v) => value_of(entries@, key@) == Some(*v),
            None => value_of(entries@, key@) is None,
        },
{
    let k = chars_of(key);
    let (i, found) = find_slot(entries, &k);
    if found {
        Some(&entries[i].1)
    } else {
        None
    }
}

/// Stores `value` under `key`, replacing an existing entry or inserting a new one
/// at its place in key order.
pub fn insert_entry<V>(entries: &mut Vec<(String, V)>, key: &str, value: V)
    requires
        keys_sorted(old(entries)@),
    ensures
        keys_sorted(final(entries)@),
        forall|k: Seq<char>| #[trigger] value_of(final(entries)@, k) == if k == key@ {
            Some(value)
        } else {
            value_of(old(entries)@, k)
        },
{
    let k = chars_of(key);
    let (i, found) = find_slot(entries, &k);
    let ghost old_s = entries@;
    if found {
        entries.set(i, (owned(key), value));
        proof {
            let s = entries@;
            assert(keys_sorted(s)) by {
                assert forall|a: int, b: int| 0 <= a < b < s.len() implies lex_lt(
                    #[trigger] s[a].0@,
                    #[trigger] s[b].0@,
                ) by {
                    assert(old_s[a].0@ == s[a].0@ || a == i);
                    assert(old_s[b].0@ == s[b].0@ || b == i);
                    assert(lex_lt(old_s[a].0@, old_s[b].0@));
                }
            }
            assert forall|q: Seq<char>| #[trigger] value_of(s, q) == if q == key@ {
                Some(value)
            } else {
                value_of(old_s, q)
            } by {
                if q == key@ {
                    lemma_key_index_at(s, i as int);
                } else {
                    match key_index(old_s, q) {
                        Some(j) => {
                            lemma_key_index_at(old_s, j);
                            assert(j != i);
                            lemma_key_index_at(s, j);
                        },
                        None => {
                            assert forall|j: int| 0 <= j < s.len() implies s[j].0@ != q by {
                                if j != i {
                                    assert(old_s[j].0@ == s[j].0@);
                                }
                            }
                        },
                    }
                }
            }
        }
    } else {
        entries.insert(i, (owned(key), value));
        proof {
            let s = entries@;
            assert(s.len() == old_s.len() + 1);
            assert forall|j: int| 0 <= j < i implies #[trigger] s[j] == old_s[j] by {}
            assert forall|j: int| i < j < s.len() implies #[trigger] s[j] == old_s[j - 1] by {}
            assert(s[i as int].0@ == key@);
            assert(keys_sorted(s)) by {
                assert forall|a: int, b: int| 0 <= a < b < s.len() implies lex_lt(
                    #[trigger] s[a].0@,
                    #[trigger] s[b].0@,
                ) by {
                    if b == i {
                    } else if a == i {
                        let ob = old_s[b - 1].0@;
                        lemma_lex_total(ob, key@);
                        if b - 1 > i {
                            assert(lex_lt(old_s[i as int].0@, ob));
                            lemma_lex_total(old_s[i as int].0@, key@);
                            if lex_lt(old_s[i as int].0@, key@) {
                            } else if old_s[i as int].0@ != key@ {
                                lemma_lex_trans(key@, old_s[i as int].0@, ob);
                            }
                        }
                    } else if a < i && b > i {
                        assert(lex_lt(old_s[a].0@, key@));
                        if b - 1 == i {
                            lemma_lex_total(old_s[i as int].0@, key@);
                            lemma_lex_trans(old_s[a].0@, key@, old_s[b - 1].0@);
                        } else {
                            assert(lex_lt(old_s[a].0@, old_s[b - 1].0@));
                        }
                    } else if b < i {
                        assert(lex_lt(old_s[a].0@, old_s[b].0@));
                    } else {
                        assert(lex_lt(old_s[a - 1].0@, old_s[b - 1].0@));
                    }
                }
            }
            assert forall|q: Seq<char>| #[trigger] value_of(s, q) == if q == key@ {
                Some(value)
            } else {
                value_of(old_s, q)
            } by {
                if q == key@ {
                    lemma_key_index_at(s, i as int);
                } else {
                    match key_index(old_s, q) {
                        Some(j) => {
                            lemma_key_index_at(old_s, j);
                            if j < i {
                                lemma_key_index_at(s, j);
                            } else {
                                assert(s[j + 1] == old_s[j]);
                                lemma_key_index_at(s, j + 1);
                            }
                        },
                        None => {
                            assert forall|j: int| 0 <= j < s.len() implies s[j].0@ != q by {
                                if j < i {
                                    assert(s[j] == old_s[j]);
                                } else if j > i {
                                    assert(s[j] == old_s[j - 1]);
                                }
                            }
                        },
                    }
                }
            }
        }
    }
}

} // verus!
