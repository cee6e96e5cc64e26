//! Small maps kept as vectors of key and value pairs, each key once.
use vstd::prelude::*;

use crate::text::str_eq;

verus! {

/// No key occurs twice in `s`.
pub open spec fn unique_keys<K, V>(s: Seq<(K, V)>) -> bool {
    forall|i: int, j: int| 0 <= i < j < s.len() ==> s[i].0 != s[j].0
}

/// The map that the pairs of `s` make.
pub open spec fn pairs_map<K, V>(s: Seq<(K, V)>) -> Map<K, V>
    decreases s.len(),
{
    if s.len() == 0 {
        Map::empty()
    } else {
        pairs_map(s.drop_last()).insert(s.last().0, s.last().1)
    }
}

/// A key that no pair has is not in the map.
pub proof fn lemma_pairs_lacks<K, V>(s: Seq<(K, V)>, k: K)
    requires
        forall|i: int| 0 <= i < s.len() ==> s[i].0 != k,
    ensures
        !pairs_map(s).contains_key(k),
    decreases s.len(),
{
    if s.len() > 0 {
        lemma_pairs_lacks(s.drop_last(), k);
    }
}

/// Each pair of a list without repeated keys is in the map.
pub proof fn lemma_pairs_has<K, V>(s: Seq<(K, V)>, i: int)
    requires
        unique_keys(s),
        0 <= i < s.len(),
    ensures
        pairs_map(s).contains_key(s[i].0),
        pairs_map(s)[s[i].0] == s[i].1,
    decreases s.len(),
{
    if i < s.len() - 1 {
        lemma_pairs_has(s.drop_last(), i);
    }
}

/// Setting the value of a pair sets it in the map.
pub proof fn lemma_pairs_update<K, V>(s: Seq<(K, V)>, i: int, v: V)
    requires
        unique_keys(s),
        0 <= i < s.len(),
    ensures
        unique_keys(s.update(i, (s[i].0, v))),
        pairs_map(s.update(i, (s[i].0, v))) == pairs_map(s).insert(s[i].0, v),
    decreases s.len(),
{
    let t = s.update(i, (s[i].0, v));
    assert(t.drop_last() =~= if i == s.len() - 1 {
        s.drop_last()
    } else {
        s.drop_last().update(i, (s[i].0, v))
    });
    if i < s.len() - 1 {
        lemma_pairs_update(s.drop_last(), i, v);
    }
    assert(pairs_map(t) =~= pairs_map(s).insert(s[i].0, v));
}

/// Taking a pair out takes its key out of the map.
pub proof fn lemma_pairs_remove<K, V>(s: Seq<(K, V)>, i: int)
    requires
        unique_keys(s),
        0 <= i < s.len(),
    ensures
        unique_keys(s.remove(i)),
        pairs_map(s.remove(i)) == pairs_map(s).remove(s[i].0),
    decreases s.len(),
{
    let t = s.remove(i);
    assert(unique_keys(t)) by {
        assert forall|a: int, b: int| 0 <= a < b < t.len() implies t[a].0 != t[b].0 by {
            let a2 = if a < i {
                a
            } else {
                a + 1
            };
            let b2 = if b < i {
                b
            } else {
                b + 1
            };
            assert(t[a] == s[a2] && t[b] == s[b2]);
        }
    }
    if i == s.len() - 1 {
        assert(t =~= s.drop_last());
        lemma_pairs_lacks(s.drop_last(), s[i].0);
        assert(pairs_map(t) =~= pairs_map(s).remove(s[i].0));
    } else {
        assert(t.drop_last() =~= s.drop_last().remove(i));
        assert(t.last() == s.last());
        lemma_pairs_remove(s.drop_last(), i);
        assert(pairs_map(t) =~= pairs_map(s).remove(s[i].0));
    }
}

/// Adding a pair with a new key keeps the keys unique.
pub proof fn lemma_unique_push<K, V>(s: Seq<(K, V)>, k: K, v: V)
    requires
        unique_keys(s),
        forall|i: int| 0 <= i < s.len() ==> s[i].0 != k,
    ensures
        unique_keys(s.push((k, v))),
        pairs_map(s.push((k, v))) == pairs_map(s).insert(k, v),
{
    let t = s.push((k, v));
    assert(t.drop_last() =~= s);
    assert forall|a: int, b: int| 0 <= a < b < t.len() implies t[a].0 != t[b].0 by {
        if b == s.len() {
            assert(t[a] == s[a]);
        } else {
            assert(t[a] == s[a] && t[b] == s[b]);
        }
    }
}

/// The pairs of `v`, keys taken by their text.
pub open spec fn text_keyed<V>(v: Seq<(String, V)>) -> Seq<(Seq<char>, V)> {
    v.map_values(|e: (String, V)| (e.0@, e.1))
}

/// The map that `v` makes, keys taken by their text.
pub open spec fn text_map<V>(v: Seq<(String, V)>) -> Map<Seq<char>, V> {
    pairs_map(text_keyed(v))
}

/// No text occurs twice as a key of `v`.
pub open spec fn unique_text_keys<V>(v: Seq<(String, V)>) -> bool {
    unique_keys(text_keyed(v))
}

/// The index of the pair of `entries` whose key is `key`.
pub fn find_text_key<V>(entries: &Vec<(String, V)>, key: &str) -> (r: Option<usize>)
    ensures
        match r {
            Some(i) => i < entries@.len() && entries@[i as int].0@ == key@,
            None => forall|i: int| 0 <= i < entries@.len() ==> entries@[i].0@ != key@,
        },
{
    let mut i: usize = 0;
    while i < entries.len()
        invariant
            i <= entries@.len(),
            forall|j: int| 0 <= j < i ==> entries@[j].0@ != key@,
        decreases entries@.len() - i,
    {
        if str_eq(entries[i].0.as_str(), key) {
            return Some(i);
        }
        i = i + 1;
    }
    None
}

/// The value for `key`, if any.
pub fn text_get<'a, V>(entries: &'a Vec<(String, V)>, key: &str) -> (r: Option<&'a V>)
    requires
        unique_text_keys(entries@),
    ensures
        match r {
            Some(v) => text_map(entries@).contains_key(key@) && *v == text_map(entries@)[key@],
            None => !text_map(entries@).contains_key(key@),
        },
{
    proof {
        assert(text_keyed(entries@).len() == entries@.len());
    }
    match find_text_key(entries, key) {
        Some(i) => {
            proof {
                lemma_pairs_has(text_keyed(entries@), i as int);
            }
            Some(&entries[i].1)
        },
        None => {
            proof {
                lemma_pairs_lacks(text_keyed(entries@), key@);
            }
            None
        },
    }
}

/// Sets the value for `key`: the pair with that key is given the value,
/// or a new pair is added.
pub fn text_insert<V>(entries: &mut Vec<(String, V)>, key: String, value: V)
    requires
        unique_text_keys(old(entries)@),
    ensures
        unique_text_keys(final(entries)@),
        text_map(final(entries)@) == text_map(old(entries)@).insert(key@, value),
{
    let ghost old_entries = entries@;
    match find_text_key(entries, key.as_str()) {
        Some(i) => {
            proof {
                lemma_pairs_update(text_keyed(old_entries), i as int, value);
            }
            entries.set(i, (key, value));
            proof {
                assert(text_keyed(entries@) =~= text_keyed(old_entries).update(
                    i as int,
                    (text_keyed(old_entries)[i as int].0, value),
                ));
            }
        },
        None => {
            proof {
                lemma_unique_push(text_keyed(old_entries), key@, value);
            }
            entries.push((key, value));
            proof {
                assert(text_keyed(entries@) =~= text_keyed(old_entries).push((key@, value)));
            }
        },
    }
}

/// Takes the pair with key `key` out, if there is one.
pub fn text_remove<V>(entries: &mut Vec<(String, V)>, key: &str)
    requires
        unique_text_keys(old(entries)@),
    ensures
        unique_text_keys(final(entries)@),
        text_map(final(entries)@) == text_map(old(entries)@).remove(key@),
{
    let ghost old_entries = entries@;
    match find_text_key(entries, key) {
        Some(i) => {
            proof {
                lemma_pairs_remove(text_keyed(old_entries), i as int);
            }
            entries.remove(i);
            proof {
                assert(text_keyed(entries@) =~= text_keyed(old_entries).remove(i as int));
            }
        },
        None => {
            proof {
                lemma_pairs_lacks(text_keyed(old_entries), key@);
                assert(text_map(old_entries).remove(key@) =~= text_map(old_entries));
            }
        },
    }
}

} // verus!
