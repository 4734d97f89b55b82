//! Keyed registries: association lists of `(String, V)` entries with unique
//! string identifiers, abstracted in specifications as a `Map` from the key's
//! character sequence to the entry value.
//!
//! Every registry of the ledger (viewers, creators, advertisers, campaigns,
//! vaults, loans) is such a list. Entries are created once and then mutated in
//! place; insertion order is irrelevant to the ledger's semantics, so
//! contracts speak of the derived map.

use vstd::prelude::*;

verus! {

/// No two entries carry the same identifier.
pub open spec fn keys_unique<V>(s: Seq<(String, V)>) -> bool {
    forall|i: int, j: int| 0 <= i < j < s.len() ==> s[i].0@ != s[j].0@
}

/// The abstract view of an association list: the map sending each identifier
/// that occurs in the list to the value of one entry carrying it (with unique
/// keys, the only such entry).
pub open spec fn map_of<V>(s: Seq<(String, V)>) -> Map<Seq<char>, V> {
    Map::new(
        |k: Seq<char>| exists|i: int| 0 <= i < s.len() && s[i].0@ == k,
        |k: Seq<char>| s[choose|i: int| 0 <= i < s.len() && s[i].0@ == k].1,
    )
}

/// The map contains an identifier exactly when some entry carries it.
pub proof fn lemma_map_of_contains<V>(s: Seq<(String, V)>, k: Seq<char>)
    ensures
        map_of(s).contains_key(k) <==> exists|i: int| 0 <= i < s.len() && s[i].0@ == k,
{
}

/// With unique keys, the map agrees with the entry at any index.
pub proof fn lemma_map_of_index<V>(s: Seq<(String, V)>, i: int)
    requires
        keys_unique(s),
        0 <= i < s.len(),
    ensures
        map_of(s).contains_key(s[i].0@),
        map_of(s)[s[i].0@] == s[i].1,
{
    let k = s[i].0@;
    let j = choose|j: int| 0 <= j < s.len() && s[j].0@ == k;
    assert(s[i].0@ == k);
    assert(j == i);
}

/// Appending an entry with a fresh key inserts it into the map and keeps the
/// keys unique.
pub proof fn lemma_map_of_push<V>(s: Seq<(String, V)>, key: String, v: V)
    requires
        keys_unique(s),
        !map_of(s).contains_key(key@),
    ensures
        keys_unique(s.push((key, v))),
        map_of(s.push((key, v))) == map_of(s).insert(key@, v),
{
    let s1 = s.push((key, v));
    assert forall|i: int, j: int| 0 <= i < j < s1.len() implies s1[i].0@ != s1[j].0@ by {
        if j == s.len() {
            assert(s1[i].0@ == s[i].0@);
            lemma_map_of_contains(s, key@);
        }
    }
    assert forall|k: Seq<char>|
        map_of(s1).contains_key(k) <==> map_of(s).insert(key@, v).contains_key(k) by {
        lemma_map_of_contains(s, k);
        lemma_map_of_contains(s1, k);
        if k == key@ {
            assert(s1[s.len() as int].0@ == k);
        } else if map_of(s).contains_key(k) {
            let i = choose|i: int| 0 <= i < s.len() && s[i].0@ == k;
            assert(s1[i].0@ == k);
        } else if map_of(s1).contains_key(k) {
            let i = choose|i: int| 0 <= i < s1.len() && s1[i].0@ == k;
            assert(i < s.len() ==> s[i].0@ == k);
        }
    }
    assert forall|k: Seq<char>| #[trigger]
        map_of(s1).contains_key(k) implies map_of(s1)[k] == map_of(s).insert(key@, v)[k] by {
        let i = choose|i: int| 0 <= i < s1.len() && s1[i].0@ == k;
        if k == key@ {
            assert(keys_unique(s1));
            assert(s1[s.len() as int].0@ == k);
            assert(i == s.len());
        } else {
            assert(i < s.len() && s[i].0@ == k);
            lemma_map_of_index(s, i);
            lemma_map_of_index(s1, i);
        }
    }
    assert(map_of(s1) =~= map_of(s).insert(key@, v));
}

/// Overwriting the value of the entry at an index (keeping its key) updates
/// the map at that key and keeps the keys unique.
pub proof fn lemma_map_of_update<V>(s: Seq<(String, V)>, i: int, v: V)
    requires
        keys_unique(s),
        0 <= i < s.len(),
    ensures
        keys_unique(s.update(i, (s[i].0, v))),
        map_of(s.update(i, (s[i].0, v))) == map_of(s).insert(s[i].0@, v),
{
    let k = s[i].0@;
    let s1 = s.update(i, (s[i].0, v));
    assert(forall|j: int| 0 <= j < s.len() ==> s1[j].0@ == s[j].0@);
    assert(keys_unique(s1));
    assert forall|q: Seq<char>|
        map_of(s1).contains_key(q) <==> map_of(s).insert(k, v).contains_key(q) by {
        lemma_map_of_contains(s, q);
        lemma_map_of_contains(s1, q);
        if map_of(s).contains_key(q) {
            let j = choose|j: int| 0 <= j < s.len() && s[j].0@ == q;
            assert(s1[j].0@ == q);
        } else if map_of(s1).contains_key(q) {
            let j = choose|j: int| 0 <= j < s1.len() && s1[j].0@ == q;
            assert(s[j].0@ == q);
        }
    }
    assert forall|q: Seq<char>| #[trigger]
        map_of(s1).contains_key(q) implies map_of(s1)[q] == map_of(s).insert(k, v)[q] by {
        let j = choose|j: int| 0 <= j < s1.len() && s1[j].0@ == q;
        if q == k {
            assert(s1[i].0@ == q);
            assert(j == i);
        } else {
            assert(j != i);
            assert(s[j].0@ == q);
            lemma_map_of_index(s, j);
            lemma_map_of_index(s1, j);
        }
    }
    assert(map_of(s1) =~= map_of(s).insert(k, v));
}

/// Finds the entry carrying `key`, if any, by a linear scan.
pub fn find_key<V>(entries: &Vec<(String, V)>, key: &String) -> (r: Option<usize>)
    ensures
        match r {
            Some(i) => i < entries@.len() && entries@[i as int].0@ == key@,
            None => forall|j: int| 0 <= j < entries@.len() ==> entries@[j].0@ != key@,
        },
{
    let n = entries.len();
    for i in 0..n
        invariant
            n == entries@.len(),
            forall|j: int| 0 <= j < i ==> entries@[j].0@ != key@,
    {
        if entries[i].0 == *key {
            return Some(i);
        }
    }
    None
}

/// Decides whether the entries carry pairwise distinct identifiers.
pub fn keys_unique_check<V>(entries: &Vec<(String, V)>) -> (r: bool)
    ensures
        r == keys_unique(entries@),
{
    let n = entries.len();
    for i in 0..n
        invariant
            n == entries@.len(),
            forall|a: int, b: int|
                0 <= a < b < entries@.len() && a < i ==> entries@[a].0@ != entries@[b].0@,
    {
        for j in (i + 1)..n
            invariant
                n == entries@.len(),
                i < n,
                i < j <= n,
                forall|a: int, b: int|
                    0 <= a < b < entries@.len() && a < i ==> entries@[a].0@ != entries@[b].0@,
                forall|b: int| i < b < j ==> entries@[i as int].0@ != entries@[b].0@,
        {
            if entries[i].0 == entries[j].0 {
                proof {
                    if keys_unique(entries@) {
                        assert(entries@[i as int].0@ != entries@[j as int].0@);
                    }
                }
                return false;
            }
        }
    }
    true
}

/// Whether some entry carries `key`.
pub fn contains_key<V>(entries: &Vec<(String, V)>, key: &String) -> (r: bool)
    ensures
        r == map_of(entries@).contains_key(key@),
{
    proof {
        lemma_map_of_contains(entries@, key@);
    }
    find_key(entries, key).is_some()
}

} // verus!
