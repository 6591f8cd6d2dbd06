//! Label-keyed stores.
//!
//! Both routing maps (pending link per window, session ownership per session
//! identifier) are small association lists of strings with unique keys. Their
//! mathematical contents is a `Map` from key characters to value characters,
//! and every operation is specified against that map.

use vstd::prelude::*;

verus! {

/// Mathematical contents of an association list; with unique keys the entry
/// order never matters.
pub open spec fn entries_map(entries: Seq<(String, String)>) -> Map<Seq<char>, Seq<char>>
    decreases entries.len(),
{
    if entries.len() == 0 {
        Map::empty()
    } else {
        entries_map(entries.drop_last()).insert(entries.last().0@, entries.last().1@)
    }
}

/// No two entries share a key.
pub open spec fn keys_unique(entries: Seq<(String, String)>) -> bool {
    forall|i: int, j: int| 0 <= i < j < entries.len() ==> entries[i].0@ != entries[j].0@
}

/// Some entry has key `k`.
pub open spec fn has_key(entries: Seq<(String, String)>, k: Seq<char>) -> bool {
    exists|i: int| 0 <= i < entries.len() && entries[i].0@ == k
}

/// `m` with every entry whose value is `v` removed.
pub open spec fn map_without_value(m: Map<Seq<char>, Seq<char>>, v: Seq<char>) -> Map<
    Seq<char>,
    Seq<char>,
> {
    Map::<Seq<char>, Seq<char>>::new(
        |k: Seq<char>| m.contains_key(k) && m[k] != v,
        |k: Seq<char>| m[k],
    )
}

/// Some entry of `m` has value `v`.
pub open spec fn map_has_value(m: Map<Seq<char>, Seq<char>>, v: Seq<char>) -> bool {
    exists|k: Seq<char>| m.contains_key(k) && m[k] == v
}

pub proof fn lemma_entries_map_domain(entries: Seq<(String, String)>, k: Seq<char>)
    ensures
        entries_map(entries).contains_key(k) <==> has_key(entries, k),
    decreases entries.len(),
{
    if entries.len() > 0 {
        let prefix = entries.drop_last();
        lemma_entries_map_domain(prefix, k);
        if entries.last().0@ == k {
            assert(entries[entries.len() - 1].0@ == k);
        } else {
            if has_key(prefix, k) {
                let i = choose|i: int| 0 <= i < prefix.len() && prefix[i].0@ == k;
                assert(entries[i].0@ == k);
            }
            if has_key(entries, k) {
                let i = choose|i: int| 0 <= i < entries.len() && entries[i].0@ == k;
                assert(i < entries.len() - 1);
                assert(prefix[i].0@ == k);
            }
        }
    }
}

pub proof fn lemma_entries_map_index(entries: Seq<(String, String)>, i: int)
    requires
        keys_unique(entries),
        0 <= i < entries.len(),
    ensures
        entries_map(entries).contains_key(entries[i].0@),
        entries_map(entries)[entries[i].0@] == entries[i].1@,
    decreases entries.len(),
{
    if i < entries.len() - 1 {
        let prefix = entries.drop_last();
        assert(keys_unique(prefix));
        lemma_entries_map_index(prefix, i);
        assert(entries.last().0@ != entries[i].0@);
    }
}

/// Every key of the map is the key of some entry, holding the same value.
pub proof fn lemma_entries_map_value(entries: Seq<(String, String)>, k: Seq<char>)
    requires
        keys_unique(entries),
        entries_map(entries).contains_key(k),
    ensures
        exists|i: int|
            0 <= i < entries.len() && entries[i].0@ == k && entries[i].1@ == entries_map(
                entries,
            )[k],
{
    lemma_entries_map_domain(entries, k);
    let i = choose|i: int| 0 <= i < entries.len() && entries[i].0@ == k;
    lemma_entries_map_index(entries, i);
}

proof fn lemma_map_remove_absent(m: Map<Seq<char>, Seq<char>>, k: Seq<char>)
    requires
        !m.contains_key(k),
    ensures
        m.remove(k) == m,
{
    assert(m.remove(k) =~= m);
}

proof fn lemma_entries_map_remove_at(entries: Seq<(String, String)>, i: int)
    requires
        keys_unique(entries),
        0 <= i < entries.len(),
    ensures
        keys_unique(entries.remove(i)),
        entries_map(entries.remove(i)) == entries_map(entries).remove(entries[i].0@),
    decreases entries.len(),
{
    let k = entries[i].0@;
    let removed = entries.remove(i);
    if i == entries.len() - 1 {
        assert(removed =~= entries.drop_last());
        lemma_entries_map_domain(entries.drop_last(), k);
        if has_key(entries.drop_last(), k) {
            let j = choose|j: int|
                0 <= j < entries.drop_last().len() && entries.drop_last()[j].0@ == k;
            assert(entries[j].0@ == entries[i].0@);
            assert(false);
        }
        lemma_map_remove_absent(entries_map(entries.drop_last()), k);
        assert(entries_map(removed) =~= entries_map(entries).remove(k));
    } else {
        let prefix = entries.drop_last();
        let last = entries.last();
        assert(keys_unique(prefix));
        lemma_entries_map_remove_at(prefix, i);
        assert(removed =~= prefix.remove(i).push(last));
        assert(removed.drop_last() =~= prefix.remove(i));
        assert(removed.last() == last);
        assert(entries_map(removed) == entries_map(prefix.remove(i)).insert(last.0@, last.1@));
        assert(last.0@ != k);
        assert(entries_map(removed) =~= entries_map(entries).remove(k));
    }
}

/// Index of the first entry with key `key`, if any.
fn alist_find(entries: &Vec<(String, String)>, key: &String) -> (r: Option<usize>)
    ensures
        match r {
            Some(i) => i < entries@.len() && entries@[i as int].0@ == key@ && (forall|j: int|
                0 <= j < i ==> entries@[j].0@ != key@),
            None => !has_key(entries@, key@),
        },
{
    let n = entries.len();
    let mut i: usize = 0;
    while i < n
        invariant
            0 <= i <= n,
            n == entries@.len(),
            forall|j: int| 0 <= j < i ==> entries@[j].0@ != key@,
        decreases n - i,
    {
        if entries[i].0 == *key {
            return Some(i);
        }
        i = i + 1;
    }
    proof {
        if has_key(entries@, key@) {
            let j = choose|j: int| 0 <= j < entries@.len() && entries@[j].0@ == key@;
            assert(entries@[j].0@ != key@);
        }
    }
    None
}

/// Value stored under `key`, without consuming it.
pub fn alist_get(entries: &Vec<(String, String)>, key: &String) -> (r: Option<String>)
    requires
        keys_unique(entries@),
    ensures
        r.deep_view() == (if entries_map(entries@).contains_key(key@) {
            Some(entries_map(entries@)[key@])
        } else {
            None::<Seq<char>>
        }),
{
    match alist_find(entries, key) {
        Some(i) => {
            let out = entries[i].1.clone();
            proof {
                lemma_entries_map_index(entries@, i as int);
            }
            Some(out)
        },
        None => {
            proof {
                lemma_entries_map_domain(entries@, key@);
            }
            None
        },
    }
}

/// Store `value` under `key`, overwriting any earlier entry (latest wins).
pub fn alist_set(entries: &mut Vec<(String, String)>, key: String, value: String)
    requires
        keys_unique(old(entries)@),
    ensures
        keys_unique(final(entries)@),
        entries_map(final(entries)@) == entries_map(old(entries)@).insert(key@, value@),
{
    let ghost m0 = entries_map(entries@);
    match alist_find(entries, &key) {
        Some(i) => {
            proof {
                lemma_entries_map_remove_at(entries@, i as int);
            }
            entries.remove(i);
            let ghost removed = entries@;
            entries.push((key, value));
            proof {
                assert(entries@.drop_last() =~= removed);
                assert(entries@.last() == (entries@[entries@.len() - 1]));
                assert(entries_map(entries@) == entries_map(removed).insert(key@, value@));
                assert(entries_map(entries@) =~= m0.insert(key@, value@));
                assert forall|a: int, b: int|
                    0 <= a < b < entries@.len() implies entries@[a].0@ != entries@[b].0@ by {
                    if b == entries@.len() - 1 {
                        assert(removed[a].0@ != key@);
                    }
                }
            }
        },
        None => {
            let ghost before = entries@;
            entries.push((key, value));
            proof {
                assert(entries@.drop_last() =~= before);
                assert(entries_map(entries@) == entries_map(before).insert(key@, value@));
                assert forall|a: int, b: int|
                    0 <= a < b < entries@.len() implies entries@[a].0@ != entries@[b].0@ by {
                    if b == entries@.len() - 1 {
                        assert(before[a].0@ != key@);
                    }
                }
            }
        },
    }
}

/// Remove the entry stored under `key`, if any.
pub fn alist_remove(entries: &mut Vec<(String, String)>, key: &String)
    requires
        keys_unique(old(entries)@),
    ensures
        keys_unique(final(entries)@),
        entries_map(final(entries)@) == entries_map(old(entries)@).remove(key@),
{
    match alist_find(entries, key) {
        Some(i) => {
            proof {
                lemma_entries_map_remove_at(entries@, i as int);
            }
            entries.remove(i);
        },
        None => {
            proof {
                lemma_entries_map_domain(entries@, key@);
                lemma_map_remove_absent(entries_map(entries@), key@);
            }
        },
    }
}

fn filtered_without_value(entries: &Vec<(String, String)>, value: &String) -> (r: Vec<
    (String, String),
>)
    requires
        keys_unique(entries@),
    ensures
        keys_unique(r@),
        entries_map(r@) == map_without_value(entries_map(entries@), value@),
{
    let n = entries.len();
    let mut kept: Vec<(String, String)> = Vec::new();
    proof {
        assert(entries@.take(0) =~= Seq::<(String, String)>::empty());
        assert(entries_map(kept@) =~= map_without_value(entries_map(entries@.take(0)), value@));
    }
    let mut i: usize = 0;
    while i < n
        invariant
            0 <= i <= n,
            n == entries@.len(),
            keys_unique(entries@),
            keys_unique(kept@),
            forall|j: int| 0 <= j < kept@.len() ==> has_key(entries@.take(i as int), kept@[j].0@),
            entries_map(kept@) == map_without_value(entries_map(entries@.take(i as int)), value@),
        decreases n - i,
    {
        let ghost prefix = entries@.take(i as int);
        let ghost m = entries_map(prefix);
        proof {
            assert(entries@.take(i + 1).drop_last() =~= prefix);
            assert(entries@.take(i + 1).last() == entries@[i as int]);
            assert(entries_map(entries@.take(i + 1)) == m.insert(
                entries@[i as int].0@,
                entries@[i as int].1@,
            ));
            lemma_entries_map_domain(prefix, entries@[i as int].0@);
            if has_key(prefix, entries@[i as int].0@) {
                let j = choose|j: int| 0 <= j < prefix.len() && prefix[j].0@ == entries@[i as int].0@;
                assert(entries@[j].0@ == entries@[i as int].0@);
                assert(false);
            }
        }
        if entries[i].1 == *value {
            proof {
                assert(map_without_value(entries_map(entries@.take(i + 1)), value@)
                    =~= map_without_value(m, value@));
            }
        } else {
            let pair = (entries[i].0.clone(), entries[i].1.clone());
            let ghost kept_before = kept@;
            kept.push(pair);
            proof {
                assert(kept@.drop_last() =~= kept_before);
                assert(entries_map(kept@) == entries_map(kept_before).insert(
                    entries@[i as int].0@,
                    entries@[i as int].1@,
                ));
                assert(map_without_value(entries_map(entries@.take(i + 1)), value@)
                    =~= map_without_value(m, value@).insert(
                    entries@[i as int].0@,
                    entries@[i as int].1@,
                ));
                assert forall|a: int, b: int|
                    0 <= a < b < kept@.len() implies kept@[a].0@ != kept@[b].0@ by {
                    if b == kept@.len() - 1 {
                        assert(has_key(entries@.take(i as int), kept_before[a].0@));
                        let t = choose|t: int|
                            0 <= t < i && entries@[t].0@ == kept_before[a].0@;
                        assert(entries@[t].0@ != entries@[i as int].0@);
                    }
                }
                assert forall|j: int|
                    0 <= j < kept@.len() implies has_key(
                    entries@.take(i + 1),
                    kept@[j].0@,
                ) by {
                    if j < kept@.len() - 1 {
                        let t = choose|t: int|
                            0 <= t < i && entries@[t].0@ == kept_before[j].0@;
                        assert(entries@.take(i + 1)[t].0@ == kept@[j].0@);
                    } else {
                        assert(entries@.take(i + 1)[i as int].0@ == kept@[j].0@);
                    }
                }
            }
        }
        proof {
            assert forall|j: int|
                0 <= j < kept@.len() implies has_key(entries@.take(i + 1), kept@[j].0@) by {
                if has_key(entries@.take(i as int), kept@[j].0@) {
                    let t = choose|t: int|
                        0 <= t < i && entries@.take(i as int)[t].0@ == kept@[j].0@;
                    assert(entries@.take(i + 1)[t].0@ == kept@[j].0@);
                }
            }
        }
        i = i + 1;
    }
    proof {
        assert(entries@.take(n as int) =~= entries@);
    }
    kept
}

/// Remove every entry whose value is `value` (cleanup is by value: a window
/// label is pruned from every session that points at it).
pub fn alist_remove_by_value(entries: &mut Vec<(String, String)>, value: &String)
    requires
        keys_unique(old(entries)@),
    ensures
        keys_unique(final(entries)@),
        entries_map(final(entries)@) == map_without_value(entries_map(old(entries)@), value@),
{
    let kept = filtered_without_value(entries, value);
    *entries = kept;
}

/// Does any entry hold `value`?
pub fn alist_contains_value(entries: &Vec<(String, String)>, value: &String) -> (r: bool)
    requires
        keys_unique(entries@),
    ensures
        r == map_has_value(entries_map(entries@), value@),
{
    let n = entries.len();
    let mut i: usize = 0;
    while i < n
        invariant
            0 <= i <= n,
            n == entries@.len(),
            keys_unique(entries@),
            forall|j: int| 0 <= j < i ==> entries@[j].1@ != value@,
        decreases n - i,
    {
        if entries[i].1 == *value {
            proof {
                lemma_entries_map_index(entries@, i as int);
            }
            return true;
        }
        i = i + 1;
    }
    proof {
        if map_has_value(entries_map(entries@), value@) {
            let k = choose|k: Seq<char>|
                entries_map(entries@).contains_key(k) && entries_map(entries@)[k] == value@;
            lemma_entries_map_value(entries@, k);
            let j = choose|j: int|
                0 <= j < entries@.len() && entries@[j].0@ == k && entries@[j].1@ == entries_map(
                    entries@,
                )[k];
            assert(entries@[j].1@ != value@);
        }
    }
    false
}

} // verus!
