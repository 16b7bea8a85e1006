//! String-keyed tables held as vectors of distinct-key entries, viewed as maps.

use vstd::prelude::*;

verus! {

/// The map a table stands for: each entry's key to its value (a later entry
/// for the same key would win; the tables here keep keys distinct).
pub open spec fn table_map<V: View>(s: Seq<(String, V)>) -> Map<Seq<char>, V::V>
    decreases s.len(),
{
    if s.len() == 0 {
        Map::empty()
    } else {
        table_map(s.drop_last()).insert(s.last().0@, s.last().1@)
    }
}

/// No key occurs twice.
pub open spec fn keys_distinct<V>(s: Seq<(String, V)>) -> bool {
    forall|i: int, j: int| 0 <= i < j < s.len() ==> s[i].0@ != s[j].0@
}

/// The set of keys of a table.
pub open spec fn table_keys<V>(s: Seq<(String, V)>) -> Set<Seq<char>> {
    Set::new(|k: Seq<char>| exists|i: int| 0 <= i < s.len() && s[i].0@ == k)
}

/// The keys of the map are exactly the keys of the entries, and the map is finite.
pub proof fn lemma_table_dom<V: View>(s: Seq<(String, V)>)
    ensures
        table_map(s).dom() == table_keys(s),
        table_map(s).dom().finite(),
    decreases s.len(),
{
    if s.len() > 0 {
        let p = s.drop_last();
        lemma_table_dom(p);
        assert forall|k: Seq<char>| #[trigger] table_keys(s).contains(k) implies table_map(s).dom().contains(k) by {
            let i = choose|i: int| 0 <= i < s.len() && s[i].0@ == k;
            if i < s.len() - 1 {
                assert(p[i].0@ == k);
                assert(table_keys(p).contains(k));
            }
        }
        assert forall|k: Seq<char>| #[trigger] table_map(s).dom().contains(k) implies table_keys(s).contains(k) by {
            if k == s.last().0@ {
                assert(s[s.len() - 1].0@ == k);
            } else {
                assert(table_keys(p).contains(k));
                let i = choose|i: int| 0 <= i < p.len() && p[i].0@ == k;
                assert(s[i].0@ == k);
            }
        }
        assert(table_map(s).dom() =~= table_keys(s));
    }
}

/// In a table with distinct keys, each entry's key maps to that entry's value.
pub proof fn lemma_table_entry<V: View>(s: Seq<(String, V)>, i: int)
    requires
        keys_distinct(s),
        0 <= i < s.len(),
    ensures
        table_map(s).contains_key(s[i].0@),
        table_map(s)[s[i].0@] == s[i].1@,
    decreases s.len(),
{
    if i < s.len() - 1 {
        let p = s.drop_last();
        assert(keys_distinct(p));
        lemma_table_entry(p, i);
        assert(p[i] == s[i]);
    }
}

/// A key that no entry carries is not in the map.
pub proof fn lemma_table_absent<V: View>(s: Seq<(String, V)>, k: Seq<char>)
    requires
        forall|i: int| 0 <= i < s.len() ==> s[i].0@ != k,
    ensures
        !table_map(s).contains_key(k),
{
    lemma_table_dom(s);
    if table_keys(s).contains(k) {
        let i = choose|i: int| 0 <= i < s.len() && s[i].0@ == k;
        assert(s[i].0@ != k);
    }
}

/// Appending an entry with a new key keeps keys distinct and adds it to the map.
pub proof fn lemma_table_push<V: View>(s: Seq<(String, V)>, k: String, v: V)
    requires
        keys_distinct(s),
        forall|i: int| 0 <= i < s.len() ==> s[i].0@ != k@,
    ensures
        keys_distinct(s.push((k, v))),
        table_map(s.push((k, v))) == table_map(s).insert(k@, v@),
{
    let t = s.push((k, v));
    assert(t.drop_last() =~= s);
}

/// Replacing the value of an existing entry keeps keys distinct and updates the map.
pub proof fn lemma_table_update<V: View>(s: Seq<(String, V)>, i: int, k: String, v: V)
    requires
        keys_distinct(s),
        0 <= i < s.len(),
        s[i].0@ == k@,
    ensures
        keys_distinct(s.update(i, (k, v))),
        table_map(s.update(i, (k, v))) == table_map(s).insert(k@, v@),
    decreases s.len(),
{
    let t = s.update(i, (k, v));
    assert(keys_distinct(t)) by {
        assert forall|a: int, b: int| 0 <= a < b < t.len() implies t[a].0@ != t[b].0@ by {
            assert(s[a].0@ != s[b].0@);
        }
    }
    if i == s.len() - 1 {
        assert(t.drop_last() =~= s.drop_last());
        assert(table_map(t) =~= table_map(s).insert(k@, v@));
    } else {
        let p = s.drop_last();
        assert(keys_distinct(p));
        lemma_table_update(p, i, k, v);
        assert(t.drop_last() =~= p.update(i, (k, v)));
        assert(s.last().0@ != k@);
        assert(t.last() == s.last());
        assert(table_map(t) =~= table_map(s).insert(k@, v@));
    }
}

/// A table with distinct keys has as many keys as entries.
pub proof fn lemma_table_len<V: View>(s: Seq<(String, V)>)
    requires
        keys_distinct(s),
    ensures
        table_map(s).dom().len() == s.len(),
    decreases s.len(),
{
    if s.len() > 0 {
        let p = s.drop_last();
        assert(keys_distinct(p));
        lemma_table_len(p);
        lemma_table_dom(p);
        assert forall|i: int| 0 <= i < p.len() implies p[i].0@ != s.last().0@ by {
            assert(s[i].0@ != s[s.len() - 1].0@);
        }
        lemma_table_absent(p, s.last().0@);
    }
}

/// The position of the entry with key `k`, if any.
pub fn table_find<V>(s: &Vec<(String, V)>, k: &str) -> (r: Option<usize>)
    ensures
        match r {
            Some(i) => i < s@.len() && s@[i as int].0@ == k@,
            None => forall|i: int| 0 <= i < s@.len() ==> s@[i].0@ != k@,
        },
{
    let key = k.to_owned();
    let n = s.len();
    let mut i: usize = 0;
    while i < n
        invariant
            n == s@.len(),
            key@ == k@,
            i <= n,
            forall|j: int| 0 <= j < i ==> s@[j].0@ != k@,
        decreases n - i,
    {
        if s[i].0 == key {
            return Some(i);
        }
        i = i + 1;
    }
    None
}

/// The value stored under `k`, if any.
pub fn table_get<'a, V: View>(s: &'a Vec<(String, V)>, k: &str) -> (r: Option<&'a V>)
    requires
        keys_distinct(s@),
    ensures
        match r {
            Some(v) => table_map(s@).contains_key(k@) && v@ == table_map(s@)[k@],
            None => !table_map(s@).contains_key(k@),
        },
{
    match table_find(s, k) {
        Some(i) => {
            proof {
                lemma_table_entry(s@, i as int);
            }
            Some(&s[i].1)
        },
        None => {
            proof {
                lemma_table_absent(s@, k@);
            }
            None
        },
    }
}

/// Stores `v` under `k`, replacing what was there.
pub fn table_put<V: View>(s: &mut Vec<(String, V)>, k: String, v: V)
    requires
        keys_distinct(old(s)@),
    ensures
        keys_distinct(final(s)@),
        table_map(final(s)@) == table_map(old(s)@).insert(k@, v@),
{
    match table_find(s, k.as_str()) {
        Some(i) => {
            proof {
                lemma_table_update(s@, i as int, k, v);
            }
            s[i] = (k, v);
        },
        None => {
            proof {
                lemma_table_push(s@, k, v);
            }
            s.push((k, v));
        },
    }
}

} // verus!
