//! String-keyed association lists with distinct keys, viewed as a `Map`.
use vstd::prelude::*;

verus! {

/// The map that an association list denotes; a later entry wins.
pub open spec fn pairs_map(s: Seq<(String, String)>) -> Map<Seq<char>, Seq<char>>
    decreases s.len(),
{
    if s.len() == 0 {
        Map::empty()
    } else {
        pairs_map(s.drop_last()).insert(s.last().0@, s.last().1@)
    }
}

/// No key occurs twice.
pub open spec fn distinct_keys(s: Seq<(String, String)>) -> bool {
    forall|i: int, j: int| 0 <= i < j < s.len() ==> s[i].0@ != s[j].0@
}

/// A key is in the map exactly when some entry has it, and then the map holds
/// that entry's value.
pub proof fn lemma_pairs_map_lookup(s: Seq<(String, String)>, k: Seq<char>)
    requires
        distinct_keys(s),
    ensures
        pairs_map(s).contains_key(k) <==> exists|i: int| 0 <= i < s.len() && s[i].0@ == k,
        forall|i: int| 0 <= i < s.len() && s[i].0@ == k ==> pairs_map(s)[k] == s[i].1@,
    decreases s.len(),
{
    if s.len() > 0 {
        let t = s.drop_last();
        let n = s.len() - 1;
        lemma_pairs_map_lookup(t, k);
        if pairs_map(s).contains_key(k) {
            if s.last().0@ == k {
                assert(s[n].0@ == k);
            } else {
                let i = choose|i: int| 0 <= i < t.len() && t[i].0@ == k;
                assert(s[i].0@ == k);
            }
        }
        if exists|i: int| 0 <= i < s.len() && s[i].0@ == k {
            let i = choose|i: int| 0 <= i < s.len() && s[i].0@ == k;
            if i < n {
                assert(t[i].0@ == k);
            }
        }
        assert forall|i: int| 0 <= i < s.len() && s[i].0@ == k implies pairs_map(s)[k]
            == s[i].1@ by {
            if i < n {
                assert(t[i] == s[i]);
                assert(s[n].0@ != k);
            }
        }
    }
}

proof fn lemma_pairs_map_update(s: Seq<(String, String)>, i: int, p: (String, String))
    requires
        distinct_keys(s),
        0 <= i < s.len(),
        s[i].0@ == p.0@,
    ensures
        pairs_map(s.update(i, p)) == pairs_map(s).insert(p.0@, p.1@),
    decreases s.len(),
{
    let u = s.update(i, p);
    if i == s.len() - 1 {
        assert(u.drop_last() =~= s.drop_last());
        assert(pairs_map(u) =~= pairs_map(s).insert(p.0@, p.1@));
    } else {
        let t = s.drop_last();
        lemma_pairs_map_update(t, i, p);
        assert(u.drop_last() =~= t.update(i, p));
        assert(s.last().0@ != p.0@);
        assert(pairs_map(u) =~= pairs_map(s).insert(p.0@, p.1@));
    }
}

/// Sets `k` to `v`, replacing an entry with the same key.
pub fn assoc_insert(entries: &mut Vec<(String, String)>, k: String, v: String)
    requires
        distinct_keys(old(entries)@),
    ensures
        distinct_keys(final(entries)@),
        pairs_map(final(entries)@) == pairs_map(old(entries)@).insert(k@, v@),
{
    let mut i: usize = 0;
    while i < entries.len()
        invariant
            i <= entries@.len(),
            entries@ == old(entries)@,
            distinct_keys(entries@),
            forall|j: int| 0 <= j < i ==> entries@[j].0@ != k@,
        decreases entries@.len() - i,
    {
        if entries[i].0 == k {
            let ghost before = entries@;
            proof {
                lemma_pairs_map_update(entries@, i as int, (k, v));
            }
            entries.set(i, (k, v));
            proof {
                assert forall|a: int, b: int| 0 <= a < b < entries@.len() implies entries@[a].0@
                    != entries@[b].0@ by {
                    assert(before[a].0@ != before[b].0@);
                }
            }
            return;
        }
        i = i + 1;
    }
    proof {
        assert(entries@.push((k, v)).drop_last() =~= entries@);
    }
    entries.push((k, v));
}

/// The value stored under `k`, if any.
pub fn assoc_get(entries: &Vec<(String, String)>, k: &str) -> (r: Option<String>)
    requires
        distinct_keys(entries@),
    ensures
        r is Some <==> pairs_map(entries@).contains_key(k@),
        r matches Some(v) ==> v@ == pairs_map(entries@)[k@],
{
    proof {
        lemma_pairs_map_lookup(entries@, k@);
    }
    let kk = k.to_owned();
    let mut i: usize = 0;
    while i < entries.len()
        invariant
            i <= entries@.len(),
            kk@ == k@,
            distinct_keys(entries@),
            forall|j: int| 0 <= j < i ==> entries@[j].0@ != k@,
        decreases entries@.len() - i,
    {
        if entries[i].0 == kk {
            proof {
                lemma_pairs_map_lookup(entries@, k@);
            }
            return Some(entries[i].1.clone());
        }
        i = i + 1;
    }
    proof {
        lemma_pairs_map_lookup(entries@, k@);
    }
    None
}

} // verus!
