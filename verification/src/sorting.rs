//! Lexicographic order on character sequences (the order of `str`'s `Ord`)
//! and an insertion sort by such keys.
use vstd::prelude::*;

verus! {

broadcast use vstd::seq_lib::group_to_multiset_ensures;

/// `a` comes strictly before `b` in lexicographic order by code point.
pub open spec fn seq_lt(a: Seq<char>, b: Seq<char>) -> bool
    decreases a.len(),
{
    if a.len() == 0 {
        b.len() > 0
    } else if b.len() == 0 {
        false
    } else if a[0] != b[0] {
        a[0] < b[0]
    } else {
        seq_lt(a.drop_first(), b.drop_first())
    }
}

pub open spec fn seq_le(a: Seq<char>, b: Seq<char>) -> bool {
    a == b || seq_lt(a, b)
}

/// Each key is at most the next one.
pub open spec fn sorted_by<T>(s: Seq<T>, key: spec_fn(T) -> Seq<char>) -> bool {
    forall|i: int| 0 <= i < s.len() - 1 ==> #[trigger] seq_le(key(s[i]), key(s[i + 1]))
}

/// Of two different sequences, one comes first.
pub proof fn lemma_seq_lt_total(a: Seq<char>, b: Seq<char>)
    ensures
        a == b || seq_lt(a, b) || seq_lt(b, a),
    decreases a.len(),
{
    if a.len() > 0 && b.len() > 0 && a[0] == b[0] {
        lemma_seq_lt_total(a.drop_first(), b.drop_first());
        if a.drop_first() == b.drop_first() {
            assert(a =~= seq![a[0]] + a.drop_first());
            assert(b =~= seq![b[0]] + b.drop_first());
        }
    } else if a.len() == 0 && b.len() == 0 {
        assert(a =~= b);
    }
}

/// `seq_lt` is irreflexive and asymmetric.
pub proof fn lemma_seq_lt_asym(a: Seq<char>, b: Seq<char>)
    ensures
        !(seq_lt(a, b) && seq_lt(b, a)),
        !seq_lt(a, a),
    decreases a.len(),
{
    if a.len() > 0 && b.len() > 0 && a[0] == b[0] {
        lemma_seq_lt_asym(a.drop_first(), b.drop_first());
    }
    if a.len() > 0 {
        lemma_seq_lt_asym(a.drop_first(), a.drop_first());
    }
}

/// Two sequences with the same elements still have the same elements once
/// each is mapped through `f`.
pub proof fn lemma_map_multiset<A, B>(s1: Seq<A>, s2: Seq<A>, f: spec_fn(A) -> B)
    requires
        s1.to_multiset() == s2.to_multiset(),
    ensures
        s1.map_values(f).to_multiset() == s2.map_values(f).to_multiset(),
    decreases s1.len(),
{
    broadcast use vstd::multiset::group_multiset_axioms;

    if s1.len() == 0 {
        assert(s1.to_multiset().len() == 0);
        assert(s2.to_multiset().len() == s2.len());
        assert(s1.map_values(f) =~= Seq::<B>::empty());
        assert(s2.map_values(f) =~= Seq::<B>::empty());
    } else {
        let x = s1.last();
        let s1p = s1.drop_last();
        assert(s1 =~= s1p.push(x));
        assert(s1.to_multiset().count(x) > 0);
        assert(s2.contains(x));
        let k = choose|k: int| 0 <= k < s2.len() && s2[k] == x;
        let s2p = s2.remove(k);
        assert(s1p.to_multiset() =~= s2p.to_multiset());
        lemma_map_multiset(s1p, s2p, f);
        assert(s1.map_values(f) =~= s1p.map_values(f).push(f(x)));
        assert(s2.map_values(f).remove(k) =~= s2p.map_values(f));
        let m2 = s2.map_values(f);
        assert(m2[k] == f(x));
        assert(m2.to_multiset() =~= s2p.map_values(f).to_multiset().insert(f(x)));
    }
}

/// Exec comparison: `a < b` lexicographically.
pub fn chars_lt(a: &[char], b: &[char]) -> (r: bool)
    ensures
        r == seq_lt(a@, b@),
{
    let mut i: usize = 0;
    proof {
        assert(a@.skip(0) =~= a@);
        assert(b@.skip(0) =~= b@);
    }
    while i < a.len() && i < b.len() && a[i] == b[i]
        invariant
            i <= a@.len(),
            i <= b@.len(),
            seq_lt(a@, b@) == seq_lt(a@.skip(i as int), b@.skip(i as int)),
        decreases a@.len() - i,
    {
        proof {
            assert(a@.skip(i as int).drop_first() == a@.skip(i + 1));
            assert(b@.skip(i as int).drop_first() == b@.skip(i + 1));
        }
        i = i + 1;
    }
    if i == a.len() {
        i < b.len()
    } else if i == b.len() {
        false
    } else {
        a[i] < b[i]
    }
}

/// Sorts `v` by the character keys `keys` (parallel to `v`), smallest first.
pub fn sort_by_keys<T>(v: Vec<T>, keys: Vec<Vec<char>>, Ghost(key): Ghost<spec_fn(T) -> Seq<char>>) -> (r:
    Vec<T>)
    requires
        keys@.len() == v@.len(),
        forall|i: int| 0 <= i < v@.len() ==> #[trigger] keys@[i]@ == key(v@[i]),
    ensures
        r@.to_multiset() == v@.to_multiset(),
        r@.len() == v@.len(),
        sorted_by(r@, key),
{
    let mut src = v;
    let mut src_keys = keys;
    let ghost orig = src@;
    let mut out: Vec<T> = Vec::new();
    let mut out_keys: Vec<Vec<char>> = Vec::new();
    while src.len() > 0
        invariant
            src_keys@.len() == src@.len(),
            out_keys@.len() == out@.len(),
            forall|i: int| 0 <= i < src@.len() ==> #[trigger] src_keys@[i]@ == key(src@[i]),
            forall|i: int| 0 <= i < out@.len() ==> #[trigger] out_keys@[i]@ == key(out@[i]),
            out@.to_multiset().add(src@.to_multiset()) == orig.to_multiset(),
            out@.len() + src@.len() == orig.len(),
            sorted_by(out@, key),
        decreases src@.len(),
    {
        let ghost before_src = src@;
        let x = src.pop().unwrap();
        let xk = src_keys.pop().unwrap();
        proof {
            assert(before_src == src@.push(x));
        }
        let mut j = out.len();
        while j > 0 && chars_lt(xk.as_slice(), out_keys[j - 1].as_slice())
            invariant
                j <= out@.len(),
                out_keys@.len() == out@.len(),
                forall|i: int| 0 <= i < out@.len() ==> #[trigger] out_keys@[i]@ == key(out@[i]),
                forall|i: int| j <= i < out@.len() ==> seq_lt(xk@, #[trigger] key(out@[i])),
            decreases j,
        {
            j = j - 1;
        }
        let ghost before = out@;
        proof {
            if j > 0 {
                lemma_seq_lt_total(xk@, key(out@[j - 1]));
            }
        }
        out.insert(j, x);
        out_keys.insert(j, xk);
        proof {
            assert(out@ == before.insert(j as int, x));
            assert forall|i: int| 0 <= i < out@.len() - 1 implies #[trigger] seq_le(
                key(out@[i]),
                key(out@[i + 1]),
            ) by {
                if i < j - 1 {
                    assert(out@[i] == before[i] && out@[i + 1] == before[i + 1]);
                    assert(seq_le(key(before[i]), key(before[i + 1])));
                } else if i == j - 1 {
                    assert(out@[i] == before[i] && out@[i + 1] == x);
                    assert(key(before[i]) == out_keys@[i]@);
                } else if i == j {
                    assert(out@[i] == x && out@[i + 1] == before[i]);
                    assert(seq_lt(xk@, key(before[i])));
                } else {
                    assert(out@[i] == before[i - 1] && out@[i + 1] == before[i]);
                    let k = i - 1;
                    assert(seq_le(key(before[k]), key(before[k + 1])));
                }
            }
            assert forall|i: int| 0 <= i < out@.len() implies #[trigger] out_keys@[i]@ == key(
                out@[i],
            ) by {
                if i < j {
                } else if i == j {
                } else {
                }
            }
        }
    }
    out
}

} // verus!
