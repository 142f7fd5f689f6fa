use vstd::prelude::*;
use vstd::seq_lib::*;

verus! {

/// The order of optional positions: an absent position comes before every
/// present one, present ones compare as numbers.
pub open spec fn key_le(a: Option<u32>, b: Option<u32>) -> bool {
    match (a, b) {
        (None, _) => true,
        (Some(_), None) => false,
        (Some(x), Some(y)) => x <= y,
    }
}

pub fn key_le_exec(a: Option<u32>, b: Option<u32>) -> (r: bool)
    ensures
        r == key_le(a, b),
{
    match (a, b) {
        (None, _) => true,
        (Some(_), None) => false,
        (Some(x), Some(y)) => x <= y,
    }
}

/// Where an item with key `k` goes among the first `n` items of `t`: after
/// the last of them whose key is not above `k`.
pub open spec fn ins_pos<T>(t: Seq<(Option<u32>, T)>, k: Option<u32>, n: nat) -> nat
    decreases n,
{
    if n == 0 || n > t.len() {
        0
    } else if key_le(t[n - 1].0, k) {
        n
    } else {
        ins_pos(t, k, (n - 1) as nat)
    }
}

pub open spec fn insert_sorted<T>(t: Seq<(Option<u32>, T)>, x: (Option<u32>, T)) -> Seq<(Option<u32>, T)> {
    t.insert(ins_pos(t, x.0, t.len()) as int, x)
}

/// The items of `s` ordered by key, items with equal keys keeping their
/// order in `s`.
pub open spec fn stable_sort<T>(s: Seq<(Option<u32>, T)>) -> Seq<(Option<u32>, T)>
    decreases s.len(),
{
    if s.len() == 0 {
        Seq::empty()
    } else {
        insert_sorted(stable_sort(s.drop_last()), s.last())
    }
}

pub open spec fn sorted_by_key<T>(t: Seq<(Option<u32>, T)>) -> bool {
    forall|i: int, j: int| 0 <= i < j < t.len() ==> key_le(#[trigger] t[i].0, #[trigger] t[j].0)
}

pub open spec fn has_no_key<T>(p: (Option<u32>, T)) -> bool {
    p.0 is None
}

/// Puts `x` into `out` after the last item whose key is not above its own.
pub fn insert_by_key<T>(out: &mut Vec<(Option<u32>, T)>, x: (Option<u32>, T))
    ensures
        final(out)@ == insert_sorted(old(out)@, x),
{
    let ghost t = out@;
    let mut p: usize = out.len();
    while p > 0
        invariant
            t == out@,
            p <= out.len(),
            ins_pos(t, x.0, t.len()) == ins_pos(t, x.0, p as nat),
        ensures
            p <= out.len(),
            t == out@,
            ins_pos(t, x.0, t.len()) == p,
        decreases p,
    {
        if key_le_exec(out[p - 1].0, x.0) {
            break;
        }
        p = p - 1;
    }
    out.insert(p, x);
}

proof fn lemma_ins_pos<T>(t: Seq<(Option<u32>, T)>, k: Option<u32>, n: nat)
    requires
        n <= t.len(),
    ensures
        ins_pos(t, k, n) <= n,
        forall|j: int| ins_pos(t, k, n) <= j < n ==> !key_le(#[trigger] t[j].0, k),
        ins_pos(t, k, n) > 0 ==> key_le(t[ins_pos(t, k, n) - 1].0, k),
    decreases n,
{
    if n > 0 {
        lemma_ins_pos(t, k, (n - 1) as nat);
    }
}

proof fn lemma_ins_pos_sorted<T>(t: Seq<(Option<u32>, T)>, k: Option<u32>)
    requires
        sorted_by_key(t),
    ensures
        ins_pos(t, k, t.len()) <= t.len(),
        forall|j: int| 0 <= j < ins_pos(t, k, t.len()) ==> key_le(#[trigger] t[j].0, k),
        forall|j: int| ins_pos(t, k, t.len()) <= j < t.len() ==> !key_le(#[trigger] t[j].0, k),
{
    let p = ins_pos(t, k, t.len());
    lemma_ins_pos(t, k, t.len());
    assert forall|j: int| 0 <= j < p implies key_le(#[trigger] t[j].0, k) by {
        if j < p - 1 {
            assert(key_le(t[j].0, t[p - 1].0));
        }
    }
}

proof fn lemma_insert_sorted<T>(t: Seq<(Option<u32>, T)>, x: (Option<u32>, T))
    requires
        sorted_by_key(t),
    ensures
        sorted_by_key(insert_sorted(t, x)),
        insert_sorted(t, x).to_multiset() == t.to_multiset().insert(x),
        insert_sorted(t, x).len() == t.len() + 1,
{
    let p = ins_pos(t, x.0, t.len()) as int;
    lemma_ins_pos_sorted(t, x.0);
    let r = insert_sorted(t, x);
    assert forall|i: int, j: int| 0 <= i < j < r.len() implies key_le(#[trigger] r[i].0, #[trigger] r[j].0) by {
        if i < p && j == p {
        } else if i == p && j > p {
            assert(!key_le(t[j - 1].0, x.0));
        } else if i < p && j > p {
            assert(key_le(t[i].0, t[j - 1].0));
        } else if i > p {
            assert(key_le(t[i - 1].0, t[j - 1].0));
        } else {
            assert(key_le(t[i].0, t[j].0));
        }
    }
    to_multiset_insert(t, p, x);
}

/// Ordering by key yields a rearrangement of the items in which keys never
/// decrease.
pub proof fn lemma_stable_sort<T>(s: Seq<(Option<u32>, T)>)
    ensures
        sorted_by_key(stable_sort(s)),
        stable_sort(s).to_multiset() == s.to_multiset(),
        stable_sort(s).len() == s.len(),
    decreases s.len(),
{
    broadcast use group_to_multiset_ensures;

    if s.len() > 0 {
        lemma_stable_sort(s.drop_last());
        lemma_insert_sorted(stable_sort(s.drop_last()), s.last());
        assert(s =~= s.drop_last().push(s.last()));
    }
}

/// Where all keys are present and no two are equal, ordering by key yields a
/// rearrangement of the items whose keys strictly ascend.
pub proof fn lemma_distinct_positions_ascend<T>(s: Seq<(Option<u32>, T)>)
    requires
        forall|i: int| 0 <= i < s.len() ==> (#[trigger] s[i]).0 is Some,
        forall|i: int, j: int| 0 <= i < j < s.len() ==> (#[trigger] s[i]).0 != (#[trigger] s[j]).0,
    ensures
        stable_sort(s).to_multiset() == s.to_multiset(),
        forall|i: int, j: int|
            0 <= i < j < stable_sort(s).len() ==> (#[trigger] stable_sort(s)[i]).0 is Some
                && stable_sort(s)[j].0 is Some && stable_sort(s)[i].0->0 < (
            #[trigger] stable_sort(s)[j]).0->0,
    decreases s.len(),
{
    broadcast use group_to_multiset_ensures;

    lemma_stable_sort(s);
    if s.len() > 0 {
        let d = s.drop_last();
        let x = s.last();
        let t = stable_sort(d);
        lemma_distinct_positions_ascend(d);
        lemma_stable_sort(d);
        lemma_ins_pos_sorted(t, x.0);
        let p = ins_pos(t, x.0, t.len()) as int;
        let r = stable_sort(s);
        assert forall|j: int| 0 <= j < t.len() implies (#[trigger] t[j]).0 != x.0 && t[j].0 is Some by {
            assert(t.contains(t[j]));
            assert(t.to_multiset().count(t[j]) > 0);
            assert(d.contains(t[j]));
            let m = choose|m: int| 0 <= m < d.len() && d[m] == t[j];
            assert(s[m] == d[m]);
            assert(s[s.len() - 1] == x);
        }
        assert forall|i: int, j: int| 0 <= i < j < r.len() implies (#[trigger] r[i]).0 is Some
            && r[j].0 is Some && r[i].0->0 < (#[trigger] r[j]).0->0 by {
            assert(s[s.len() - 1] == x);
            if i < p && j == p {
                assert(key_le(t[i].0, x.0));
            } else if i == p && j > p {
                assert(!key_le(t[j - 1].0, x.0));
            } else if i < p && j > p {
                assert(key_le(t[i].0, x.0));
                assert(!key_le(t[j - 1].0, x.0));
            } else if i > p {
            } else {
            }
        }
    }
}

proof fn lemma_all_keyed_filter_empty<T>(t: Seq<(Option<u32>, T)>)
    requires
        forall|j: int| 0 <= j < t.len() ==> (#[trigger] t[j]).0 is Some,
    ensures
        t.filter(|p: (Option<u32>, T)| has_no_key(p)) == Seq::<(Option<u32>, T)>::empty(),
{
    t.lemma_all_neg_filter_empty(|p: (Option<u32>, T)| has_no_key(p));
    assert(t.filter(|p: (Option<u32>, T)| has_no_key(p)) =~= Seq::<(Option<u32>, T)>::empty());
}

/// Ordering by key keeps the items without a key in the order they had.
pub proof fn lemma_absent_positions_keep_order<T>(s: Seq<(Option<u32>, T)>)
    ensures
        stable_sort(s).filter(|p: (Option<u32>, T)| has_no_key(p)) == s.filter(
            |p: (Option<u32>, T)| has_no_key(p),
        ),
    decreases s.len(),
{
    let f = |p: (Option<u32>, T)| has_no_key(p);
    if s.len() > 0 {
        let d = s.drop_last();
        let x = s.last();
        let t = stable_sort(d);
        lemma_absent_positions_keep_order(d);
        lemma_stable_sort(d);
        lemma_ins_pos_sorted(t, x.0);
        let p = ins_pos(t, x.0, t.len()) as int;
        let a = t.take(p);
        let b = t.skip(p);
        assert(t =~= a + b);
        assert(stable_sort(s) =~= a + seq![x] + b);
        Seq::filter_distributes_over_add(a, b, f);
        Seq::filter_distributes_over_add(a + seq![x], b, f);
        Seq::filter_distributes_over_add(a, seq![x], f);
        assert(seq![x].filter(f) =~= if has_no_key(x) { seq![x] } else { Seq::empty() }) by {
            reveal_with_fuel(Seq::filter, 2);
        }
        assert(s.filter(f) == if has_no_key(x) { d.filter(f).push(x) } else { d.filter(f) }) by {
            reveal_with_fuel(Seq::filter, 1);
            assert(s.drop_last() == d);
        }
        if has_no_key(x) {
            assert forall|j: int| 0 <= j < b.len() implies (#[trigger] b[j]).0 is Some by {
                assert(!key_le(t[p + j].0, x.0));
            }
            lemma_all_keyed_filter_empty(b);
            assert(stable_sort(s).filter(f) =~= d.filter(f).push(x));
        } else {
            assert(stable_sort(s).filter(f) =~= a.filter(f) + b.filter(f));
        }
    }
}

} // verus!
