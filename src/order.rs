//! Stable ordering of positions by text keys.
use crate::text::{lemma_text_le_total, lemma_text_le_transitive, text_le, text_le_exec};
use vstd::prelude::*;

verus! {

/// The views of a sequence of texts.
pub open spec fn text_views(s: Seq<String>) -> Seq<Seq<char>> {
    s.map_values(|x: String| x@)
}

/// Where a position with key `k` goes in the already ordered `s`: after every position whose
/// key sorts before or equal to `k`, counted from the end.
pub open spec fn insert_pos(keys: Seq<Seq<char>>, s: Seq<usize>, k: Seq<char>) -> nat
    decreases s.len(),
{
    if s.len() == 0 {
        0
    } else if text_le(keys[s.last() as int], k) {
        s.len()
    } else {
        insert_pos(keys, s.drop_last(), k)
    }
}

/// The positions `idx` ordered by their keys; positions with equal keys keep their order.
pub open spec fn sorted_order(keys: Seq<Seq<char>>, idx: Seq<usize>) -> Seq<usize>
    decreases idx.len(),
{
    if idx.len() == 0 {
        Seq::empty()
    } else {
        let s = sorted_order(keys, idx.drop_last());
        s.insert(insert_pos(keys, s, keys[idx.last() as int]) as int, idx.last())
    }
}

/// The positions `idx` ordered by the texts `keys` at them, stably.
pub fn sort_positions(keys: &Vec<String>, idx: &Vec<usize>) -> (r: Vec<usize>)
    requires
        forall|j: int| 0 <= j < idx@.len() ==> idx@[j] < keys@.len(),
    ensures
        r@ == sorted_order(text_views(keys@), idx@),
        forall|j: int| 0 <= j < r@.len() ==> r@[j] < keys@.len(),
{
    let ghost kv = text_views(keys@);
    let mut out: Vec<usize> = Vec::new();
    let mut n: usize = 0;
    assert(idx@.take(0) =~= Seq::<usize>::empty());
    while n < idx.len()
        invariant
            n <= idx@.len(),
            kv == text_views(keys@),
            forall|j: int| 0 <= j < idx@.len() ==> idx@[j] < keys@.len(),
            out@ == sorted_order(kv, idx@.take(n as int)),
            forall|j: int| 0 <= j < out@.len() ==> out@[j] < keys@.len(),
        decreases idx@.len() - n,
    {
        let i = idx[n];
        let mut j: usize = out.len();
        assert(out@.take(j as int) =~= out@);
        while j > 0 && !text_le_exec(keys[out[j - 1]].as_str(), keys[i].as_str())
            invariant
                j <= out@.len(),
                i < keys@.len(),
                kv == text_views(keys@),
                forall|m: int| 0 <= m < out@.len() ==> out@[m] < keys@.len(),
                insert_pos(kv, out@, kv[i as int]) == insert_pos(kv, out@.take(j as int), kv[i as int]),
            decreases j,
        {
            assert(out@.take(j as int).drop_last() =~= out@.take(j - 1));
            j = j - 1;
        }
        proof {
            if j > 0 {
                assert(out@.take(j as int).last() == out@[j - 1]);
            } else {
                assert(out@.take(0) =~= Seq::<usize>::empty());
            }
        }
        out.insert(j, i);
        assert(idx@.take(n + 1).drop_last() =~= idx@.take(n as int));
        n = n + 1;
    }
    assert(idx@.take(n as int) =~= idx@);
    out
}

} // verus!

verus! {

/// The positions `s` are in order of their keys.
pub open spec fn ordered_by(keys: Seq<Seq<char>>, s: Seq<usize>) -> bool {
    forall|i: int, j: int|
        0 <= i < j < s.len() ==> text_le(#[trigger] keys[s[i] as int], #[trigger] keys[s[j] as int])
}

proof fn lemma_insert_pos_facts(keys: Seq<Seq<char>>, s: Seq<usize>, k: Seq<char>)
    ensures
        insert_pos(keys, s, k) <= s.len(),
        forall|i: int|
            insert_pos(keys, s, k) <= i < s.len() ==> !text_le(#[trigger] keys[s[i] as int], k),
        insert_pos(keys, s, k) > 0 ==> text_le(keys[s[insert_pos(keys, s, k) - 1] as int], k),
    decreases s.len(),
{
    if s.len() > 0 && !text_le(keys[s.last() as int], k) {
        let init = s.drop_last();
        lemma_insert_pos_facts(keys, init, k);
        assert forall|i: int|
            insert_pos(keys, s, k) <= i < s.len() implies !text_le(#[trigger] keys[s[i] as int], k) by {
            if i < s.len() - 1 {
                assert(init[i] == s[i]);
            }
        }
        if insert_pos(keys, s, k) > 0 {
            assert(init[insert_pos(keys, s, k) - 1] == s[insert_pos(keys, s, k) - 1]);
        }
    }
}

/// The stable order is an order: each position's key sorts before or equal to the next ones'.
pub proof fn lemma_sorted_order_ordered(keys: Seq<Seq<char>>, idx: Seq<usize>)
    ensures
        ordered_by(keys, sorted_order(keys, idx)),
        sorted_order(keys, idx).len() == idx.len(),
    decreases idx.len(),
{
    if idx.len() > 0 {
        let s = sorted_order(keys, idx.drop_last());
        lemma_sorted_order_ordered(keys, idx.drop_last());
        let x = idx.last();
        let k = keys[x as int];
        let p = insert_pos(keys, s, k);
        lemma_insert_pos_facts(keys, s, k);
        s.insert_ensures(p as int, x);
        let t = s.insert(p as int, x);
        assert forall|i: int, j: int| 0 <= i < j < t.len() implies text_le(
            #[trigger] keys[t[i] as int],
            #[trigger] keys[t[j] as int],
        ) by {
            if j < p {
                assert(t[i] == s[i] && t[j] == s[j]);
            } else if j == p {
                assert(t[i] == s[i]);
                assert(text_le(keys[s[p - 1] as int], k));
                if i < p - 1 {
                    lemma_text_le_transitive(keys[s[i] as int], keys[s[p - 1] as int], k);
                }
            } else if i == p {
                assert(t[j] == s[j - 1]);
                assert(!text_le(keys[s[j - 1] as int], k));
                lemma_text_le_total(k, keys[s[j - 1] as int]);
            } else if i < p {
                assert(t[i] == s[i] && t[j] == s[j - 1]);
            } else {
                assert(t[i] == s[i - 1] && t[j] == s[j - 1]);
            }
        }
    }
}

} // verus!

verus! {

/// The stable order holds the same positions it was given.
pub proof fn lemma_sorted_members(keys: Seq<Seq<char>>, idx: Seq<usize>, x: usize)
    ensures
        sorted_order(keys, idx).contains(x) <==> idx.contains(x),
        sorted_order(keys, idx).len() == idx.len(),
    decreases idx.len(),
{
    if idx.len() > 0 {
        let init = idx.drop_last();
        lemma_sorted_members(keys, init, x);
        let s = sorted_order(keys, init);
        let p = insert_pos(keys, s, keys[idx.last() as int]);
        lemma_insert_pos_facts(keys, s, keys[idx.last() as int]);
        s.insert_ensures(p as int, idx.last());
        let t = s.insert(p as int, idx.last());
        if t.contains(x) {
            let i = choose|i: int| 0 <= i < t.len() && t[i] == x;
            if i < p {
                assert(s[i] == x);
                assert(s.contains(x));
                let j = choose|j: int| 0 <= j < init.len() && init[j] == x;
                assert(idx[j] == x);
            } else if i == p {
                assert(idx[idx.len() - 1] == x);
            } else {
                assert(t[(i - 1) + 1] == s[i - 1]);
                assert(s.contains(x));
                let j = choose|j: int| 0 <= j < init.len() && init[j] == x;
                assert(idx[j] == x);
            }
        }
        if idx.contains(x) {
            let j = choose|j: int| 0 <= j < idx.len() && idx[j] == x;
            if j < idx.len() - 1 {
                assert(init[j] == x);
                assert(s.contains(x));
                let i = choose|i: int| 0 <= i < s.len() && s[i] == x;
                if i < p {
                    assert(t[i] == x);
                } else {
                    assert(t[i + 1] == x);
                }
            } else {
                assert(t[p as int] == x);
            }
        }
    }
}

} // verus!
