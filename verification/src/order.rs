use vstd::prelude::*;

use crate::text::{lemma_lex_antisym, lemma_lex_total, lemma_lex_trans, lex_le, lex_le_chars};

verus! {

// A stable sort is a sort by (key, original position): the orders below
// break ties by position, so each ranking they define is unique.

/// Entry `i` is ranked before entry `j`: a larger first key, then a larger
/// second key, then the earlier position.
pub open spec fn ranks_before(keys: Seq<(u64, u128)>, i: int, j: int) -> bool {
    ||| keys[i].0 > keys[j].0
    ||| keys[i].0 == keys[j].0 && keys[i].1 > keys[j].1
    ||| keys[i].0 == keys[j].0 && keys[i].1 == keys[j].1 && i < j
}

/// `order` lists every position of `keys` once, best ranked first: the
/// result of a stable sort by descending keys.
pub open spec fn is_ranking(keys: Seq<(u64, u128)>, order: Seq<usize>) -> bool {
    &&& order.len() == keys.len()
    &&& forall|t: int| 0 <= t < order.len() ==> #[trigger] order[t] < keys.len()
    &&& forall|t: int, u: int|
        0 <= t < u < order.len() ==> ranks_before(keys, #[trigger] order[t] as int, #[trigger] order[u] as int)
}

/// The positions of `keys` in stable descending order of the keys.
pub fn rank_desc(keys: &Vec<(u64, u128)>) -> (order: Vec<usize>)
    ensures
        is_ranking(keys@, order@),
{
    let mut order: Vec<usize> = Vec::new();
    for i in 0..keys.len()
        invariant
            order.len() == i,
            forall|t: int| 0 <= t < order.len() ==> #[trigger] order@[t] < i,
            forall|t: int, u: int|
                0 <= t < u < order.len() ==> ranks_before(keys@, #[trigger] order@[t] as int, #[trigger] order@[u] as int),
    {
        let mut p: usize = 0;
        while p < order.len() && !(keys[i].0 > keys[order[p]].0
            || (keys[i].0 == keys[order[p]].0 && keys[i].1 > keys[order[p]].1))
            invariant
                p <= order.len(),
                order.len() == i,
                i < keys.len(),
                forall|t: int| 0 <= t < order.len() ==> #[trigger] order@[t] < i,
                forall|t: int| 0 <= t < p ==> ranks_before(keys@, #[trigger] order@[t] as int, i as int),
            decreases order.len() - p,
        {
            p = p + 1;
        }
        let ghost old_order = order@;
        order.insert(p, i);
        assert forall|t: int, u: int| 0 <= t < u < order.len() implies ranks_before(keys@, #[trigger] order@[t] as int, #[trigger] order@[u] as int) by {
            if u < p {
                assert(order@[t] == old_order[t] && order@[u] == old_order[u]);
            } else if u == p {
                assert(order@[t] == old_order[t]);
            } else if t < p {
                assert(order@[t] == old_order[t] && order@[u] == old_order[u - 1]);
                assert(ranks_before(keys@, old_order[t] as int, i as int));
                assert(ranks_before(keys@, i as int, old_order[p as int] as int));
                if u - 1 > p {
                    assert(ranks_before(keys@, old_order[p as int] as int, old_order[u - 1] as int));
                }
            } else if t == p {
                assert(order@[u] == old_order[u - 1]);
                assert(ranks_before(keys@, i as int, old_order[p as int] as int));
                if u - 1 > p {
                    assert(ranks_before(keys@, old_order[p as int] as int, old_order[u - 1] as int));
                }
            } else {
                assert(order@[t] == old_order[t - 1] && order@[u] == old_order[u - 1]);
            }
        }
        assert forall|t: int| 0 <= t < order.len() implies #[trigger] order@[t] < i + 1 by {
            if t < p {
                assert(order@[t] == old_order[t]);
            } else if t > p {
                assert(order@[t] == old_order[t - 1]);
            }
        }
    }
    order
}

/// Entry `i` comes before entry `j` when sorting by descending text:
/// a later text first, then the earlier position.
pub open spec fn text_ranks_before(keys: Seq<Seq<char>>, i: int, j: int) -> bool {
    ||| !lex_le(keys[i], keys[j])
    ||| keys[i] == keys[j] && i < j
}

/// `order` lists every position of `keys` once: the result of a stable
/// sort by descending text.
pub open spec fn is_text_ranking(keys: Seq<Seq<char>>, order: Seq<usize>) -> bool {
    &&& order.len() == keys.len()
    &&& forall|t: int| 0 <= t < order.len() ==> #[trigger] order[t] < keys.len()
    &&& forall|t: int, u: int|
        0 <= t < u < order.len() ==> text_ranks_before(keys, #[trigger] order[t] as int, #[trigger] order[u] as int)
}

proof fn lemma_text_ranks_trans(keys: Seq<Seq<char>>, a: int, b: int, c: int)
    requires
        text_ranks_before(keys, a, b),
        text_ranks_before(keys, b, c),
    ensures
        text_ranks_before(keys, a, c),
{
    lemma_lex_total(keys[a], keys[b]);
    lemma_lex_total(keys[b], keys[c]);
    lemma_lex_total(keys[a], keys[c]);
    if lex_le(keys[a], keys[c]) {
        // keys[c] <= keys[b] <= keys[a] <= keys[c]
        lemma_lex_trans(keys[c], keys[b], keys[a]);
        lemma_lex_antisym(keys[a], keys[c]);
        lemma_lex_antisym(keys[a], keys[b]);
    }
}

/// The positions of `keys` in stable descending text order.
pub fn rank_text_desc(keys: &Vec<Vec<char>>) -> (order: Vec<usize>)
    ensures
        is_text_ranking(keys@.map_values(|k: Vec<char>| k@), order@),
{
    let ghost kv = keys@.map_values(|k: Vec<char>| k@);
    let mut order: Vec<usize> = Vec::new();
    for i in 0..keys.len()
        invariant
            kv == keys@.map_values(|k: Vec<char>| k@),
            order.len() == i,
            forall|t: int| 0 <= t < order.len() ==> #[trigger] order@[t] < i,
            forall|t: int, u: int|
                0 <= t < u < order.len() ==> text_ranks_before(kv, #[trigger] order@[t] as int, #[trigger] order@[u] as int),
    {
        let mut p: usize = 0;
        while p < order.len() && lex_le_chars(&keys[i], &keys[order[p]])
            invariant
                kv == keys@.map_values(|k: Vec<char>| k@),
                p <= order.len(),
                order.len() == i,
                i < keys.len(),
                forall|t: int| 0 <= t < order.len() ==> #[trigger] order@[t] < i,
                forall|t: int| 0 <= t < p ==> text_ranks_before(kv, #[trigger] order@[t] as int, i as int),
            decreases order.len() - p,
        {
            proof {
                let o = order@[p as int] as int;
                assert(kv[i as int] == keys@[i as int]@);
                assert(kv[o] == keys@[o]@);
                lemma_lex_total(kv[o], kv[i as int]);
                if lex_le(kv[o], kv[i as int]) {
                    lemma_lex_antisym(kv[o], kv[i as int]);
                }
            }
            p = p + 1;
        }
        proof {
            if p < order.len() {
                let o = order@[p as int] as int;
                assert(kv[i as int] == keys@[i as int]@);
                assert(kv[o] == keys@[o]@);
                assert(text_ranks_before(kv, i as int, o));
            }
        }
        let ghost old_order = order@;
        order.insert(p, i);
        assert forall|t: int, u: int| 0 <= t < u < order.len() implies text_ranks_before(kv, #[trigger] order@[t] as int, #[trigger] order@[u] as int) by {
            if u < p {
                assert(order@[t] == old_order[t] && order@[u] == old_order[u]);
            } else if u == p {
                assert(order@[t] == old_order[t]);
            } else if t < p {
                assert(order@[t] == old_order[t] && order@[u] == old_order[u - 1]);
                if u - 1 > p {
                    lemma_text_ranks_trans(kv, i as int, old_order[p as int] as int, old_order[u - 1] as int);
                }
                lemma_text_ranks_trans(kv, old_order[t] as int, i as int, old_order[u - 1] as int);
            } else if t == p {
                assert(order@[u] == old_order[u - 1]);
                if u - 1 > p {
                    lemma_text_ranks_trans(kv, i as int, old_order[p as int] as int, old_order[u - 1] as int);
                }
            } else {
                assert(order@[t] == old_order[t - 1] && order@[u] == old_order[u - 1]);
            }
        }
        assert forall|t: int| 0 <= t < order.len() implies #[trigger] order@[t] < i + 1 by {
            if t < p {
                assert(order@[t] == old_order[t]);
            } else if t > p {
                assert(order@[t] == old_order[t - 1]);
            }
        }
    }
    order
}

} // verus!
