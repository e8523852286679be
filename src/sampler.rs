//! The token sampler's decisions: top-k ranking, the nucleus cut-off and the
//! inverse-CDF pick.
//!
//! Probabilities are `f32` values held as bit patterns (see `floatbits`). The
//! arithmetic on them (running sums, temperature reweighting, normalisation
//! and the uniform draw) is done by the caller; every decision on the results
//! is made here.
use vstd::prelude::*;
use itertools::Itertools;
use crate::floatbits::{order_key, lemma_order_key_injective, gt, le, total_order_key, bits_gt, bits_le};

verus! {

/// Index `a` is ranked before index `b` among the probabilities `p`: a larger
/// value in the total order, or an equal one at a lower index.
pub open spec fn ranks_before(p: Seq<u32>, a: int, b: int) -> bool {
    order_key(p[a]) > order_key(p[b]) || (order_key(p[a]) == order_key(p[b]) && a < b)
}

/// How many entries top-k truncation keeps of `n`: `max(top_k, 1)`, at most `n`.
pub open spec fn retained_len(n: nat, top_k: nat) -> nat {
    let k = if top_k == 0 { 1 } else { top_k };
    if k < n { k } else { n }
}

/// Index `k` is among the ranked indices `r`.
pub open spec fn ranked_in(r: Seq<usize>, k: int) -> bool {
    exists|j: int| 0 <= j < r.len() && r[j] as int == k
}

/// `r` lists the `retained_len` best-ranked indices of `p`, best first.
pub open spec fn is_ranking(p: Seq<u32>, top_k: nat, r: Seq<usize>) -> bool {
    &&& r.len() == retained_len(p.len(), top_k)
    &&& forall|i: int| 0 <= i < r.len() ==> (r[i] as int) < p.len()
    &&& forall|i: int, j: int|
        0 <= i < j < r.len() ==> ranks_before(p, r[i] as int, r[j] as int)
    &&& forall|k: int, i: int|
        0 <= k < p.len() && !ranked_in(r, k) && 0 <= i < r.len() ==> ranks_before(p, r[i] as int, k)
}

/// Sort key of a probability: ascending in it means descending in the value.
pub open spec fn descending_key(b: u32) -> u32 {
    (0xFFFF_FFFF - order_key(b)) as u32
}

/// Ascending in the sort key is descending in the total order.
proof fn lemma_descending_key(a: u32, b: u32)
    ensures
        descending_key(a) < descending_key(b) <==> order_key(a) > order_key(b),
        descending_key(a) == descending_key(b) <==> order_key(a) == order_key(b),
{
    lemma_order_key_injective(a, b);
}

/// Tuples compare field by field.
pub open spec fn pair_lt(a: (u32, usize), b: (u32, usize)) -> bool {
    a.0 < b.0 || (a.0 == b.0 && a.1 < b.1)
}

/// Relies on `itertools::Itertools::sorted_unstable`: the items come out as a
/// permutation of the input in ascending order of `Ord` on tuples, which
/// compares field by field; items that are pairwise distinct therefore come
/// out strictly ascending.
#[verifier::external_body]
fn sort_ascending(v: Vec<(u32, usize)>) -> (r: Vec<(u32, usize)>)
    requires
        v@.no_duplicates(),
    ensures
        r@.to_multiset() == v@.to_multiset(),
        forall|i: int, j: int| 0 <= i < j < r@.len() ==> pair_lt(r@[i], r@[j]),
{
    v.into_iter().sorted_unstable().collect()
}

/// Every entry of the sorted sequence `s` is the keyed entry of its own index.
proof fn lemma_sorted_entry(p: Seq<u32>, v: Seq<(u32, usize)>, s: Seq<(u32, usize)>, t: int)
    requires
        v.len() == p.len(),
        forall|j: int|
            0 <= j < v.len() ==> (#[trigger] v[j]).0 == descending_key(p[j]) && v[j].1 as int == j,
        s.to_multiset() == v.to_multiset(),
        0 <= t < s.len(),
    ensures
        (s[t].1 as int) < p.len(),
        s[t].0 == descending_key(p[s[t].1 as int]),
{
    s.to_multiset_ensures();
    v.to_multiset_ensures();
    assert(s.contains(s[t]));
    assert(s.to_multiset().count(s[t]) > 0);
    assert(v.to_multiset().count(s[t]) > 0);
    assert(v.contains(s[t]));
    let j = choose|j: int| 0 <= j < v.len() && v[j] == s[t];
    assert(v[j] == s[t]);
}

/// Every keyed entry appears in the sorted sequence `s`.
proof fn lemma_keyed_entry(v: Seq<(u32, usize)>, s: Seq<(u32, usize)>, k: int) -> (t: int)
    requires
        s.to_multiset() == v.to_multiset(),
        0 <= k < v.len(),
    ensures
        0 <= t < s.len(),
        s[t] == v[k],
{
    s.to_multiset_ensures();
    v.to_multiset_ensures();
    assert(v.contains(v[k]));
    assert(v.to_multiset().count(v[k]) > 0);
    assert(s.to_multiset().count(v[k]) > 0);
    assert(s.contains(v[k]));
    choose|t: int| 0 <= t < s.len() && s[t] == v[k]
}

/// Ranks the probabilities `probs` (bit patterns) from highest to lowest in
/// the total order of `f32`, equal values by ascending index, and keeps the
/// first `max(top_k, 1)` indices.
pub fn rank(probs: &Vec<u32>, top_k: usize) -> (r: Vec<usize>)
    ensures
        is_ranking(probs@, top_k as nat, r@),
{
    let n = probs.len();
    let mut keyed: Vec<(u32, usize)> = Vec::new();
    let mut i: usize = 0;
    while i < n
        invariant
            n == probs@.len(),
            i <= n,
            keyed@.len() == i,
            forall|j: int|
                0 <= j < i ==> (#[trigger] keyed@[j]).0 == descending_key(probs@[j]) && keyed@[j].1
                    as int == j,
        decreases n - i,
    {
        let key = total_order_key(probs[i]);
        keyed.push((0xFFFF_FFFFu32 - key, i));
        i += 1;
    }
    let ghost v = keyed@;
    assert(v.no_duplicates()) by {
        assert forall|a: int, b: int| 0 <= a < v.len() && 0 <= b < v.len() && a != b implies v[a]
            != v[b] by {
            assert(v[a].1 == a as usize);
            assert(v[b].1 == b as usize);
        }
    }
    let sorted = sort_ascending(keyed);
    let ghost s = sorted@;
    proof {
        s.to_multiset_ensures();
        v.to_multiset_ensures();
    }
    let k = if top_k == 0 { 1 } else { top_k };
    let m = if k < n { k } else { n };
    let mut r: Vec<usize> = Vec::new();
    let mut j: usize = 0;
    while j < m
        invariant
            m <= n,
            s.len() == n,
            sorted@ == s,
            j <= m,
            r@.len() == j,
            forall|t: int| 0 <= t < j ==> r@[t] == #[trigger] s[t].1,
        decreases m - j,
    {
        r.push(sorted[j].1);
        j += 1;
    }
    proof {
        let p = probs@;
        assert forall|t: int| 0 <= t < s.len() implies (#[trigger] s[t].1 as int) < p.len() && s[t].0
            == descending_key(p[s[t].1 as int]) by {
            lemma_sorted_entry(p, v, s, t);
        }
        assert forall|a: int| 0 <= a < r@.len() implies (r@[a] as int) < p.len() by {
            assert(r@[a] == s[a].1);
        }
        assert forall|a: int, b: int| 0 <= a < b < r@.len() implies ranks_before(
            p,
            r@[a] as int,
            r@[b] as int,
        ) by {
            assert(pair_lt(s[a], s[b]));
            assert(s[a].1 == r@[a]);
            assert(s[b].1 == r@[b]);
            lemma_descending_key(p[r@[a] as int], p[r@[b] as int]);
        }
        assert forall|kk: int, a: int|
            0 <= kk < p.len() && !ranked_in(r@, kk) && 0 <= a < r@.len() implies ranks_before(
            p,
            r@[a] as int,
            kk,
        ) by {
            let t = lemma_keyed_entry(v, s, kk);
            assert(s[t].1 as int == kk);
            if t < m {
                assert(r@[t] as int == kk);
            }
            assert(pair_lt(s[a], s[t]));
            assert(s[a].1 == r@[a]);
            lemma_descending_key(p[r@[a] as int], p[kk]);
        }
    }
    r
}

/// Nucleus filtering, scanning from entry `i` of the ranked entries whose
/// running sums are `cum` (`cum[j]` is the sum of entries `0..=j`): entry
/// `i > 0` is dropped, with every entry after it, once the sum of the entries
/// before it exceeds `top_p`. The result is the number of entries kept.
pub open spec fn kept_from(cum: Seq<u32>, top_p: u32, i: nat) -> nat
    decreases cum.len() - i,
{
    if i >= cum.len() {
        cum.len()
    } else if i > 0 && gt(cum[i - 1], top_p) {
        i
    } else {
        kept_from(cum, top_p, i + 1)
    }
}

/// The number of ranked entries that nucleus filtering keeps.
pub open spec fn nucleus_count(cum: Seq<u32>, top_p: u32) -> nat {
    kept_from(cum, top_p, 0)
}

/// The first entry, from `i` on, whose running sum reaches the draw; the
/// first entry of all when none does.
pub open spec fn first_reaching(cum: Seq<u32>, draw: u32, i: nat) -> nat
    decreases cum.len() - i,
{
    if i >= cum.len() {
        0
    } else if le(draw, cum[i as int]) {
        i
    } else {
        first_reaching(cum, draw, i + 1)
    }
}

/// The entry that a draw selects from a cumulative distribution.
pub open spec fn pick(cum: Seq<u32>, draw: u32) -> nat {
    first_reaching(cum, draw, 0)
}

/// The token id of the `idx`-th ranked entry; 0 when there is none.
pub open spec fn token_at(ranked: Seq<usize>, idx: nat) -> u16 {
    if idx < ranked.len() {
        ranked[idx as int] as u16
    } else {
        0
    }
}

proof fn lemma_kept_from_bounds(cum: Seq<u32>, top_p: u32, i: nat)
    requires
        1 <= i <= cum.len(),
    ensures
        i <= kept_from(cum, top_p, i) <= cum.len(),
    decreases cum.len() - i,
{
    if i < cum.len() && !gt(cum[i - 1], top_p) {
        lemma_kept_from_bounds(cum, top_p, i + 1);
    }
}

/// Nucleus filtering never empties a non-empty ranking: the best entry is
/// always kept, whatever the threshold (zero included).
pub proof fn lemma_nucleus_keeps_best(cum: Seq<u32>, top_p: u32)
    requires
        cum.len() > 0,
    ensures
        1 <= nucleus_count(cum, top_p) <= cum.len(),
{
    lemma_kept_from_bounds(cum, top_p, 1);
}

proof fn lemma_first_reaching_bound(cum: Seq<u32>, draw: u32, i: nat)
    ensures
        cum.len() == 0 || first_reaching(cum, draw, i) < cum.len(),
    decreases cum.len() - i,
{
    if i < cum.len() && !le(draw, cum[i as int]) {
        lemma_first_reaching_bound(cum, draw, i + 1);
    }
}

/// A draw always selects an entry of a non-empty distribution.
pub proof fn lemma_pick_in_range(cum: Seq<u32>, draw: u32)
    requires
        cum.len() > 0,
    ensures
        pick(cum, draw) < cum.len(),
{
    lemma_first_reaching_bound(cum, draw, 0);
}

/// With `top_k` of one, the sampler returns the index of the highest
/// probability (the lowest such index on a tie), whatever the nucleus
/// threshold, the running sums handed back and the draw.
pub proof fn lemma_top_one_is_argmax(
    p: Seq<u32>,
    ranked: Seq<usize>,
    sums: Seq<u32>,
    top_p: u32,
    cum: Seq<u32>,
    draw: u32,
)
    requires
        p.len() > 0,
        is_ranking(p, 1, ranked),
        sums.len() == ranked.len(),
        cum.len() == nucleus_count(sums, top_p),
    ensures
        ranked.len() == 1,
        forall|k: int| 0 <= k < p.len() && k != ranked[0] ==> ranks_before(p, ranked[0] as int, k),
        token_at(ranked, pick(cum, draw)) == ranked[0] as u16,
{
    lemma_nucleus_keeps_best(sums, top_p);
    lemma_pick_in_range(cum, draw);
    assert forall|k: int| 0 <= k < p.len() && k != ranked[0] implies ranks_before(
        p,
        ranked[0] as int,
        k,
    ) by {
        assert(!ranked_in(ranked, k));
    }
}

/// Whatever the probabilities (all zero included), the threshold and the
/// draw, the sampled token is an index of the probability vector, provided
/// the cumulative distribution covers at most the ranked entries and the
/// vocabulary fits in 16 bits.
pub proof fn lemma_sampled_token_in_range(
    p: Seq<u32>,
    top_k: nat,
    ranked: Seq<usize>,
    cum: Seq<u32>,
    draw: u32,
)
    requires
        0 < p.len() <= 0x1_0000,
        is_ranking(p, top_k, ranked),
        cum.len() <= ranked.len(),
    ensures
        (token_at(ranked, pick(cum, draw)) as int) < p.len(),
{
    lemma_first_reaching_bound(cum, draw, 0);
    let idx = pick(cum, draw);
    assert(idx < ranked.len());
    assert((ranked[idx as int] as int) < p.len());
}

/// The number of ranked entries kept by nucleus filtering, given their running
/// sums `cum` and the threshold `top_p`, all as bit patterns.
pub fn nucleus_len(cum: &Vec<u32>, top_p: u32) -> (r: usize)
    ensures
        r == nucleus_count(cum@, top_p),
{
    let mut i: usize = 0;
    while i < cum.len()
        invariant
            i <= cum@.len(),
            kept_from(cum@, top_p, 0) == kept_from(cum@, top_p, i as nat),
        decreases cum@.len() - i,
    {
        if i > 0 && bits_gt(cum[i - 1], top_p) {
            return i;
        }
        i += 1;
    }
    i
}

/// The position that the uniform draw `draw` selects in the cumulative
/// distribution `cum`: the first whose value is at least the draw, else 0.
pub fn select(cum: &Vec<u32>, draw: u32) -> (r: usize)
    ensures
        r == pick(cum@, draw),
{
    let mut i: usize = 0;
    while i < cum.len()
        invariant
            i <= cum@.len(),
            first_reaching(cum@, draw, 0) == first_reaching(cum@, draw, i as nat),
        decreases cum@.len() - i,
    {
        if bits_le(draw, cum[i]) {
            return i;
        }
        i += 1;
    }
    0
}

/// The token that the draw `draw` selects: the ranked index at the position
/// that `select` gives in the cumulative distribution `cum`, as a 16-bit id.
pub fn pick_token(ranked: &Vec<usize>, cum: &Vec<u32>, draw: u32) -> (r: u16)
    ensures
        r == token_at(ranked@, pick(cum@, draw)),
{
    let idx = select(cum, draw);
    if idx < ranked.len() {
        ranked[idx] as u16
    } else {
        0
    }
}

} // verus!
