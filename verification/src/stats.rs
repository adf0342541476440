//! The percentile engine: a cumulative sorted latency sequence and
//! rank-interpolated percentile queries over it.
//!
//! Latencies are whole numbers of microseconds. Percentile ranks are given
//! in tenths of a percent (0 ..= 1000, so 999 means P99.9), and the
//! interpolated value between two neighbouring latencies is computed to the
//! floor in the same fixed-point style, so every query has one exact answer.

use vstd::prelude::*;
use vstd::arithmetic::div_mod::{
    lemma_div_by_multiple, lemma_div_is_ordered, lemma_div_pos_is_pos, lemma_fundamental_div_mod,
    lemma_mod_division_less_than_divisor,
};
use vstd::arithmetic::mul::{lemma_mul_inequality, lemma_mul_is_commutative, lemma_mul_nonnegative};
use vstd::multiset::Multiset;
use vstd::relations::{sorted_by, total_ordering};
use vstd::seq_lib::{lemma_multiset_commutative, lemma_sorted_unique};

verus! {

/// Rank of the topmost percentile query, in tenths of a percent.
pub const PCT_SCALE: u32 = 1000;

/// The ascending order in which latencies are kept.
pub open spec fn latency_leq() -> spec_fn(u64, u64) -> bool {
    |x: u64, y: u64| x <= y
}

/// The sequence is sorted ascending.
pub open spec fn sorted(s: Seq<u64>) -> bool {
    forall|i: int, j: int| 0 <= i <= j < s.len() ==> s[i] <= s[j]
}

/// The ascending reordering of a sequence.
pub open spec fn sort_of(s: Seq<u64>) -> Seq<u64> {
    s.sort_by(latency_leq())
}

proof fn lemma_latency_leq_total()
    ensures
        total_ordering(latency_leq()),
{
    let leq = latency_leq();
    assert forall|x: u64| #[trigger] leq(x, x) by {}
    assert forall|x: u64, y: u64| #[trigger] leq(x, y) && #[trigger] leq(y, x) implies x == y by {}
    assert forall|x: u64, y: u64| #[trigger] leq(x, y) || #[trigger] leq(y, x) by {}
    assert forall|x: u64, y: u64, z: u64|
        #[trigger] leq(x, y) && #[trigger] leq(y, z) implies leq(x, z) by {}
}

proof fn lemma_sorted_iff_sorted_by(s: Seq<u64>)
    ensures
        sorted(s) <==> sorted_by(s, latency_leq()),
{
    let leq = latency_leq();
    if sorted(s) {
        assert forall|i: int, j: int| 0 <= i < j < s.len() implies #[trigger] leq(s[i], s[j]) by {
            assert(s[i] <= s[j]);
        }
    }
    if sorted_by(s, leq) {
        assert forall|i: int, j: int| 0 <= i <= j < s.len() implies s[i] <= s[j] by {
            if i < j {
                assert(leq(s[i], s[j]));
            }
        }
    }
}

/// What the ascending reordering of a sequence is: sorted, with the same
/// elements (as a multiset) and the same length as the original.
pub proof fn lemma_sort_of_ensures(s: Seq<u64>)
    ensures
        sorted(sort_of(s)),
        sort_of(s).to_multiset() == s.to_multiset(),
        sort_of(s).len() == s.len(),
{
    broadcast use vstd::seq_lib::group_to_multiset_ensures;

    lemma_latency_leq_total();
    s.lemma_sort_by_ensures(latency_leq());
    lemma_sorted_iff_sorted_by(sort_of(s));
    assert(s.to_multiset().len() == s.len());
    assert(sort_of(s).to_multiset().len() == sort_of(s).len());
}

/// Two sorted sequences holding the same elements are the same sequence.
pub proof fn lemma_sorted_same_elements_equal(a: Seq<u64>, b: Seq<u64>)
    requires
        sorted(a),
        sorted(b),
        a.to_multiset() == b.to_multiset(),
    ensures
        a == b,
{
    lemma_latency_leq_total();
    lemma_sorted_iff_sorted_by(a);
    lemma_sorted_iff_sorted_by(b);
    lemma_sorted_unique(a, b, latency_leq());
}

/// Sorts the interval's newly collected latencies ascending, in place.
pub fn sort(data: &mut Vec<u64>)
    ensures
        sorted(final(data)@),
        final(data)@.len() == old(data)@.len(),
        final(data)@.to_multiset() == old(data)@.to_multiset(),
        final(data)@ == sort_of(old(data)@),
{
    let ghost orig = data@;
    let mut i: usize = 1;
    while i < data.len()
        invariant
            i >= 1,
            data@.len() == orig.len(),
            data@.to_multiset() == orig.to_multiset(),
            forall|a: int, b: int| 0 <= a <= b < i && b < data@.len() ==> data@[a] <= data@[b],
        decreases data@.len() - i,
    {
        let mut j: usize = i;
        while j > 0 && data[j - 1] > data[j]
            invariant
                0 <= j <= i < data@.len(),
                data@.len() == orig.len(),
                data@.to_multiset() == orig.to_multiset(),
                forall|a: int, b: int| 0 <= a < b <= i && b != j ==> data@[a] <= data@[b],
            decreases j,
        {
            let va = data[j - 1];
            let vb = data[j];
            let ghost pre = data@;
            data[j - 1] = vb;
            data[j] = va;
            proof {
                broadcast use vstd::seq_lib::group_to_multiset_ensures;
                broadcast use vstd::multiset::group_multiset_axioms;

                assert(data@ == pre.update(j - 1, vb).update(j as int, va));
                assert(data@.to_multiset() =~= pre.to_multiset());
            }
            j -= 1;
        }
        i += 1;
    }
    proof {
        lemma_sort_of_ensures(orig);
        lemma_sorted_same_elements_equal(data@, sort_of(orig));
    }
}

/// Merges the freshly sorted interval latencies into the cumulative sorted
/// sequence in place, walking both inputs from the tail backward, in time
/// linear in the two lengths and without a second buffer.
pub fn extend_sorted(data: &mut Vec<u64>, new_data: &[u64])
    requires
        sorted(old(data)@),
        sorted(new_data@),
        old(data)@.len() + new_data@.len() <= usize::MAX,
    ensures
        sorted(final(data)@),
        final(data)@.len() == old(data)@.len() + new_data@.len(),
        final(data)@.to_multiset() == old(data)@.to_multiset().add(new_data@.to_multiset()),
        final(data)@ == sort_of(old(data)@ + new_data@),
{
    let ghost a = old(data)@;
    let ghost b = new_data@;
    let mut old_idx: usize = data.len();
    let total: usize = data.len() + new_data.len();
    data.resize(total, 0);
    let mut new_idx: usize = new_data.len();
    let mut idx: usize = data.len();

    proof {
        assert(data@.subrange(0, old_idx as int) =~= a.subrange(0, old_idx as int));
        assert(data@.subrange(idx as int, data@.len() as int) =~= Seq::<u64>::empty());
        assert(a.subrange(old_idx as int, a.len() as int) =~= Seq::<u64>::empty());
        assert(b.subrange(new_idx as int, b.len() as int) =~= Seq::<u64>::empty());
        broadcast use vstd::multiset::group_multiset_axioms;
        broadcast use vstd::seq_lib::group_to_multiset_ensures;

        let e = Seq::<u64>::empty();
        assert forall|x: u64| e.to_multiset().count(x) == 0 by {
            assert(!e.contains(x));
        }
        assert(e.to_multiset() =~= Multiset::<u64>::empty());
    }

    while old_idx > 0 && new_idx > 0
        invariant
            sorted(a),
            sorted(b),
            old_idx <= a.len(),
            new_idx <= b.len(),
            idx == old_idx + new_idx,
            data@.len() == a.len() + b.len(),
            b.len() == new_data@.len(),
            b == new_data@,
            data@.subrange(0, old_idx as int) == a.subrange(0, old_idx as int),
            forall|p: int, q: int| idx <= p <= q < data@.len() ==> data@[p] <= data@[q],
            old_idx > 0 && idx < data@.len() ==> a[old_idx - 1] <= data@[idx as int],
            new_idx > 0 && idx < data@.len() ==> b[new_idx - 1] <= data@[idx as int],
            data@.subrange(idx as int, data@.len() as int).to_multiset() == a.subrange(
                old_idx as int,
                a.len() as int,
            ).to_multiset().add(b.subrange(new_idx as int, b.len() as int).to_multiset()),
        decreases idx,
    {
        let old_v = data[old_idx - 1];
        let new_v = new_data[new_idx - 1];
        let ghost pre = data@;
        proof {
            assert(pre.subrange(0, old_idx as int)[old_idx - 1] == a.subrange(
                0,
                old_idx as int,
            )[old_idx - 1]);
            assert(old_v == a[old_idx - 1]);
            assert(new_v == b[new_idx - 1]);
        }
        if old_v > new_v {
            data[idx - 1] = old_v;
            proof {
                lemma_merge_step(pre, data@, a, b, old_idx as int, new_idx as int, idx as int, true);
            }
            old_idx -= 1;
        } else {
            data[idx - 1] = new_v;
            proof {
                lemma_merge_step(pre, data@, a, b, old_idx as int, new_idx as int, idx as int, false);
            }
            new_idx -= 1;
        }
        idx -= 1;
    }

    while old_idx > 0
        invariant
            sorted(a),
            sorted(b),
            old_idx <= a.len(),
            new_idx <= b.len(),
            old_idx == 0 || new_idx == 0,
            idx == old_idx + new_idx,
            data@.len() == a.len() + b.len(),
            data@.subrange(0, old_idx as int) == a.subrange(0, old_idx as int),
            forall|p: int, q: int| idx <= p <= q < data@.len() ==> data@[p] <= data@[q],
            old_idx > 0 && idx < data@.len() ==> a[old_idx - 1] <= data@[idx as int],
            new_idx > 0 && idx < data@.len() ==> b[new_idx - 1] <= data@[idx as int],
            data@.subrange(idx as int, data@.len() as int).to_multiset() == a.subrange(
                old_idx as int,
                a.len() as int,
            ).to_multiset().add(b.subrange(new_idx as int, b.len() as int).to_multiset()),
        decreases old_idx,
    {
        let v = data[old_idx - 1];
        let ghost pre = data@;
        data[idx - 1] = v;
        proof {
            assert(new_idx == 0);
            assert(idx == old_idx);
            assert(pre.subrange(0, old_idx as int)[old_idx - 1] == a.subrange(
                0,
                old_idx as int,
            )[old_idx - 1]);
            assert(pre[idx - 1] == a[old_idx - 1]);
            assert(data@ =~= pre);
            lemma_merge_step(pre, data@, a, b, old_idx as int, new_idx as int, idx as int, true);
        }
        old_idx -= 1;
        idx -= 1;
    }

    while new_idx > 0
        invariant
            sorted(a),
            sorted(b),
            old_idx == 0,
            new_idx <= b.len(),
            b == new_data@,
            idx == new_idx,
            data@.len() == a.len() + b.len(),
            forall|p: int, q: int| idx <= p <= q < data@.len() ==> data@[p] <= data@[q],
            new_idx > 0 && idx < data@.len() ==> b[new_idx - 1] <= data@[idx as int],
            data@.subrange(idx as int, data@.len() as int).to_multiset() == a.subrange(
                0,
                a.len() as int,
            ).to_multiset().add(b.subrange(new_idx as int, b.len() as int).to_multiset()),
        decreases new_idx,
    {
        let v = new_data[new_idx - 1];
        let ghost pre = data@;
        data[idx - 1] = v;
        proof {
            assert(pre.subrange(0, 0) =~= a.subrange(0, 0));
            lemma_merge_step(pre, data@, a, b, 0, new_idx as int, idx as int, false);
        }
        new_idx -= 1;
        idx -= 1;
    }

    proof {
        assert(data@.subrange(0, data@.len() as int) =~= data@);
        assert(a.subrange(0, a.len() as int) =~= a);
        assert(b.subrange(0, b.len() as int) =~= b);
        assert(data@.to_multiset() == a.to_multiset().add(b.to_multiset()));
        lemma_multiset_commutative(a, b);
        lemma_sort_of_ensures(a + b);
        lemma_sorted_same_elements_equal(data@, sort_of(a + b));
        broadcast use vstd::seq_lib::group_to_multiset_ensures;

        assert(data@.len() == a.len() + b.len());
    }
}

/// One backward step of the merge: writing the larger of the two current
/// tail elements at `idx - 1` keeps the merged suffix sorted, keeps its
/// contents equal to the two consumed tails, and leaves the untouched
/// prefix of the cumulative sequence alone.
proof fn lemma_merge_step(
    pre: Seq<u64>,
    post: Seq<u64>,
    a: Seq<u64>,
    b: Seq<u64>,
    old_idx: int,
    new_idx: int,
    idx: int,
    from_old: bool,
)
    requires
        sorted(a),
        sorted(b),
        0 <= old_idx <= a.len(),
        0 <= new_idx <= b.len(),
        idx == old_idx + new_idx,
        idx >= 1,
        from_old ==> old_idx >= 1,
        !from_old ==> new_idx >= 1,
        pre.len() == a.len() + b.len(),
        post == pre.update(idx - 1, if from_old { a[old_idx - 1] } else { b[new_idx - 1] }),
        pre.subrange(0, old_idx) == a.subrange(0, old_idx),
        forall|p: int, q: int| idx <= p <= q < pre.len() ==> pre[p] <= pre[q],
        old_idx > 0 && idx < pre.len() ==> a[old_idx - 1] <= pre[idx],
        new_idx > 0 && idx < pre.len() ==> b[new_idx - 1] <= pre[idx],
        from_old && new_idx > 0 ==> b[new_idx - 1] <= a[old_idx - 1],
        !from_old && old_idx > 0 ==> a[old_idx - 1] <= b[new_idx - 1],
        pre.subrange(idx, pre.len() as int).to_multiset() == a.subrange(old_idx, a.len() as int)
            .to_multiset().add(b.subrange(new_idx, b.len() as int).to_multiset()),
    ensures
        post.len() == pre.len(),
        post.subrange(0, if from_old { old_idx - 1 } else { old_idx }) == a.subrange(
            0,
            if from_old { old_idx - 1 } else { old_idx },
        ),
        forall|p: int, q: int| idx - 1 <= p <= q < post.len() ==> post[p] <= post[q],
        (if from_old { old_idx - 1 } else { old_idx }) > 0 ==> a[(if from_old {
            old_idx - 1
        } else {
            old_idx
        }) - 1] <= post[idx - 1],
        (if from_old { new_idx } else { new_idx - 1 }) > 0 ==> b[(if from_old {
            new_idx
        } else {
            new_idx - 1
        }) - 1] <= post[idx - 1],
        post.subrange(idx - 1, post.len() as int).to_multiset() == a.subrange(
            if from_old { old_idx - 1 } else { old_idx },
            a.len() as int,
        ).to_multiset().add(
            b.subrange(if from_old { new_idx } else { new_idx - 1 }, b.len() as int).to_multiset(),
        ),
{
    broadcast use vstd::seq_lib::group_to_multiset_ensures;
    broadcast use vstd::multiset::group_multiset_axioms;

    let v = if from_old { a[old_idx - 1] } else { b[new_idx - 1] };
    let old_idx2 = if from_old { old_idx - 1 } else { old_idx };
    let new_idx2 = if from_old { new_idx } else { new_idx - 1 };

    // The write lands at or right of `old_idx2`, so the untouched prefix of
    // the cumulative sequence survives.
    assert(post.subrange(0, old_idx2) =~= a.subrange(0, old_idx2));

    // The value written is at most the old head of the merged suffix.
    assert(idx < pre.len() ==> v <= pre[idx]);
    assert forall|p: int, q: int| idx - 1 <= p <= q < post.len() implies post[p] <= post[q] by {
        if p == idx - 1 && q > p {
            assert(post[q] == pre[q]);
            assert(v <= pre[idx]);
            assert(pre[idx] <= pre[q]);
        }
    }

    // The merged suffix grew by exactly the element consumed from its tail.
    assert(post.subrange(idx - 1, post.len() as int) =~= pre.subrange(
        idx,
        pre.len() as int,
    ).insert(0, v));
    if from_old {
        assert(a.subrange(old_idx - 1, a.len() as int) =~= a.subrange(
            old_idx,
            a.len() as int,
        ).insert(0, v));
        assert(post.subrange(idx - 1, post.len() as int).to_multiset() =~= a.subrange(
            old_idx2,
            a.len() as int,
        ).to_multiset().add(b.subrange(new_idx2, b.len() as int).to_multiset()));
    } else {
        assert(b.subrange(new_idx - 1, b.len() as int) =~= b.subrange(
            new_idx,
            b.len() as int,
        ).insert(0, v));
        assert(post.subrange(idx - 1, post.len() as int).to_multiset() =~= a.subrange(
            old_idx2,
            a.len() as int,
        ).to_multiset().add(b.subrange(new_idx2, b.len() as int).to_multiset()));
    }
}

/// Merge correctness: for a sorted cumulative sequence and an arbitrary
/// batch of new values, merging the ascending reordering of the batch into
/// the cumulative sequence — which by the contract of `extend_sorted` yields
/// `sort_of(a + sort_of(b))` — gives exactly the ascending reordering of the
/// plain concatenation of the two, whatever their relative sizes, either one
/// empty included.
pub proof fn lemma_merge_is_sorted_concat(a: Seq<u64>, b: Seq<u64>)
    requires
        sorted(a),
    ensures
        sort_of(a + sort_of(b)) == sort_of(a + b),
{
    lemma_sort_of_ensures(b);
    lemma_sort_of_ensures(a + sort_of(b));
    lemma_sort_of_ensures(a + b);
    lemma_multiset_commutative(a, sort_of(b));
    lemma_multiset_commutative(a, b);
    lemma_sorted_same_elements_equal(sort_of(a + sort_of(b)), sort_of(a + b));
}

/// The latency at rank `pct_tenths` (tenths of a percent) of a sorted
/// non-empty sequence, by linear interpolation between the two neighbouring
/// data points, computed to the floor: with `rank = pct_tenths * (len - 1)`,
/// the answer lies between the elements at `rank / 1000` and
/// `rank / 1000 + 1`, `rank % 1000` thousandths of the way up. A sequence of
/// one element answers that element, and the topmost rank answers the
/// maximum directly.
pub open spec fn percentile_of(s: Seq<u64>, pct_tenths: int) -> int
    recommends
        0 <= pct_tenths <= PCT_SCALE,
        s.len() >= 1,
{
    if s.len() <= 1 {
        s[0] as int
    } else if pct_tenths == PCT_SCALE {
        s[s.len() - 1] as int
    } else {
        let rank = pct_tenths * (s.len() - 1);
        let lo = rank / (PCT_SCALE as int);
        let rem = rank % (PCT_SCALE as int);
        s[lo] + (s[lo + 1] - s[lo]) * rem / (PCT_SCALE as int)
    }
}

/// For an interior rank the interpolation stays between its two
/// neighbouring data points.
proof fn lemma_interp_facts(s: Seq<u64>, p: int)
    requires
        sorted(s),
        s.len() >= 2,
        0 <= p < PCT_SCALE,
    ensures
        ({
            let rank = p * (s.len() - 1);
            let lo = rank / (PCT_SCALE as int);
            let rem = rank % (PCT_SCALE as int);
            &&& 0 <= lo < s.len() - 1
            &&& 0 <= rem < PCT_SCALE
            &&& s[lo] <= percentile_of(s, p) <= s[lo + 1]
        }),
{
    let m = s.len() - 1;
    let scale = PCT_SCALE as int;
    let rank = p * m;
    let lo = rank / scale;
    let rem = rank % scale;
    lemma_mul_nonnegative(p, m);
    lemma_mod_division_less_than_divisor(rank, scale);
    lemma_fundamental_div_mod(rank, scale);
    lemma_div_pos_is_pos(rank, scale);
    lemma_mul_inequality(p, scale - 1, m);
    assert(rank <= (scale - 1) * m);
    assert(scale * lo <= rank);
    assert(lo < m);
    assert(s[lo] <= s[lo + 1]);
    let d = s[lo + 1] - s[lo];
    lemma_mul_nonnegative(d, rem);
    lemma_div_pos_is_pos(d * rem, scale);
    lemma_mul_inequality(rem, scale, d);
    lemma_mul_is_commutative(d, rem);
    lemma_mul_is_commutative(d, scale);
    lemma_div_is_ordered(d * rem, d * scale, scale);
    lemma_div_by_multiple(d, scale);
    assert((d * scale) / scale == d);
    assert(d * rem / scale <= d);
}

/// A percentile of a sorted non-empty sequence lies between the sequence's
/// least and greatest element.
pub proof fn lemma_percentile_in_range(s: Seq<u64>, p: int)
    requires
        sorted(s),
        s.len() >= 1,
        0 <= p <= PCT_SCALE,
    ensures
        s[0] <= percentile_of(s, p) <= s[s.len() - 1],
{
    if s.len() == 1 {
    } else if p == PCT_SCALE {
        assert(s[0] <= s[s.len() - 1]);
    } else {
        lemma_interp_facts(s, p);
        let rank = p * (s.len() - 1);
        let lo = rank / (PCT_SCALE as int);
        assert(s[0] <= s[lo]);
        assert(s[lo + 1] <= s[s.len() - 1]);
    }
}

/// Percentile monotonicity: on one sorted non-empty sequence, a query at a
/// lower rank never answers more than a query at a higher rank.
pub proof fn lemma_percentile_monotonic(s: Seq<u64>, p1: int, p2: int)
    requires
        sorted(s),
        s.len() >= 1,
        0 <= p1 < p2 <= PCT_SCALE,
    ensures
        percentile_of(s, p1) <= percentile_of(s, p2),
{
    let scale = PCT_SCALE as int;
    if s.len() == 1 {
    } else if p2 == PCT_SCALE {
        lemma_percentile_in_range(s, p1);
    } else {
        let m = s.len() - 1;
        lemma_interp_facts(s, p1);
        lemma_interp_facts(s, p2);
        let r1 = p1 * m;
        let r2 = p2 * m;
        let lo1 = r1 / scale;
        let rem1 = r1 % scale;
        let lo2 = r2 / scale;
        let rem2 = r2 % scale;
        lemma_mul_inequality(p1, p2, m);
        lemma_div_is_ordered(r1, r2, scale);
        assert(lo1 <= lo2);
        if lo1 == lo2 {
            lemma_fundamental_div_mod(r1, scale);
            lemma_fundamental_div_mod(r2, scale);
            assert(rem1 <= rem2);
            let d = s[lo1 + 1] - s[lo1];
            assert(d >= 0);
            lemma_mul_inequality(rem1, rem2, d);
            lemma_mul_is_commutative(d, rem1);
            lemma_mul_is_commutative(d, rem2);
            lemma_div_is_ordered(d * rem1, d * rem2, scale);
        } else {
            assert(percentile_of(s, p1) <= s[lo1 + 1]);
            assert(s[lo1 + 1] <= s[lo2]);
            assert(s[lo2] <= percentile_of(s, p2));
        }
    }
}

/// Answers the rank-interpolated percentile query on the sorted cumulative
/// sequence: undefined (`None`) on an empty sequence, the single element on
/// a one-element sequence, otherwise exactly the interpolation that
/// `percentile_of` states.
pub fn percentile(data: &[u64], pct_tenths: u32) -> (r: Option<u64>)
    requires
        sorted(data@),
        pct_tenths <= PCT_SCALE,
    ensures
        (r is None) <==> data@.len() == 0,
        data@.len() > 0 ==> r == Some(percentile_of(data@, pct_tenths as int) as u64),
        data@.len() == 1 ==> r == Some(data@[0]),
{
    let len = data.len();
    if len == 0 {
        return None;
    }
    if len == 1 {
        return Some(data[0]);
    }
    if pct_tenths == PCT_SCALE {
        return Some(data[len - 1]);
    }
    proof {
        lemma_mul_inequality(pct_tenths as int, (PCT_SCALE - 1) as int, len - 1);
    }
    let rank: u128 = (pct_tenths as u128) * ((len - 1) as u128);
    let lo_rank: u128 = rank / (PCT_SCALE as u128);
    let rem: u128 = rank % (PCT_SCALE as u128);
    proof {
        let scale = PCT_SCALE as int;
        lemma_fundamental_div_mod(rank as int, scale);
        lemma_mod_division_less_than_divisor(rank as int, scale);
        lemma_div_pos_is_pos(rank as int, scale);
        assert(rank as int <= (scale - 1) * (len - 1));
        assert(scale * (lo_rank as int) <= rank as int);
        assert(lo_rank < (len - 1) as u128);
    }
    let n: usize = lo_rank as usize;
    let lo = data[n];
    let hi = data[n + 1];
    proof {
        assert(data@[n as int] <= data@[n as int + 1]);
    }
    let diff = hi - lo;
    proof {
        lemma_mul_inequality(rem as int, PCT_SCALE as int, diff as int);
        lemma_mul_is_commutative(diff as int, rem as int);
        lemma_mul_is_commutative(diff as int, PCT_SCALE as int);
        lemma_div_is_ordered(
            (diff as int) * (rem as int),
            (diff as int) * (PCT_SCALE as int),
            PCT_SCALE as int,
        );
        lemma_div_by_multiple(diff as int, PCT_SCALE as int);
    }
    let add128: u128 = (diff as u128) * rem / (PCT_SCALE as u128);
    let add: u64 = add128 as u64;
    Some(lo + add)
}

} // verus!
