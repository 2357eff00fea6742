//! Turns the per-pass bandwidth samples of one binding into a single score,
//! and orders the scored bindings.
//!
//! With three or more passes the score is the trimmed mean: one minimum and
//! one maximum sample are discarded and the rest averaged. With fewer passes
//! every sample is averaged. The final ranking sorts bindings by score,
//! highest first.

use vstd::prelude::*;
use vstd::arithmetic::div_mod::{lemma_div_is_ordered, lemma_div_multiples_vanish};
use vstd::multiset::Multiset;

verus! {

/// The sum of a sample sequence.
pub open spec fn sum_of(s: Seq<u64>) -> int
    decreases s.len(),
{
    if s.len() == 0 {
        0
    } else {
        sum_of(s.drop_last()) + s.last()
    }
}

/// The least sample of a non-empty sequence.
pub open spec fn min_of(s: Seq<u64>) -> int
    recommends
        s.len() >= 1,
    decreases s.len(),
{
    if s.len() <= 1 {
        if s.len() == 1 {
            s[0] as int
        } else {
            0
        }
    } else {
        let m = min_of(s.drop_last());
        if s.last() < m {
            s.last() as int
        } else {
            m
        }
    }
}

/// The greatest sample of a non-empty sequence.
pub open spec fn max_of(s: Seq<u64>) -> int
    recommends
        s.len() >= 1,
    decreases s.len(),
{
    if s.len() <= 1 {
        if s.len() == 1 {
            s[0] as int
        } else {
            0
        }
    } else {
        let m = max_of(s.drop_last());
        if s.last() > m {
            s.last() as int
        } else {
            m
        }
    }
}

/// The aggregated score of one binding's samples: the mean after discarding
/// one minimum and one maximum sample when there are at least three samples,
/// the plain mean otherwise.
pub open spec fn trimmed_score(s: Seq<u64>) -> int
    recommends
        s.len() >= 1,
{
    if s.len() >= 3 {
        (sum_of(s) - min_of(s) - max_of(s)) / (s.len() - 2) as int
    } else {
        sum_of(s) / s.len() as int
    }
}

/// The extreme samples bound every sample.
proof fn lemma_min_max_are_bounds(s: Seq<u64>)
    requires
        s.len() >= 1,
    ensures
        forall|i: int| 0 <= i < s.len() ==> min_of(s) <= #[trigger] (s[i] as int) <= max_of(s),
        exists|i: int| 0 <= i < s.len() && s[i] == min_of(s),
        exists|i: int| 0 <= i < s.len() && s[i] == max_of(s),
    decreases s.len(),
{
    if s.len() == 1 {
        assert(s[0] == min_of(s));
        assert(s[0] == max_of(s));
    } else {
        lemma_min_max_are_bounds(s.drop_last());
        let t = s.drop_last();
        assert forall|i: int| 0 <= i < s.len() implies min_of(s) <= #[trigger] (
        s[i] as int) <= max_of(s) by {
            if i < s.len() - 1 {
                assert(t[i] == s[i]);
            }
        }
        if s.last() < min_of(t) {
            assert(s[s.len() - 1] == min_of(s));
        } else {
            let i = choose|i: int| 0 <= i < t.len() && t[i] == min_of(t);
            assert(s[i] == min_of(s));
        }
        if s.last() > max_of(t) {
            assert(s[s.len() - 1] == max_of(s));
        } else {
            let i = choose|i: int| 0 <= i < t.len() && t[i] == max_of(t);
            assert(s[i] == max_of(s));
        }
    }
}

/// The sum lies between each single sample and the sample count times the
/// greatest sample.
proof fn lemma_sum_bounds(s: Seq<u64>)
    requires
        s.len() >= 1,
    ensures
        forall|i: int| 0 <= i < s.len() ==> #[trigger] (s[i] as int) <= sum_of(s),
        sum_of(s) <= s.len() * max_of(s),
        sum_of(s) >= 0,
    decreases s.len(),
{
    lemma_min_max_are_bounds(s);
    if s.len() == 1 {
        assert(sum_of(s) == sum_of(s.drop_last()) + s.last());
        assert(sum_of(s.drop_last()) == 0);
    } else {
        let t = s.drop_last();
        lemma_sum_bounds(t);
        lemma_min_max_are_bounds(t);
        assert forall|i: int| 0 <= i < s.len() implies #[trigger] (s[i] as int) <= sum_of(s) by {
            if i < s.len() - 1 {
                assert(t[i] == s[i]);
            }
        }
        assert(max_of(t) <= max_of(s));
        assert(t.len() * max_of(t) <= t.len() * max_of(s)) by (nonlinear_arith)
            requires
                max_of(t) <= max_of(s),
                t.len() >= 0,
        ;
        assert(t.len() * max_of(s) + max_of(s) == s.len() * max_of(s)) by (nonlinear_arith)
            requires
                t.len() + 1 == s.len(),
        ;
    }
}

/// After discarding one minimum and one maximum, the rest still sums to at
/// most the remaining count times the greatest sample, and is non-negative.
proof fn lemma_trimmed_sum_bounds(s: Seq<u64>)
    requires
        s.len() >= 2,
    ensures
        sum_of(s) - min_of(s) - max_of(s) >= 0,
        sum_of(s) - min_of(s) - max_of(s) <= (s.len() - 2) * max_of(s),
    decreases s.len(),
{
    let t = s.drop_last();
    let x = s.last() as int;
    lemma_min_max_are_bounds(s);
    if s.len() == 2 {
        assert(sum_of(s) == sum_of(t) + x);
        assert(t.drop_last() =~= Seq::<u64>::empty());
        assert(sum_of(Seq::<u64>::empty()) == 0);
        assert(sum_of(t) == t[0] as int);
        assert(min_of(s) + max_of(s) == t[0] + x);
    } else {
        lemma_trimmed_sum_bounds(t);
        lemma_sum_bounds(t);
        lemma_min_max_are_bounds(t);
        let n = s.len() as int;
        assert(sum_of(s) == sum_of(t) + x);
        // Walk each relation of the new last sample to the old extremes.
        if x < min_of(t) {
            assert(min_of(s) == x && max_of(s) == max_of(t));
            assert(sum_of(t) - min_of(t) - max_of(t) <= (n - 3) * max_of(t));
            assert(min_of(t) <= max_of(t));
            assert((n - 3) * max_of(t) + max_of(t) == (n - 2) * max_of(t)) by (nonlinear_arith);
        } else if x > max_of(t) {
            assert(min_of(s) == min_of(t) && max_of(s) == x);
            assert(sum_of(t) - min_of(t) - max_of(t) <= (n - 3) * max_of(t));
            assert((n - 3) * max_of(t) <= (n - 3) * x) by (nonlinear_arith)
                requires
                    max_of(t) <= x,
                    n >= 3,
            ;
            assert((n - 3) * x + x == (n - 2) * x) by (nonlinear_arith);
        } else {
            assert(min_of(s) == min_of(t) && max_of(s) == max_of(t));
            assert(sum_of(t) - min_of(t) - max_of(t) <= (n - 3) * max_of(t));
            assert(x <= max_of(t));
            assert((n - 3) * max_of(t) + max_of(t) == (n - 2) * max_of(t)) by (nonlinear_arith);
        }
    }
}

/// The score never exceeds the greatest sample, so it fits in the sample
/// type.
pub proof fn lemma_score_in_range(s: Seq<u64>)
    requires
        s.len() >= 1,
    ensures
        0 <= trimmed_score(s) <= max_of(s),
        max_of(s) <= u64::MAX,
{
    lemma_min_max_are_bounds(s);
    lemma_sum_bounds(s);
    let n = s.len() as int;
    let m = max_of(s);
    if s.len() >= 3 {
        lemma_trimmed_sum_bounds(s);
        let trimmed = sum_of(s) - min_of(s) - max_of(s);
        lemma_div_is_ordered(trimmed, (n - 2) * m, n - 2);
        lemma_div_multiples_vanish(m, n - 2);
        assert(trimmed / (n - 2) >= 0) by (nonlinear_arith)
            requires
                trimmed >= 0,
                n - 2 > 0,
        ;
    } else {
        lemma_div_is_ordered(sum_of(s), n * m, n);
        lemma_div_multiples_vanish(m, n);
        assert(sum_of(s) / n >= 0) by (nonlinear_arith)
            requires
                sum_of(s) >= 0,
                n > 0,
        ;
    }
}

/// Computes the aggregated score of one binding's samples.
pub fn trimmed_mean(samples: &Vec<u64>) -> (score: u64)
    requires
        samples@.len() >= 1,
    ensures
        score == trimmed_score(samples@),
{
    let n = samples.len();
    let mut sum: u128 = 0;
    let mut vmin: u64 = samples[0];
    let mut vmax: u64 = samples[0];
    let mut i: usize = 0;
    while i < n
        invariant
            1 <= n == samples@.len(),
            0 <= i <= n,
            sum == sum_of(samples@.subrange(0, i as int)),
            i >= 1 ==> vmin == min_of(samples@.subrange(0, i as int)),
            i >= 1 ==> vmax == max_of(samples@.subrange(0, i as int)),
            i == 0 ==> vmin == samples@[0] && vmax == samples@[0],
            sum <= i * (u64::MAX as int),
        decreases n - i,
    {
        let x = samples[i];
        proof {
            let pre = samples@.subrange(0, i as int);
            let post = samples@.subrange(0, i + 1);
            assert(post.drop_last() =~= pre);
            assert(post.last() == samples@[i as int]);
            assert(sum + x <= (i + 1) * (u64::MAX as int)) by (nonlinear_arith)
                requires
                    sum <= i * (u64::MAX as int),
                    x <= u64::MAX,
                    i >= 0,
            ;
        }
        sum = sum + x as u128;
        if x < vmin {
            vmin = x;
        }
        if x > vmax {
            vmax = x;
        }
        i = i + 1;
    }
    proof {
        assert(samples@.subrange(0, n as int) =~= samples@);
        lemma_score_in_range(samples@);
        lemma_sum_bounds(samples@);
        lemma_min_max_are_bounds(samples@);
        if n >= 3 {
            lemma_trimmed_sum_bounds(samples@);
        }
    }
    if n >= 3 {
        let trimmed = sum - vmin as u128 - vmax as u128;
        let score = trimmed / (n - 2) as u128;
        score as u64
    } else {
        let score = sum / n as u128;
        score as u64
    }
}

/// True when the scored bindings stand in order of descending score.
pub open spec fn sorted_descending(s: Seq<(usize, u64)>) -> bool {
    forall|i: int, j: int| 0 <= i < j < s.len() ==> (#[trigger] s[i]).1 >= (#[trigger] s[j]).1
}

/// Orders scored bindings by score, highest first. The result holds exactly
/// the given entries.
pub fn rank_descending(scores: Vec<(usize, u64)>) -> (ranked: Vec<(usize, u64)>)
    ensures
        sorted_descending(ranked@),
        ranked@.to_multiset() == scores@.to_multiset(),
        ranked@.len() == scores@.len(),
{
    broadcast use vstd::seq_lib::group_to_multiset_ensures;

    let ghost orig = scores@;
    let mut remaining = scores;
    let mut ranked: Vec<(usize, u64)> = Vec::new();
    while remaining.len() > 0
        invariant
            ranked@.to_multiset().add(remaining@.to_multiset()) == orig.to_multiset(),
            ranked@.len() + remaining@.len() == orig.len(),
            sorted_descending(ranked@),
            forall|i: int, j: int|
                0 <= i < ranked@.len() && 0 <= j < remaining@.len() ==> (#[trigger] ranked@[i]).1
                    >= (#[trigger] remaining@[j]).1,
        decreases remaining@.len(),
    {
        // Select the greatest remaining score.
        let mut best: usize = 0;
        let mut k: usize = 1;
        while k < remaining.len()
            invariant
                remaining@.len() >= 1,
                0 <= best < k <= remaining@.len(),
                forall|j: int| 0 <= j < k ==> (#[trigger] remaining@[j]).1 <= remaining@[
                    best as int].1,
            decreases remaining@.len() - k,
        {
            if remaining[k].1 > remaining[best].1 {
                best = k;
            }
            k = k + 1;
        }
        let picked = remaining.remove(best);
        proof {
            broadcast use vstd::seq_lib::group_to_multiset_ensures;

            assert(ranked@.push(picked).to_multiset() == ranked@.to_multiset().insert(picked));
            assert(ranked@.push(picked).to_multiset().add(remaining@.to_multiset())
                =~= orig.to_multiset());
        }
        ranked.push(picked);
    }
    proof {
        assert(remaining@.to_multiset() =~= Multiset::<(usize, u64)>::empty());
        assert(ranked@.to_multiset() =~= orig.to_multiset());
    }
    ranked
}

} // verus!
