use vstd::prelude::*;

use crate::utilities::build_usize_range;

verus! {

/// The moving-average periods of a crossover signal.
#[derive(PartialEq, Eq, Structural, Debug, Clone, Copy)]
pub struct SignalParameters {
    pub warmup_periods: usize,
    pub fast_periods: usize,
    pub slow_periods: usize,
}

/// The fast periods that lie below `slow`, in order, paired with it.
pub open spec fn faster_than(fast: Seq<usize>, slow: usize) -> Seq<SignalParameters>
    decreases fast.len(),
{
    if fast.len() == 0 {
        seq![]
    } else {
        faster_than(fast.drop_last(), slow) + if fast.last() < slow {
            seq![SignalParameters { warmup_periods: 1, fast_periods: fast.last(), slow_periods: slow }]
        } else {
            seq![]
        }
    }
}

/// Every slow period in order, each with the fast periods below it in order.
pub open spec fn period_pairs(fast: Seq<usize>, slow: Seq<usize>) -> Seq<SignalParameters>
    decreases slow.len(),
{
    if slow.len() == 0 {
        seq![]
    } else {
        period_pairs(fast, slow.drop_last()) + faster_than(fast, slow.last())
    }
}

/// Pairs each slow period with each faster period: slow periods in order,
/// and for each the fast periods in order; pairs whose fast period is not
/// below the slow one are left out.
pub fn pair_fast_below_slow(fast: &Vec<usize>, slow: &Vec<usize>) -> (pairs: Vec<SignalParameters>)
    ensures
        pairs@ == period_pairs(fast@, slow@),
{
    let mut pairs: Vec<SignalParameters> = Vec::new();
    let m = slow.len();
    let n = fast.len();
    for s in 0..m
        invariant
            m == slow.len(),
            n == fast.len(),
            pairs@ == period_pairs(fast@, slow@.take(s as int)),
    {
        let ghost before = pairs@;
        let slow_periods = slow[s];
        for f in 0..n
            invariant
                n == fast.len(),
                s < m,
                m == slow.len(),
                slow_periods == slow@[s as int],
                pairs@ == before + faster_than(fast@.take(f as int), slow_periods),
        {
            let fast_periods = fast[f];
            if fast_periods < slow_periods {
                pairs.push(SignalParameters { warmup_periods: 1, fast_periods, slow_periods });
            }
            assert(fast@.take(f + 1).drop_last() =~= fast@.take(f as int));
            assert(pairs@ =~= before + faster_than(fast@.take(f + 1), slow_periods));
        }
        assert(fast@.take(n as int) =~= fast@);
        assert(slow@.take(s + 1).drop_last() =~= slow@.take(s as int));
    }
    assert(slow@.take(m as int) =~= slow@);
    pairs
}

/// Fast periods 5, 10, ..., 40 against slow periods 10, 20, ..., 50, each
/// fast period below its slow one, with one warm-up period.
pub fn build_signal_parameter_combinations() -> (combinations: Vec<SignalParameters>)
    ensures
        combinations@ == period_pairs(
            Seq::new(8, |i: int| (5 + 5 * i) as usize),
            Seq::new(5, |i: int| (10 + 10 * i) as usize),
        ),
{
    let fast = build_usize_range(5, 40, 5);
    let slow = build_usize_range(10, 50, 10);
    assert(fast@ =~= Seq::new(8, |i: int| (5 + 5 * i) as usize));
    assert(slow@ =~= Seq::new(5, |i: int| (10 + 10 * i) as usize));
    pair_fast_below_slow(&fast, &slow)
}

proof fn lemma_faster_than(fast: Seq<usize>, slow: usize)
    ensures
        forall|k: int|
            0 <= k < faster_than(fast, slow).len() ==> {
                let p = #[trigger] faster_than(fast, slow)[k];
                p.fast_periods < p.slow_periods && p.slow_periods == slow && p.warmup_periods == 1
            },
    decreases fast.len(),
{
    if fast.len() > 0 {
        lemma_faster_than(fast.drop_last(), slow);
        let prev = faster_than(fast.drop_last(), slow);
        let all = faster_than(fast, slow);
        assert forall|k: int| 0 <= k < all.len() implies {
            let p = #[trigger] all[k];
            p.fast_periods < p.slow_periods && p.slow_periods == slow && p.warmup_periods == 1
        } by {
            if k < prev.len() {
                assert(all[k] == prev[k]);
            }
        }
    }
}

/// Every combination's fast period lies below its slow period.
pub proof fn law_fast_period_below_slow(fast: Seq<usize>, slow: Seq<usize>)
    ensures
        forall|k: int|
            0 <= k < period_pairs(fast, slow).len() ==> (#[trigger] period_pairs(fast, slow)[k]).fast_periods
                < period_pairs(fast, slow)[k].slow_periods,
    decreases slow.len(),
{
    if slow.len() > 0 {
        law_fast_period_below_slow(fast, slow.drop_last());
        lemma_faster_than(fast, slow.last());
        let prev = period_pairs(fast, slow.drop_last());
        let last = faster_than(fast, slow.last());
        let all = period_pairs(fast, slow);
        assert forall|k: int| 0 <= k < all.len() implies (#[trigger] all[k]).fast_periods < all[k].slow_periods by {
            if k < prev.len() {
                assert(all[k] == prev[k]);
            } else {
                assert(all[k] == last[k - prev.len()]);
            }
        }
    }
}

} // verus!
