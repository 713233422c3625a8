use vstd::prelude::*;

verus! {

/// The number of values in the range `min, min + step, ...` that do not exceed `max`.
pub open spec fn range_len(min: int, max: int, step: int) -> int {
    if min > max {
        0
    } else {
        (max - min) / step + 1
    }
}

/// The last value of the range `min, min + step, ...` that does not exceed `max`
/// (when `min <= max`).
pub open spec fn range_last(min: int, max: int, step: int) -> int {
    min + ((max - min) / step) * step
}

/// The range can be built without an endless loop or an overflowing step:
/// it is empty, or the step is positive and one step past its last value
/// still fits in a `usize`.
pub open spec fn usize_range_buildable(min: usize, max: usize, step: usize) -> bool {
    min > max || (step > 0 && range_last(min as int, max as int, step as int) + step <= usize::MAX)
}

proof fn lemma_range_step(min: int, max: int, step: int, k: int)
    requires
        step > 0,
        min <= max,
        0 <= k,
        min + k * step <= max,
    ensures
        k <= (max - min) / step,
        min + k * step <= range_last(min, max, step),
        min + (k + 1) * step <= max <==> k + 1 <= (max - min) / step,
        (k + 1) * step == k * step + step,
{
    assert((k + 1) * step == k * step + step) by (nonlinear_arith);
    let d = max - min;
    assert(k * step <= d);
    assert(d == (d / step) * step + d % step) by (nonlinear_arith)
        requires
            step > 0,
    ;
    assert(0 <= d % step < step) by (nonlinear_arith)
        requires
            step > 0,
    ;
    assert(k <= d / step) by (nonlinear_arith)
        requires
            step > 0,
            k * step <= d,
            d == (d / step) * step + d % step,
            0 <= d % step < step,
    ;
    assert(k * step <= (d / step) * step) by (nonlinear_arith)
        requires
            step > 0,
            k <= d / step,
    ;
    assert((k + 1) * step <= d <==> k + 1 <= d / step) by (nonlinear_arith)
        requires
            step > 0,
            d == (d / step) * step + d % step,
            0 <= d % step < step,
    ;
}

/// Builds `min, min + step, min + 2 * step, ...` up to and including `max`.
pub fn build_usize_range(min: usize, max: usize, step: usize) -> (results: Vec<usize>)
    requires
        usize_range_buildable(min, max, step),
    ensures
        results.len() == range_len(min as int, max as int, step as int),
        forall|i: int| 0 <= i < results.len() ==> #[trigger] results@[i] == min + i * step,
{
    let mut pointer = min;
    let mut results: Vec<usize> = Vec::new();
    assert(0 * step == 0);
    while pointer <= max
        invariant
            usize_range_buildable(min, max, step),
            min <= max ==> pointer == min + results.len() * step,
            min > max ==> pointer == min && results.len() == 0,
            min <= max ==> results.len() <= range_len(min as int, max as int, step as int),
            min <= max && pointer > max ==> results.len() == range_len(min as int, max as int, step as int),
            forall|i: int| 0 <= i < results.len() ==> #[trigger] results@[i] == min + i * step,
        decreases max - pointer + step,
    {
        proof {
            lemma_range_step(min as int, max as int, step as int, results.len() as int);
        }
        results.push(pointer);
        pointer += step;
        assert(pointer == min + results.len() * step);
    }
    results
}

} // verus!
