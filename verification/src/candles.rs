use vstd::prelude::*;

use crate::strings::str_equals;

verus! {

/// The length in seconds of a candle of the given resolution, in minutes:
/// `1` or `5`; other resolutions are not supported.
pub open spec fn spec_resolution_step(resolution: Seq<char>) -> Option<i64> {
    if resolution == "1"@ {
        Some(60)
    } else if resolution == "5"@ {
        Some(300)
    } else {
        None
    }
}

/// Reads a resolution; `None` for one that is not supported.
pub fn resolution_step(resolution: &str) -> (step: Option<i64>)
    ensures
        step == spec_resolution_step(resolution@),
{
    if str_equals(resolution, "1") {
        Some(60)
    } else if str_equals(resolution, "5") {
        Some(300)
    } else {
        None
    }
}

/// The positions below `n` of the candles whose timestamps lie in `[lo, hi]`,
/// in order.
pub open spec fn window_members(timestamps: Seq<i64>, lo: int, hi: int, n: int) -> Seq<usize>
    decreases n,
{
    if n <= 0 {
        seq![]
    } else {
        window_members(timestamps, lo, hi, n - 1) + if lo <= timestamps[n - 1] <= hi {
            seq![(n - 1) as usize]
        } else {
            seq![]
        }
    }
}

/// The non-empty windows `[pointer, pointer + step - 1]`, for `pointer` from
/// `pointer` up to `end` in steps of `step`, each with its members.
pub open spec fn windows_from(timestamps: Seq<i64>, pointer: int, end: int, step: int) -> Seq<(int, Seq<usize>)>
    decreases end - pointer + step,
{
    if step <= 0 || pointer > end {
        seq![]
    } else {
        let members = window_members(timestamps, pointer, pointer + step - 1, timestamps.len() as int);
        (if members.len() > 0 {
            seq![(pointer, members)]
        } else {
            seq![]
        }) + windows_from(timestamps, pointer + step, end, step)
    }
}

/// One candle of the coarser resolution: where its window starts, and the
/// positions of the one-minute candles that fall in it, in order.
#[derive(Debug, Clone)]
pub struct CandleWindow {
    pub start: i64,
    pub members: Vec<usize>,
}

/// The window and members of each group.
pub open spec fn window_views(groups: Seq<CandleWindow>) -> Seq<(int, Seq<usize>)> {
    Seq::new(groups.len(), |k: int| (groups[k].start as int, groups[k].members@))
}

/// The positions of the candles whose timestamps lie in `[lo, hi]`, in order.
fn members_in(timestamps: &Vec<i64>, lo: i64, hi: i64) -> (members: Vec<usize>)
    ensures
        members@ == window_members(timestamps@, lo as int, hi as int, timestamps.len() as int),
{
    let n = timestamps.len();
    let mut members: Vec<usize> = Vec::new();
    for k in 0..n
        invariant
            n == timestamps.len(),
            members@ == window_members(timestamps@, lo as int, hi as int, k as int),
    {
        if lo <= timestamps[k] && timestamps[k] <= hi {
            members.push(k);
        }
        assert(members@ =~= window_members(timestamps@, lo as int, hi as int, k + 1));
    }
    members
}

/// Groups one-minute candles into candles of `step` seconds: windows start
/// at `start` and every `step` seconds after, up to `end`; a window collects
/// the candles whose timestamps lie in it, and windows without candles are
/// left out.
pub fn group_candles(timestamps: &Vec<i64>, start: i64, end: i64, step: i64) -> (groups: Vec<CandleWindow>)
    requires
        step > 0,
        end <= i64::MAX - step,
    ensures
        window_views(groups@) == windows_from(timestamps@, start as int, end as int, step as int),
{
    let mut groups: Vec<CandleWindow> = Vec::new();
    let mut pointer: i64 = start;
    assert(window_views(groups@) =~= Seq::<(int, Seq<usize>)>::empty());
    while pointer <= end
        invariant
            step > 0,
            end <= i64::MAX - step,
            windows_from(timestamps@, start as int, end as int, step as int) == window_views(groups@)
                + windows_from(timestamps@, pointer as int, end as int, step as int),
        decreases end - pointer + step,
    {
        let members = members_in(timestamps, pointer, pointer + step - 1);
        let ghost before = window_views(groups@);
        let ghost rest = windows_from(timestamps@, pointer + step, end as int, step as int);
        if members.len() > 0 {
            let group = CandleWindow { start: pointer, members };
            let ghost item = (group.start as int, group.members@);
            groups.push(group);
            assert(window_views(groups@) =~= before.push(item));
            assert(before + (seq![item] + rest) =~= before.push(item) + rest);
        } else {
            assert(windows_from(timestamps@, pointer as int, end as int, step as int) =~= rest);
        }
        pointer = pointer + step;
    }
    groups
}

proof fn lemma_window_members(timestamps: Seq<i64>, lo: int, hi: int, n: int)
    requires
        0 <= n <= timestamps.len(),
        timestamps.len() <= usize::MAX,
    ensures
        forall|i: int|
            0 <= i < window_members(timestamps, lo, hi, n).len() ==> {
                let k = #[trigger] window_members(timestamps, lo, hi, n)[i] as int;
                0 <= k < n && lo <= timestamps[k] <= hi
            },
    decreases n,
{
    if n > 0 {
        lemma_window_members(timestamps, lo, hi, n - 1);
        let prev = window_members(timestamps, lo, hi, n - 1);
        let all = window_members(timestamps, lo, hi, n);
        assert forall|i: int| 0 <= i < all.len() implies {
            let k = #[trigger] all[i] as int;
            0 <= k < n && lo <= timestamps[k] <= hi
        } by {
            if i < prev.len() {
                assert(all[i] == prev[i]);
            } else {
                assert(lo <= timestamps[n - 1] <= hi);
                assert(all[i] == (n - 1) as usize);
            }
        }
    }
}

/// Every group of a regrouping has candles, starts at a window between the
/// first pointer and the end, holds only candles of its window, and the
/// windows of the groups follow one another without overlapping.
pub proof fn law_groups_hold_their_window(timestamps: Seq<i64>, pointer: int, end: int, step: int)
    requires
        step > 0,
        timestamps.len() <= usize::MAX,
    ensures
        forall|g: int|
            0 <= g < windows_from(timestamps, pointer, end, step).len() ==> {
                let w = #[trigger] windows_from(timestamps, pointer, end, step)[g];
                &&& w.1.len() > 0
                &&& pointer <= w.0 <= end
                &&& forall|i: int|
                    0 <= i < w.1.len() ==> w.0 <= timestamps[#[trigger] w.1[i] as int] <= w.0 + step - 1
            },
        forall|g: int, h: int|
            0 <= g < h < windows_from(timestamps, pointer, end, step).len() ==> #[trigger] windows_from(
                timestamps,
                pointer,
                end,
                step,
            )[g].0 + step <= #[trigger] windows_from(timestamps, pointer, end, step)[h].0,
    decreases end - pointer + step,
{
    if pointer <= end {
        let all = windows_from(timestamps, pointer, end, step);
        let rest = windows_from(timestamps, pointer + step, end, step);
        let members = window_members(timestamps, pointer, pointer + step - 1, timestamps.len() as int);
        law_groups_hold_their_window(timestamps, pointer + step, end, step);
        lemma_window_members(timestamps, pointer, pointer + step - 1, timestamps.len() as int);
        let head: Seq<(int, Seq<usize>)> = if members.len() > 0 {
            seq![(pointer, members)]
        } else {
            seq![]
        };
        assert(all == head + rest);
        assert forall|g: int| 0 <= g < all.len() implies {
            let w = #[trigger] all[g];
            &&& w.1.len() > 0
            &&& pointer <= w.0 <= end
            &&& forall|i: int| 0 <= i < w.1.len() ==> w.0 <= timestamps[#[trigger] w.1[i] as int] <= w.0 + step - 1
        } by {
            if g < head.len() {
                assert(all[g] == (pointer, members));
            } else {
                assert(all[g] == rest[g - head.len()]);
            }
        }
        assert forall|g: int, h: int| 0 <= g < h < all.len() implies #[trigger] all[g].0 + step
            <= #[trigger] all[h].0 by {
            assert(all[h] == rest[h - head.len()]);
            if g >= head.len() {
                assert(all[g] == rest[g - head.len()]);
            }
        }
    }
}

} // verus!
