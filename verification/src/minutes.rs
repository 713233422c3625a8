use vstd::prelude::*;

verus! {

/// The number of whole minutes stepped through from `start` up to and
/// including `end`: `start`, `start + 60`, ... while not past `end`.
pub open spec fn minute_count(start: i64, end: i64) -> nat {
    if end < start {
        0
    } else {
        ((end - start) / 60 + 1) as nat
    }
}

/// The minutes of a session, one every 60 seconds from `start` up to and
/// including `end` (none when `end` is before `start`).
pub fn session_minutes(start: i64, end: i64) -> (minutes: Vec<i64>)
    requires
        end <= i64::MAX - 60,
    ensures
        minutes.len() == minute_count(start, end),
        forall|k: int| 0 <= k < minutes.len() ==> #[trigger] minutes@[k] == start + 60 * k,
{
    let mut minutes: Vec<i64> = Vec::new();
    let mut pointer = start;
    while pointer <= end
        invariant
            end <= i64::MAX - 60,
            pointer == start + 60 * minutes.len(),
            minutes.len() > 0 ==> pointer <= end + 60,
            forall|k: int| 0 <= k < minutes.len() ==> #[trigger] minutes@[k] == start + 60 * k,
        decreases end + 60 - pointer,
    {
        minutes.push(pointer);
        pointer = pointer + 60;
    }
    proof {
        let n = minutes.len() as int;
        if n > 0 {
            let d = end - start;
            assert(60 * (n - 1) <= d < 60 * n);
            assert(d / 60 == n - 1) by (nonlinear_arith)
                requires
                    60 * (n - 1) <= d < 60 * n,
            ;
        }
    }
    minutes
}

/// How many of `timestamps` lie strictly before `pointer`.
pub open spec fn count_before(timestamps: Seq<i64>, pointer: i64) -> nat
    decreases timestamps.len(),
{
    if timestamps.len() == 0 {
        0
    } else {
        count_before(timestamps.drop_last(), pointer) + if timestamps.last() < pointer {
            1nat
        } else {
            0nat
        }
    }
}

proof fn lemma_count_before_bound(timestamps: Seq<i64>, pointer: i64)
    ensures
        count_before(timestamps, pointer) <= timestamps.len(),
    decreases timestamps.len(),
{
    if timestamps.len() > 0 {
        lemma_count_before_bound(timestamps.drop_last(), pointer);
    }
}

/// Counts the candles (given by their timestamps) that closed before
/// `pointer`, the candles known at that minute.
pub fn count_candles_before(timestamps: &Vec<i64>, pointer: i64) -> (count: usize)
    ensures
        count == count_before(timestamps@, pointer),
{
    let mut count: usize = 0;
    let n = timestamps.len();
    let mut i: usize = 0;
    while i < n
        invariant
            n == timestamps.len(),
            i <= n,
            count == count_before(timestamps@.subrange(0, i as int), pointer),
        decreases n - i,
    {
        proof {
            let prefix = timestamps@.subrange(0, i as int + 1);
            assert(prefix.drop_last() == timestamps@.subrange(0, i as int));
            lemma_count_before_bound(timestamps@.subrange(0, i as int), pointer);
        }
        if timestamps[i] < pointer {
            count = count + 1;
        }
        i = i + 1;
    }
    proof {
        assert(timestamps@.subrange(0, n as int) == timestamps@);
    }
    count
}

/// A later minute has at least as many candles before it as an earlier one,
/// so once enough candles are known to warm an indicator up, it stays warm.
pub proof fn law_warm_up_lasts(timestamps: Seq<i64>, earlier: i64, later: i64)
    requires
        earlier <= later,
    ensures
        count_before(timestamps, earlier) <= count_before(timestamps, later),
    decreases timestamps.len(),
{
    if timestamps.len() > 0 {
        law_warm_up_lasts(timestamps.drop_last(), earlier, later);
    }
}

/// How many minutes the next entry moves ahead after a trade that opened at
/// `start_timestamp` and exited at `exit_timestamp`: the trade's whole
/// minutes, and at least one when it exited within the minute it opened.
pub open spec fn entry_step(start_timestamp: i64, exit_timestamp: i64) -> int {
    let minutes = (exit_timestamp - start_timestamp) / 60;
    if minutes == 0 {
        1
    } else {
        minutes
    }
}

/// The candle index of the next entry within a direction window, after the
/// trade entered at candle `index` and held from `start_timestamp` to
/// `exit_timestamp`; entries never overlap a trade still held.
pub fn next_entry_index(index: usize, start_timestamp: i64, exit_timestamp: i64) -> (next: usize)
    requires
        start_timestamp <= exit_timestamp,
        exit_timestamp - start_timestamp <= i64::MAX,
        index + entry_step(start_timestamp, exit_timestamp) <= usize::MAX,
    ensures
        next == index + entry_step(start_timestamp, exit_timestamp),
        next > index,
{
    let trade_duration = (exit_timestamp - start_timestamp) / 60;
    if trade_duration == 0 {
        index + 1
    } else {
        index + trade_duration as usize
    }
}

} // verus!
