use vstd::prelude::*;

use crate::structs::Direction;

verus! {

/// A run of signal snapshots that share one direction: it starts at
/// `start_snapshot_index` and lasts until `end_snapshot_index`, where the next
/// run starts (or the last snapshot, for the final run).
#[derive(PartialEq, Eq, Structural, Debug, Clone, Copy)]
pub struct DirectionChange {
    pub start_snapshot_index: usize,
    pub end_snapshot_index: Option<usize>,
}

/// Snapshot `i` starts a new run: it is the first warmed-up snapshot and is not
/// flat, or its direction differs from the snapshot before it.
pub open spec fn is_direction_change(directions: Seq<Direction>, warmed_up_index: int, i: int) -> bool {
    &&& warmed_up_index <= i < directions.len()
    &&& if i == warmed_up_index {
        directions[i] != Direction::Flat
    } else {
        directions[i] != directions[i - 1]
    }
}

/// Some warmed-up snapshot starts a run (otherwise there is no run to close).
pub open spec fn has_direction_change(directions: Seq<Direction>, warmed_up_index: int) -> bool {
    exists|i: int| #[trigger] is_direction_change(directions, warmed_up_index, i)
}

/// `changes` lists, in increasing order, exactly the snapshots that start a run;
/// each run ends where the next one starts and the last one ends at the last snapshot.
pub open spec fn direction_changes_of(
    directions: Seq<Direction>,
    warmed_up_index: int,
    changes: Seq<DirectionChange>,
) -> bool {
    &&& forall|k: int|
        0 <= k < changes.len() ==> is_direction_change(
            directions,
            warmed_up_index,
            (#[trigger] changes[k]).start_snapshot_index as int,
        )
    &&& forall|a: int, b: int|
        0 <= a < b < changes.len() ==> (#[trigger] changes[a]).start_snapshot_index
            < (#[trigger] changes[b]).start_snapshot_index
    &&& forall|i: int|
        #[trigger] is_direction_change(directions, warmed_up_index, i) ==> exists|k: int|
            0 <= k < changes.len() && changes[k].start_snapshot_index == i
    &&& forall|a: int, b: int|
        0 <= a && b == a + 1 && b < changes.len() ==> (#[trigger] changes[a]).end_snapshot_index == Some(
            (#[trigger] changes[b]).start_snapshot_index,
        )
    &&& changes.len() > 0 ==> changes.last().end_snapshot_index == Some((directions.len() - 1) as usize)
}

/// Within a run, every snapshot up to `i` (before the run's end) has the run's direction.
proof fn lemma_run_is_uniform(
    directions: Seq<Direction>,
    warmed_up_index: int,
    changes: Seq<DirectionChange>,
    k: int,
    i: int,
)
    requires
        direction_changes_of(directions, warmed_up_index, changes),
        0 <= k < changes.len(),
        changes[k].start_snapshot_index <= i,
        k + 1 < changes.len() ==> i < changes[k + 1].start_snapshot_index,
        i < directions.len(),
    ensures
        directions[i] == directions[changes[k].start_snapshot_index as int],
    decreases i,
{
    let start = changes[k].start_snapshot_index as int;
    if i > start {
        lemma_run_is_uniform(directions, warmed_up_index, changes, k, i - 1);
        assert(is_direction_change(directions, warmed_up_index, start));
        if directions[i] != directions[i - 1] {
            assert(is_direction_change(directions, warmed_up_index, i));
            let m = choose|m: int| 0 <= m < changes.len() && changes[m].start_snapshot_index == i;
            if m <= k {
                if m < k {
                    assert(changes[m].start_snapshot_index < changes[k].start_snapshot_index);
                }
            } else if m > k + 1 {
                assert(changes[k + 1].start_snapshot_index < changes[m].start_snapshot_index);
            }
        }
    }
}

/// Every snapshot of a run has the direction of the snapshot that started it,
/// and the next run starts with a different direction.
pub proof fn law_runs_hold_one_direction(
    directions: Seq<Direction>,
    warmed_up_index: int,
    changes: Seq<DirectionChange>,
    k: int,
    i: int,
)
    requires
        direction_changes_of(directions, warmed_up_index, changes),
        0 <= k < changes.len(),
        changes[k].start_snapshot_index <= i,
        changes[k].end_snapshot_index matches Some(end) && (i < end || (k + 1 == changes.len() && i == end)),
    ensures
        directions[i] == directions[changes[k].start_snapshot_index as int],
        k + 1 < changes.len() ==> directions[changes[k + 1].start_snapshot_index as int]
            != directions[changes[k].start_snapshot_index as int],
{
    if k + 1 < changes.len() {
        assert(changes[k].end_snapshot_index == Some(changes[k + 1].start_snapshot_index));
        let next = changes[k + 1].start_snapshot_index as int;
        assert(is_direction_change(directions, warmed_up_index, next));
        assert(changes[k].start_snapshot_index < next);
        lemma_run_is_uniform(directions, warmed_up_index, changes, k, next - 1);
    } else {
        assert(changes.last() == changes[k]);
    }
    lemma_run_is_uniform(directions, warmed_up_index, changes, k, i);
}

/// Splits the warmed-up signal snapshots (given by their directions) into runs
/// of one direction. The direction held before the first warmed-up snapshot is
/// flat, so a first flat snapshot does not start a run, but a later change to
/// flat does.
pub fn build_direction_changes_from_signal_snapshots(
    signal_directions: &Vec<Direction>,
    warmed_up_index: usize,
) -> (direction_changes: Vec<DirectionChange>)
    requires
        has_direction_change(signal_directions@, warmed_up_index as int),
    ensures
        direction_changes.len() > 0,
        direction_changes_of(signal_directions@, warmed_up_index as int, direction_changes@),
{
    let ghost dirs = signal_directions@;
    let ghost w = warmed_up_index as int;
    let mut trade_direction = Direction::Flat;
    let mut direction_changes: Vec<DirectionChange> = Vec::new();
    let n = signal_directions.len();
    let mut i = warmed_up_index;
    while i < n
        invariant
            n == dirs.len(),
            dirs == signal_directions@,
            w == warmed_up_index,
            warmed_up_index <= i,
            i <= n || i == warmed_up_index,
            i == warmed_up_index ==> trade_direction == Direction::Flat,
            warmed_up_index < i <= n ==> trade_direction == dirs[i - 1],
            forall|k: int|
                0 <= k < direction_changes.len() ==> is_direction_change(
                    dirs,
                    w,
                    (#[trigger] direction_changes@[k]).start_snapshot_index as int,
                ) && direction_changes@[k].start_snapshot_index < i,
            forall|a: int, b: int|
                0 <= a < b < direction_changes.len() ==> (#[trigger] direction_changes@[a]).start_snapshot_index
                    < (#[trigger] direction_changes@[b]).start_snapshot_index,
            forall|j: int|
                #[trigger] is_direction_change(dirs, w, j) && j < i ==> exists|k: int|
                    0 <= k < direction_changes.len() && direction_changes@[k].start_snapshot_index == j,
            forall|a: int, b: int|
                0 <= a && b == a + 1 && b < direction_changes.len() ==> (#[trigger] direction_changes@[a]).end_snapshot_index
                    == Some((#[trigger] direction_changes@[b]).start_snapshot_index),
            direction_changes.len() > 0 ==> direction_changes@.last().end_snapshot_index.is_none(),
        decreases n - i,
    {
        let current_direction = signal_directions[i];
        let ghost old_changes = direction_changes@;
        if current_direction != trade_direction {
            assert(is_direction_change(dirs, w, i as int));
            // close any open run
            if direction_changes.len() != 0 {
                let last_direction_change_index = direction_changes.len() - 1;
                let last = direction_changes[last_direction_change_index];
                direction_changes.set(
                    last_direction_change_index,
                    DirectionChange { start_snapshot_index: last.start_snapshot_index, end_snapshot_index: Some(i) },
                );
            }
            // open a new run
            direction_changes.push(DirectionChange { start_snapshot_index: i, end_snapshot_index: None });
            trade_direction = current_direction;
            assert(direction_changes.len() == old_changes.len() + 1);
            assert forall|k: int| 0 <= k < old_changes.len() implies
                (#[trigger] direction_changes@[k]).start_snapshot_index == old_changes[k].start_snapshot_index by {}
            assert forall|j: int| #[trigger] is_direction_change(dirs, w, j) && j < i + 1 implies exists|k: int|
                0 <= k < direction_changes.len() && direction_changes@[k].start_snapshot_index == j by {
                if j == i {
                    assert(direction_changes@[old_changes.len() as int].start_snapshot_index == j);
                } else {
                    let k = choose|k: int| 0 <= k < old_changes.len() && old_changes[k].start_snapshot_index == j;
                    assert(direction_changes@[k].start_snapshot_index == j);
                }
            }
        } else {
            assert(!is_direction_change(dirs, w, i as int));
        }
        i = i + 1;
    }
    proof {
        let j = choose|j: int| #[trigger] is_direction_change(dirs, w, j);
        assert(j < i);
    }
    // close the last run at the last snapshot
    let ghost before = direction_changes@;
    let last_direction_change_index = direction_changes.len() - 1;
    let last = direction_changes[last_direction_change_index];
    direction_changes.set(
        last_direction_change_index,
        DirectionChange { start_snapshot_index: last.start_snapshot_index, end_snapshot_index: Some(n - 1) },
    );
    assert forall|k: int| 0 <= k < before.len() implies
        (#[trigger] direction_changes@[k]).start_snapshot_index == before[k].start_snapshot_index by {}
    assert forall|j: int| #[trigger] is_direction_change(dirs, w, j) implies exists|k: int|
        0 <= k < direction_changes.len() && direction_changes@[k].start_snapshot_index == j by {
        let k = choose|k: int| 0 <= k < before.len() && before[k].start_snapshot_index == j;
        assert(direction_changes@[k].start_snapshot_index == j);
    }
    direction_changes
}

/// Whether some warmed-up snapshot starts a run.
pub fn any_direction_change(signal_directions: &Vec<Direction>, warmed_up_index: usize) -> (found: bool)
    ensures
        found == has_direction_change(signal_directions@, warmed_up_index as int),
{
    let n = signal_directions.len();
    let mut i = warmed_up_index;
    while i < n
        invariant
            n == signal_directions.len(),
            warmed_up_index <= i,
            forall|j: int| j < i ==> !#[trigger] is_direction_change(signal_directions@, warmed_up_index as int, j),
        decreases n - i,
    {
        let starts = if i == warmed_up_index {
            signal_directions[i] != Direction::Flat
        } else {
            signal_directions[i] != signal_directions[i - 1]
        };
        if starts {
            assert(is_direction_change(signal_directions@, warmed_up_index as int, i as int));
            return true;
        }
        i = i + 1;
    }
    false
}

/// Like `build_direction_changes_from_signal_snapshots`, for any snapshots:
/// `None` when no warmed-up snapshot starts a run.
pub fn checked_build_direction_changes_from_signal_snapshots(
    signal_directions: &Vec<Direction>,
    warmed_up_index: usize,
) -> (direction_changes: Option<Vec<DirectionChange>>)
    ensures
        match direction_changes {
            Some(changes) => {
                &&& changes.len() > 0
                &&& direction_changes_of(signal_directions@, warmed_up_index as int, changes@)
            },
            None => !has_direction_change(signal_directions@, warmed_up_index as int),
        },
{
    if any_direction_change(signal_directions, warmed_up_index) {
        Some(build_direction_changes_from_signal_snapshots(signal_directions, warmed_up_index))
    } else {
        None
    }
}

} // verus!
