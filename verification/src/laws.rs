//! What holds of the timer over several operations.

use vstd::prelude::*;
use crate::instant::Instant;
use crate::task::{frames_seconds, TaskView, TimeFrame};
use crate::timer::{
    after_add, after_remove, after_toggle, all_stopped, any_skewed, lemma_add_keeps,
    lemma_remove_keeps, lemma_renumbered_keeps, lemma_toggle_keeps_numbers,
    lemma_toggled_single_timer, numbered_by_place, renumbered, single_timer, toggle_applies,
    toggled,
};

verus! {

/// One change that the tracker makes to its collection.
pub ghost enum Step {
    /// A project named `project` is added at `now`.
    Add { project: Seq<char>, now: Instant },
    /// The timer of the task at `index` is toggled at `now`.
    Toggle { index: int, now: Instant },
    /// The task at `index` is removed.
    Remove { index: int },
    /// The tasks and frames are numbered by their places.
    Renumber,
}

/// The collection that a step leaves.
pub open spec fn step(tasks: Seq<TaskView>, s: Step) -> Seq<TaskView> {
    match s {
        Step::Add { project, now } => after_add(tasks, project, now),
        Step::Toggle { index, now } => after_toggle(tasks, index, now),
        Step::Remove { index } => after_remove(tasks, index),
        Step::Renumber => renumbered(tasks),
    }
}

/// The collection that a run of steps leaves, begun with no task at all.
pub open spec fn run(steps: Seq<Step>) -> Seq<TaskView>
    decreases steps.len(),
{
    if steps.len() == 0 {
        Seq::empty()
    } else {
        step(run(steps.drop_last()), steps.last())
    }
}

/// No step starts a second timer: where at most one timer runs before a
/// step, at most one runs after it.
pub proof fn lemma_step_keeps_single_timer(tasks: Seq<TaskView>, s: Step)
    requires
        single_timer(tasks),
    ensures
        single_timer(step(tasks, s)),
{
    match s {
        Step::Add { project, now } => {
            lemma_add_keeps(tasks, project, now);
        },
        Step::Toggle { index, now } => {
            if toggle_applies(tasks, index, now) {
                lemma_toggled_single_timer(tasks, index, now);
            }
        },
        Step::Remove { index } => {
            lemma_remove_keeps(tasks, index);
        },
        Step::Renumber => {
            lemma_renumbered_keeps(tasks);
        },
    }
}

/// Every step but a removal keeps tasks and frames numbered by their
/// places, and numbering them anew restores that after a removal.
pub proof fn lemma_step_keeps_numbers(tasks: Seq<TaskView>, s: Step)
    requires
        numbered_by_place(tasks),
        !(s is Remove),
    ensures
        numbered_by_place(step(tasks, s)),
{
    match s {
        Step::Add { project, now } => {
            lemma_add_keeps(tasks, project, now);
        },
        Step::Toggle { index, now } => {
            lemma_toggle_keeps_numbers(tasks, index, now);
        },
        Step::Remove { index } => {},
        Step::Renumber => {
            lemma_renumbered_keeps(tasks);
        },
    }
}

/// In every collection that the tracker can reach from the empty one, at
/// most one timer runs.
pub proof fn lemma_reachable_single_timer(steps: Seq<Step>)
    ensures
        single_timer(run(steps)),
    decreases steps.len(),
{
    if steps.len() > 0 {
        lemma_reachable_single_timer(steps.drop_last());
        lemma_step_keeps_single_timer(run(steps.drop_last()), steps.last());
    }
}

/// A toggle leaves at most one timer running, whatever ran before it.
pub proof fn lemma_toggle_restores_single_timer(tasks: Seq<TaskView>, index: int, now: Instant)
    requires
        toggle_applies(tasks, index, now),
    ensures
        single_timer(after_toggle(tasks, index, now)),
{
    lemma_toggled_single_timer(tasks, index, now);
}

/// Two toggles of a task whose timer does not run, the second not before the
/// first: the task does not run again, and has exactly one more frame, which
/// spans from the first moment to the second. With no time between the two
/// the frame starts and ends at the same moment. Every other task is as the
/// first toggle left it, with its timer stopped.
pub proof fn lemma_toggle_twice(tasks: Seq<TaskView>, index: int, first: Instant, second: Instant)
    requires
        0 <= index < tasks.len(),
        !tasks[index].is_running(),
        !any_skewed(tasks, first),
        !first.is_after(second),
    ensures
        ({
            let end = after_toggle(after_toggle(tasks, index, first), index, second);
            &&& end.len() == tasks.len()
            &&& end[index] == (TaskView {
                times: tasks[index].times.push(
                    TimeFrame {
                        id: tasks[index].times.len() as usize,
                        start_time: first,
                        end_time: second,
                    },
                ),
                ..tasks[index]
            })
            &&& !end[index].is_running()
            &&& end[index].times.len() == tasks[index].times.len() + 1
            &&& first == second ==> end[index].times.last().start_time
                == end[index].times.last().end_time
            &&& forall|j: int|
                0 <= j < tasks.len() && j != index ==> #[trigger] end[j] == tasks[j].stopped_at(
                    first,
                )
            &&& all_stopped(end)
        }),
{
    let middle = after_toggle(tasks, index, first);
    assert(middle == toggled(tasks, index, first));
    assert forall|j: int| 0 <= j < middle.len() implies !(#[trigger] middle[j]).is_skewed(
        second,
    ) by {}
    assert(toggle_applies(middle, index, second));
    let end = after_toggle(middle, index, second);
    assert(end == toggled(middle, index, second));
    assert(forall|j: int|
        0 <= j < tasks.len() && j != index ==> #[trigger] end[j] == tasks[j].stopped_at(first));
}

/// A toggle of a task whose timer does not run, while the timer of another
/// task runs and no third: the other task is stopped, with one more frame
/// from its start to `now`; the toggled task runs since `now`; every other
/// task is as it was.
pub proof fn lemma_toggle_switches(tasks: Seq<TaskView>, running: int, target: int, now: Instant)
    requires
        0 <= running < tasks.len(),
        0 <= target < tasks.len(),
        tasks[running].is_running(),
        !tasks[target].is_running(),
        single_timer(tasks),
        !tasks[running].is_skewed(now),
    ensures
        ({
            let end = after_toggle(tasks, target, now);
            &&& end.len() == tasks.len()
            &&& !end[running].is_running()
            &&& end[running] == (TaskView {
                running_since: None,
                times: tasks[running].times.push(
                    TimeFrame {
                        id: tasks[running].times.len() as usize,
                        start_time: tasks[running].running_since->0,
                        end_time: now,
                    },
                ),
                ..tasks[running]
            })
            &&& end[target] == (TaskView { running_since: Some(now), ..tasks[target] })
            &&& forall|j: int|
                0 <= j < tasks.len() && j != running && j != target ==> #[trigger] end[j]
                    == tasks[j]
        }),
{
    assert forall|j: int| 0 <= j < tasks.len() implies !(#[trigger] tasks[j]).is_skewed(now) by {
        if j != running && tasks[j].is_running() {
            assert(tasks[running].is_running());
        }
    }
    let end = after_toggle(tasks, target, now);
    assert(end == toggled(tasks, target, now));
    assert forall|j: int| 0 <= j < tasks.len() && j != running && j != target implies #[trigger] end[j]
        == tasks[j] by {
        if tasks[j].is_running() {
            assert(tasks[running].is_running());
        }
    }
}

/// A toggle of the task whose timer runs stops it and starts nothing.
pub proof fn lemma_toggle_stops(tasks: Seq<TaskView>, index: int, now: Instant)
    requires
        0 <= index < tasks.len(),
        tasks[index].is_running(),
        !any_skewed(tasks, now),
    ensures
        all_stopped(after_toggle(tasks, index, now)),
        after_toggle(tasks, index, now)[index] == tasks[index].stopped_at(now),
{
}

/// The frames of one sequence followed by another span the seconds of both.
pub proof fn lemma_frames_seconds_concat(first: Seq<TimeFrame>, second: Seq<TimeFrame>)
    ensures
        frames_seconds(first + second) == frames_seconds(first) + frames_seconds(second),
    decreases second.len(),
{
    if second.len() == 0 {
        assert(first + second =~= first);
    } else {
        lemma_frames_seconds_concat(first, second.drop_last());
        assert((first + second).drop_last() =~= first + second.drop_last());
    }
}

/// The total time of a task is the time of its closed frames and the time
/// for which its timer has been running; a task without frames whose timer
/// does not run has spent no time; and each further frame adds the seconds
/// that it spans.
pub proof fn lemma_total_is_sum(task: TaskView, now: Instant, frame: TimeFrame)
    ensures
        task.total_seconds(now) == frames_seconds(task.times) + task.current_seconds(now),
        task.times.len() == 0 && !task.is_running() ==> task.total_seconds(now) == 0,
        frames_seconds(Seq::empty()) == 0,
        frames_seconds(task.times.push(frame)) == frames_seconds(task.times) + frame.seconds(),
{
    assert(task.times.push(frame).drop_last() =~= task.times);
}

/// Stopping a timer loses no time: at the moment of the stop the task's
/// total is what it was while the timer ran.
pub proof fn lemma_stop_keeps_total(task: TaskView, now: Instant)
    ensures
        task.stopped_at(now).total_seconds(now) == task.total_seconds(now),
{
    if let Some(since) = task.running_since {
        let frame = TimeFrame { id: task.times.len() as usize, start_time: since, end_time: now };
        assert(task.times.push(frame).drop_last() =~= task.times);
    }
}

/// The frames of a well-formed task span no negative time, and each at most
/// what 64 bits hold.
pub proof fn lemma_frames_seconds_bounds(times: Seq<TimeFrame>)
    requires
        forall|i: int| 0 <= i < times.len() ==> (#[trigger] times[i]).wf(),
    ensures
        0 <= frames_seconds(times) <= times.len() * u64::MAX,
    decreases times.len(),
{
    if times.len() > 0 {
        lemma_frames_seconds_bounds(times.drop_last());
        assert(times.last().wf());
        assert((times.len() - 1) * u64::MAX + u64::MAX == times.len() * u64::MAX)
            by (nonlinear_arith);
    }
}

/// No duration of a task with well-formed times is negative, as long as its
/// timer did not start after the moment of asking; and the total is never
/// less than what the closed frames hold.
pub proof fn lemma_durations_never_negative(task: TaskView, now: Instant)
    requires
        task.times_wf(),
        !task.is_skewed(now),
    ensures
        task.current_seconds(now) >= 0,
        frames_seconds(task.times) >= 0,
        task.total_seconds(now) >= frames_seconds(task.times),
{
    lemma_frames_seconds_bounds(task.times);
}

} // verus!
