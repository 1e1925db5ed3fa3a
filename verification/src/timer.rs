//! The collection of tasks and the one timer that runs in it.

use vstd::prelude::*;
use crate::clock::utc_now;
use crate::error::TrackerError;
use crate::instant::Instant;
use crate::task::{views, Task, TaskView, TimeFrame};

verus! {

/// Every task of the collection is well formed.
pub open spec fn tasks_wf(tasks: Seq<TaskView>) -> bool {
    forall|i: int| 0 <= i < tasks.len() ==> (#[trigger] tasks[i]).wf()
}

/// The times of every task of the collection are well formed.
pub open spec fn timers_wf(tasks: Seq<TaskView>) -> bool {
    forall|i: int| 0 <= i < tasks.len() ==> (#[trigger] tasks[i]).times_wf()
}

/// At most one timer runs.
pub open spec fn single_timer(tasks: Seq<TaskView>) -> bool {
    forall|i: int, j: int|
        0 <= i < tasks.len() && 0 <= j < tasks.len() && (#[trigger] tasks[i]).is_running() && (
        #[trigger] tasks[j]).is_running() ==> i == j
}

/// No timer runs.
pub open spec fn all_stopped(tasks: Seq<TaskView>) -> bool {
    forall|i: int| 0 <= i < tasks.len() ==> !(#[trigger] tasks[i]).is_running()
}

/// Some timer of the collection is said to have started after `now`.
pub open spec fn any_skewed(tasks: Seq<TaskView>, now: Instant) -> bool {
    exists|i: int| 0 <= i < tasks.len() && (#[trigger] tasks[i]).is_skewed(now)
}

/// The collection after the timer of task `index` was toggled at `now`:
/// every running timer is stopped at `now`, and where the task at `index` was
/// not running its timer then starts at `now`.
pub open spec fn toggled(tasks: Seq<TaskView>, index: int, now: Instant) -> Seq<TaskView> {
    Seq::new(
        tasks.len(),
        |j: int|
            if j == index && !tasks[index].is_running() {
                tasks[j].stopped_at(now).started_at(now)
            } else {
                tasks[j].stopped_at(now)
            },
    )
}

/// Whether a toggle of task `index` at `now` is carried out: the index
/// addresses a task and no timer started after `now`.
pub open spec fn toggle_applies(tasks: Seq<TaskView>, index: int, now: Instant) -> bool {
    0 <= index < tasks.len() && !any_skewed(tasks, now)
}

/// The collection that a toggle of task `index` at `now` leaves: the toggled
/// one where the toggle is carried out, else the one it found.
pub open spec fn after_toggle(tasks: Seq<TaskView>, index: int, now: Instant) -> Seq<TaskView> {
    if toggle_applies(tasks, index, now) {
        toggled(tasks, index, now)
    } else {
        tasks
    }
}

/// `r` is what a toggle of task `index` at `now` owes its caller: success
/// where it is carried out, the index error where `index` addresses no
/// task, else the clock skew error.
pub open spec fn is_toggle_result(
    tasks: Seq<TaskView>,
    index: int,
    now: Instant,
    r: Result<(), TrackerError>,
) -> bool {
    match r {
        Ok(_) => toggle_applies(tasks, index, now),
        Err(e) => if 0 <= index < tasks.len() {
            any_skewed(tasks, now) && e is ClockSkew
        } else {
            e is IndexOutOfRange
        },
    }
}

/// The task that is made for a project named `project` at `now`, as the
/// next of a collection of `count` tasks.
pub open spec fn created(count: nat, project: Seq<char>, now: Instant) -> TaskView {
    TaskView {
        id: count as usize,
        project,
        created_at: now,
        running_since: None,
        times: Seq::empty(),
    }
}

/// The collection that is left when a project named `project` is to be
/// added at `now`: nothing is added for an empty name.
pub open spec fn after_add(tasks: Seq<TaskView>, project: Seq<char>, now: Instant) -> Seq<
    TaskView,
> {
    if project.len() == 0 {
        tasks
    } else {
        tasks.push(created(tasks.len(), project, now))
    }
}

/// The collection that is left when the task at `index` is to be removed:
/// nothing is removed where `index` addresses no task.
pub open spec fn after_remove(tasks: Seq<TaskView>, index: int) -> Seq<TaskView> {
    if 0 <= index < tasks.len() {
        tasks.remove(index)
    } else {
        tasks
    }
}

/// The frames, each numbered by its place.
pub open spec fn renumbered_frames(times: Seq<TimeFrame>) -> Seq<TimeFrame> {
    Seq::new(times.len(), |k: int| TimeFrame { id: k as usize, ..times[k] })
}

/// The collection with each task and each frame numbered by its place.
pub open spec fn renumbered(tasks: Seq<TaskView>) -> Seq<TaskView> {
    Seq::new(
        tasks.len(),
        |i: int|
            TaskView { id: i as usize, times: renumbered_frames(tasks[i].times), ..tasks[i] },
    )
}

/// Each task and each frame is numbered by its place.
pub open spec fn numbered_by_place(tasks: Seq<TaskView>) -> bool {
    forall|i: int|
        0 <= i < tasks.len() ==> {
            &&& (#[trigger] tasks[i]).id == i as usize
            &&& forall|k: int|
                0 <= k < tasks[i].times.len() ==> (#[trigger] tasks[i].times[k]).id == k as usize
        }
}

/// Tells whether every task of the collection is well formed.
pub fn check_tasks(tasks: &Vec<Task>) -> (r: bool)
    ensures
        r == tasks_wf(views(tasks@)),
{
    let mut i: usize = 0;
    while i < tasks.len()
        invariant
            0 <= i <= tasks.len(),
            forall|j: int| 0 <= j < i ==> (#[trigger] views(tasks@)[j]).wf(),
        decreases tasks.len() - i,
    {
        if !tasks[i].is_valid() {
            assert(!views(tasks@)[i as int].wf());
            return false;
        }
        i = i + 1;
    }
    true
}

/// Counts the timers that run.
pub open spec fn running_count(tasks: Seq<TaskView>) -> nat
    decreases tasks.len(),
{
    if tasks.len() == 0 {
        0
    } else {
        running_count(tasks.drop_last()) + if tasks.last().is_running() {
            1nat
        } else {
            0nat
        }
    }
}

/// Tells whether the times of every task of the collection are well formed.
pub fn check_times(tasks: &Vec<Task>) -> (r: bool)
    ensures
        r == timers_wf(views(tasks@)),
{
    let mut i: usize = 0;
    while i < tasks.len()
        invariant
            0 <= i <= tasks.len(),
            forall|j: int| 0 <= j < i ==> (#[trigger] views(tasks@)[j]).times_wf(),
        decreases tasks.len() - i,
    {
        if !tasks[i].has_valid_times() {
            assert(!views(tasks@)[i as int].times_wf());
            return false;
        }
        i = i + 1;
    }
    true
}

/// Counts the timers that run.
pub fn count_running(tasks: &Vec<Task>) -> (r: usize)
    ensures
        r == running_count(views(tasks@)),
{
    let mut count: usize = 0;
    let mut i: usize = 0;
    while i < tasks.len()
        invariant
            0 <= i <= tasks.len(),
            count <= i,
            count == running_count(views(tasks@).take(i as int)),
        decreases tasks.len() - i,
    {
        proof {
            let all = views(tasks@);
            assert(all.take(i + 1).drop_last() =~= all.take(i as int));
            assert(all.take(i + 1).last() == all[i as int]);
        }
        if tasks[i].is_running() {
            count = count + 1;
        }
        i = i + 1;
    }
    assert(views(tasks@).take(i as int) =~= views(tasks@));
    count
}

/// Where no timer runs the count of running timers is zero, and where at
/// most one runs it is at most one; and a count of at most one means that
/// at most one runs.
pub proof fn lemma_running_count(tasks: Seq<TaskView>)
    ensures
        all_stopped(tasks) <==> running_count(tasks) == 0,
        single_timer(tasks) <==> running_count(tasks) <= 1,
    decreases tasks.len(),
{
    if tasks.len() > 0 {
        let front = tasks.drop_last();
        let last = tasks.len() - 1;
        lemma_running_count(front);
        assert(forall|i: int| 0 <= i < front.len() ==> front[i] == tasks[i]);
        if all_stopped(tasks) {
            assert(all_stopped(front));
            assert(!tasks[last].is_running());
        }
        if running_count(tasks) == 0 {
            assert forall|i: int| 0 <= i < tasks.len() implies !(#[trigger] tasks[i]).is_running() by {
                if i < last {
                    assert(!front[i].is_running());
                }
            }
        }
        if single_timer(tasks) {
            assert forall|i: int, j: int|
                0 <= i < front.len() && 0 <= j < front.len() && (#[trigger] front[i]).is_running()
                    && (#[trigger] front[j]).is_running() implies i == j by {
                assert(tasks[i].is_running() && tasks[j].is_running());
            }
            if tasks[last].is_running() {
                assert forall|i: int| 0 <= i < front.len() implies !(#[trigger] front[i]).is_running() by {
                    if front[i].is_running() {
                        assert(tasks[i].is_running() && tasks[last].is_running());
                    }
                }
            }
        }
        if running_count(tasks) <= 1 {
            assert forall|i: int, j: int|
                0 <= i < tasks.len() && 0 <= j < tasks.len() && (#[trigger] tasks[i]).is_running()
                    && (#[trigger] tasks[j]).is_running() implies i == j by {
                if tasks[last].is_running() {
                    assert(all_stopped(front));
                    if i < last {
                        assert(!front[i].is_running());
                    }
                    if j < last {
                        assert(!front[j].is_running());
                    }
                } else {
                    assert(front[i].is_running() && front[j].is_running());
                }
            }
        }
    }
}

/// Tells whether some timer of the collection started after `now`.
fn find_skew(tasks: &Vec<Task>, now: &Instant) -> (r: bool)
    ensures
        r == any_skewed(views(tasks@), *now),
{
    let mut i: usize = 0;
    while i < tasks.len()
        invariant
            0 <= i <= tasks.len(),
            forall|j: int| 0 <= j < i ==> !(#[trigger] views(tasks@)[j]).is_skewed(*now),
        decreases tasks.len() - i,
    {
        if let Some(since) = tasks[i].running_since {
            if since.after(now) {
                assert(views(tasks@)[i as int].is_skewed(*now));
                return true;
            }
        }
        i = i + 1;
    }
    false
}

/// Starts or stops the timer of the task at `index`, at the moment `now`.
///
/// Every timer that runs is stopped: its time since it started becomes a new
/// last frame of its task. Where the task at `index` was not running, its
/// timer then starts. So a toggle of the running task stops it and starts
/// nothing, a toggle of another task switches the timer over to it, and at
/// most one timer runs afterwards, whatever ran before.
///
/// With an `index` that addresses no task, or with a timer that started
/// after `now`, the collection stays as it is and the error says which.
pub fn toggle(tasks: &mut Vec<Task>, index: usize, now: Instant) -> (r: Result<(), TrackerError>)
    ensures
        is_toggle_result(views(old(tasks)@), index as int, now, r),
        views(final(tasks)@) == after_toggle(views(old(tasks)@), index as int, now),
        r is Ok ==> single_timer(views(final(tasks)@)),
        r is Ok ==> (views(final(tasks)@)[index as int].is_running() <==> !views(
            old(tasks)@,
        )[index as int].is_running()),
        tasks_wf(views(old(tasks)@)) && now.wf() ==> tasks_wf(views(final(tasks)@)),
        timers_wf(views(old(tasks)@)) && now.wf() ==> timers_wf(views(final(tasks)@)),
        numbered_by_place(views(old(tasks)@)) ==> numbered_by_place(views(final(tasks)@)),
{
    let ghost before = views(tasks@);
    if index >= tasks.len() {
        return Err(TrackerError::IndexOutOfRange);
    }
    if find_skew(tasks, &now) {
        return Err(TrackerError::ClockSkew);
    }
    let was_running = tasks[index].is_running();
    let count = tasks.len();
    let mut i: usize = 0;
    while i < count
        invariant
            0 <= i <= count,
            index < count,
            count == tasks.len(),
            before.len() == count,
            was_running == before[index as int].is_running(),
            forall|j: int| 0 <= j < i ==> (#[trigger] tasks[j])@ == before[j].stopped_at(now),
            forall|j: int| i <= j < count ==> (#[trigger] tasks[j])@ == before[j],
        decreases count - i,
    {
        if let Some(since) = tasks[i].running_since {
            let task = &mut tasks[i];
            let id = task.times.len();
            task.running_since = None;
            task.times.push(TimeFrame { id, start_time: since, end_time: now });
        }
        i = i + 1;
    }
    if !was_running {
        let task = &mut tasks[index];
        task.running_since = Some(now);
    }
    proof {
        let after = views(tasks@);
        assert(after =~= toggled(before, index as int, now));
        lemma_toggled_single_timer(before, index as int, now);
        if tasks_wf(before) && now.wf() {
            lemma_toggled_wf(before, index as int, now);
        }
        if timers_wf(before) && now.wf() {
            lemma_times_kept(before, index as int, Seq::empty(), now);
        }
        if numbered_by_place(before) {
            lemma_toggle_keeps_numbers(before, index as int, now);
        }
    }
    Ok(())
}

/// Starts or stops the timer of the task at `index` at the moment that the
/// system clock gives: what `toggle` does for some moment.
///
/// chrono reads the clock as the time since the Unix epoch and panics where
/// the system clock is set before it.
pub fn toggle_now(tasks: &mut Vec<Task>, index: usize) -> (r: Result<(), TrackerError>)
    ensures
        exists|now: Instant|
            now.wf() && #[trigger] is_toggle_result(views(old(tasks)@), index as int, now, r)
                && views(final(tasks)@) == after_toggle(views(old(tasks)@), index as int, now),
        index >= old(tasks).len() ==> r is Err,
        r is Ok ==> single_timer(views(final(tasks)@)),
        tasks_wf(views(old(tasks)@)) ==> tasks_wf(views(final(tasks)@)),
        timers_wf(views(old(tasks)@)) ==> timers_wf(views(final(tasks)@)),
        numbered_by_place(views(old(tasks)@)) ==> numbered_by_place(views(final(tasks)@)),
{
    let now = utc_now();
    toggle(tasks, index, now)
}

/// Adds a task for the project named `project`, made at `now`, at the end
/// of the collection. Its number is its place, it has no frames and its
/// timer does not run. An empty name is refused and nothing is added.
pub fn add_task(tasks: &mut Vec<Task>, project: String, now: Instant) -> (r: Result<
    (),
    TrackerError,
>)
    ensures
        views(final(tasks)@) == after_add(views(old(tasks)@), project@, now),
        project@.len() == 0 <==> r is Err,
        r matches Err(e) ==> e is EmptyInputRejected,
        single_timer(views(old(tasks)@)) ==> single_timer(views(final(tasks)@)),
        tasks_wf(views(old(tasks)@)) && now.wf() ==> tasks_wf(views(final(tasks)@)),
        timers_wf(views(old(tasks)@)) ==> timers_wf(views(final(tasks)@)),
        numbered_by_place(views(old(tasks)@)) ==> numbered_by_place(views(final(tasks)@)),
{
    let ghost before = views(tasks@);
    if project.as_str().is_empty() {
        return Err(TrackerError::EmptyInputRejected);
    }
    let ghost name = project@;
    let id = tasks.len();
    tasks.push(Task::new(id, project, now));
    proof {
        assert(views(tasks@) =~= before.push(created(before.len(), name, now)));
        lemma_add_keeps(before, name, now);
        if timers_wf(before) {
            lemma_times_kept(before, 0, name, now);
        }
    }
    Ok(())
}

/// Adds a task for the project named `project`, made at the moment that the
/// system clock gives: what `add_task` does for some moment.
///
/// chrono reads the clock as the time since the Unix epoch and panics where
/// the system clock is set before it.
pub fn add_task_now(tasks: &mut Vec<Task>, project: String) -> (r: Result<(), TrackerError>)
    ensures
        exists|now: Instant|
            now.wf() && views(final(tasks)@) == #[trigger] after_add(
                views(old(tasks)@),
                project@,
                now,
            ),
        project@.len() == 0 <==> r is Err,
        r matches Err(e) ==> e is EmptyInputRejected,
        single_timer(views(old(tasks)@)) ==> single_timer(views(final(tasks)@)),
        tasks_wf(views(old(tasks)@)) ==> tasks_wf(views(final(tasks)@)),
        timers_wf(views(old(tasks)@)) ==> timers_wf(views(final(tasks)@)),
        numbered_by_place(views(old(tasks)@)) ==> numbered_by_place(views(final(tasks)@)),
{
    let now = utc_now();
    add_task(tasks, project, now)
}

/// Removes the task at `index` and hands it back; the tasks behind it move
/// up by one place and keep their numbers. Where `index` addresses no task
/// the collection stays as it is.
pub fn remove_task(tasks: &mut Vec<Task>, index: usize) -> (r: Result<Task, TrackerError>)
    ensures
        views(final(tasks)@) == after_remove(views(old(tasks)@), index as int),
        index >= old(tasks).len() <==> r is Err,
        r matches Err(e) ==> e is IndexOutOfRange,
        r matches Ok(task) ==> task@ == views(old(tasks)@)[index as int],
        single_timer(views(old(tasks)@)) ==> single_timer(views(final(tasks)@)),
        tasks_wf(views(old(tasks)@)) ==> tasks_wf(views(final(tasks)@)),
        timers_wf(views(old(tasks)@)) ==> timers_wf(views(final(tasks)@)),
{
    let ghost before = views(tasks@);
    if index >= tasks.len() {
        return Err(TrackerError::IndexOutOfRange);
    }
    let task = tasks.remove(index);
    proof {
        assert(views(tasks@) =~= before.remove(index as int));
        lemma_remove_keeps(before, index as int);
        if timers_wf(before) {
            lemma_times_kept(before, index as int, Seq::empty(), Instant { secs: 0, nanos: 0 });
        }
    }
    Ok(task)
}

/// Numbers each frame by its place.
fn renumber_frames(times: &mut Vec<TimeFrame>)
    ensures
        final(times)@ == renumbered_frames(old(times)@),
{
    let ghost before = times@;
    let count = times.len();
    let mut k: usize = 0;
    while k < count
        invariant
            0 <= k <= count,
            count == times.len(),
            before.len() == count,
            forall|n: int| 0 <= n < k ==> (#[trigger] times[n]) == (TimeFrame { id: n as usize, ..before[n] }),
            forall|n: int| k <= n < count ==> (#[trigger] times[n]) == before[n],
        decreases count - k,
    {
        let frame = &mut times[k];
        frame.id = k;
        k = k + 1;
    }
    assert(times@ =~= renumbered_frames(before));
}

/// Numbers each task and each frame by its place, as they are when a
/// collection is taken from the store. Nothing else changes.
pub fn renumber(tasks: &mut Vec<Task>)
    ensures
        views(final(tasks)@) == renumbered(views(old(tasks)@)),
        numbered_by_place(views(final(tasks)@)),
        single_timer(views(old(tasks)@)) ==> single_timer(views(final(tasks)@)),
        tasks_wf(views(old(tasks)@)) ==> tasks_wf(views(final(tasks)@)),
        timers_wf(views(old(tasks)@)) ==> timers_wf(views(final(tasks)@)),
{
    let ghost before = views(tasks@);
    let count = tasks.len();
    let mut i: usize = 0;
    while i < count
        invariant
            0 <= i <= count,
            count == tasks.len(),
            before.len() == count,
            forall|j: int| 0 <= j < i ==> (#[trigger] tasks[j])@ == renumbered(before)[j],
            forall|j: int| i <= j < count ==> (#[trigger] tasks[j])@ == before[j],
        decreases count - i,
    {
        let task = &mut tasks[i];
        task.id = i;
        renumber_frames(&mut task.times);
        i = i + 1;
    }
    proof {
        assert(views(tasks@) =~= renumbered(before));
        lemma_renumbered_keeps(before);
        if timers_wf(before) {
            lemma_times_kept(before, 0, Seq::empty(), Instant { secs: 0, nanos: 0 });
        }
    }
}

/// Adding a task keeps what held of the collection: at most one timer runs,
/// the tasks are well formed, and each is numbered by its place.
pub proof fn lemma_add_keeps(tasks: Seq<TaskView>, project: Seq<char>, now: Instant)
    ensures
        single_timer(tasks) ==> single_timer(after_add(tasks, project, now)),
        all_stopped(tasks) ==> all_stopped(after_add(tasks, project, now)),
        tasks_wf(tasks) && now.wf() ==> tasks_wf(after_add(tasks, project, now)),
        numbered_by_place(tasks) ==> numbered_by_place(after_add(tasks, project, now)),
{
    let after = after_add(tasks, project, now);
    if project.len() > 0 {
        assert(forall|i: int| 0 <= i < tasks.len() ==> after[i] == tasks[i]);
        assert(!after[tasks.len() as int].is_running());
        if tasks_wf(tasks) && now.wf() {
            assert forall|i: int| 0 <= i < after.len() implies (#[trigger] after[i]).wf() by {
                if i < tasks.len() {
                    assert(tasks[i].wf());
                }
            }
        }
        if numbered_by_place(tasks) {
            assert forall|i: int| 0 <= i < after.len() implies {
                &&& (#[trigger] after[i]).id == i as usize
                &&& forall|k: int|
                    0 <= k < after[i].times.len() ==> (#[trigger] after[i].times[k]).id
                        == k as usize
            } by {
                if i < tasks.len() {
                    assert(tasks[i].id == i as usize);
                }
            }
        }
    }
}

/// Removing a task keeps what held of the collection: at most one timer
/// runs, and the tasks are well formed.
pub proof fn lemma_remove_keeps(tasks: Seq<TaskView>, index: int)
    ensures
        single_timer(tasks) ==> single_timer(after_remove(tasks, index)),
        all_stopped(tasks) ==> all_stopped(after_remove(tasks, index)),
        tasks_wf(tasks) ==> tasks_wf(after_remove(tasks, index)),
{
    let after = after_remove(tasks, index);
    if 0 <= index < tasks.len() {
        assert forall|i: int| 0 <= i < after.len() implies after[i] == tasks[if i < index {
            i
        } else {
            i + 1
        }] by {}
        if single_timer(tasks) {
            assert forall|i: int, j: int|
                0 <= i < after.len() && 0 <= j < after.len() && (#[trigger] after[i]).is_running()
                    && (#[trigger] after[j]).is_running() implies i == j by {
                let a = if i < index { i } else { i + 1 };
                let b = if j < index { j } else { j + 1 };
                assert(tasks[a].is_running() && tasks[b].is_running());
            }
        }
        if all_stopped(tasks) {
            assert forall|i: int| 0 <= i < after.len() implies !(#[trigger] after[i]).is_running() by {
                let a = if i < index { i } else { i + 1 };
                assert(!tasks[a].is_running());
            }
        }
        if tasks_wf(tasks) {
            assert forall|i: int| 0 <= i < after.len() implies (#[trigger] after[i]).wf() by {
                let a = if i < index { i } else { i + 1 };
                assert(tasks[a].wf());
            }
        }
    }
}

/// Numbering by place changes the numbers and nothing else: the same timers
/// run, the tasks stay well formed, and a second numbering changes nothing.
pub proof fn lemma_renumbered_keeps(tasks: Seq<TaskView>)
    ensures
        numbered_by_place(renumbered(tasks)),
        renumbered(renumbered(tasks)) == renumbered(tasks),
        numbered_by_place(tasks) ==> renumbered(tasks) == tasks,
        single_timer(tasks) ==> single_timer(renumbered(tasks)),
        tasks_wf(tasks) ==> tasks_wf(renumbered(tasks)),
        forall|i: int|
            0 <= i < tasks.len() ==> {
                let new = #[trigger] renumbered(tasks)[i];
                &&& new.project == tasks[i].project
                &&& new.created_at == tasks[i].created_at
                &&& new.running_since == tasks[i].running_since
                &&& new.times.len() == tasks[i].times.len()
                &&& forall|k: int|
                    0 <= k < new.times.len() ==> (#[trigger] new.times[k]).start_time
                        == tasks[i].times[k].start_time && new.times[k].end_time
                        == tasks[i].times[k].end_time
            },
{
    let after = renumbered(tasks);
    assert forall|i: int| 0 <= i < after.len() implies renumbered_frames(after[i].times)
        =~= after[i].times by {}
    assert(renumbered(after) =~= after);
    if numbered_by_place(tasks) {
        assert forall|i: int| 0 <= i < tasks.len() implies after[i] == tasks[i] by {
            assert(tasks[i].id == i as usize);
            assert forall|k: int| 0 <= k < tasks[i].times.len() implies renumbered_frames(
                tasks[i].times,
            )[k] == tasks[i].times[k] by {
                assert(tasks[i].times[k].id == k as usize);
            }
            assert(renumbered_frames(tasks[i].times) =~= tasks[i].times);
        }
        assert(after =~= tasks);
    }
    if single_timer(tasks) {
        assert forall|i: int, j: int|
            0 <= i < after.len() && 0 <= j < after.len() && (#[trigger] after[i]).is_running()
                && (#[trigger] after[j]).is_running() implies i == j by {
            assert(tasks[i].is_running() && tasks[j].is_running());
        }
    }
    if tasks_wf(tasks) {
        assert forall|i: int| 0 <= i < after.len() implies (#[trigger] after[i]).wf() by {
            assert(tasks[i].wf());
            assert forall|k: int| 0 <= k < after[i].times.len() implies (
            #[trigger] after[i].times[k]).wf() by {
                assert(tasks[i].times[k].wf());
            }
        }
    }
}

/// After a toggle that is carried out, the only timer that may run is that of
/// the toggled task, and it runs just where it did not run before.
pub proof fn lemma_toggled_single_timer(tasks: Seq<TaskView>, index: int, now: Instant)
    requires
        0 <= index < tasks.len(),
    ensures
        single_timer(toggled(tasks, index, now)),
        forall|j: int|
            0 <= j < tasks.len() && j != index ==> !(#[trigger] toggled(
                tasks,
                index,
                now,
            )[j]).is_running(),
        toggled(tasks, index, now)[index].is_running() <==> !tasks[index].is_running(),
{
}

/// A toggle at a canonical moment that no timer started after keeps a well
/// formed collection well formed.
pub proof fn lemma_toggled_wf(tasks: Seq<TaskView>, index: int, now: Instant)
    requires
        0 <= index < tasks.len(),
        tasks_wf(tasks),
        now.wf(),
        !any_skewed(tasks, now),
    ensures
        tasks_wf(toggled(tasks, index, now)),
{
    let after = toggled(tasks, index, now);
    assert forall|j: int| 0 <= j < after.len() implies (#[trigger] after[j]).wf() by {
        assert(tasks[j].wf());
        assert(!tasks[j].is_skewed(now));
        let stopped = tasks[j].stopped_at(now);
        assert forall|k: int| 0 <= k < stopped.times.len() implies (#[trigger] stopped.times[k]).wf() by {
            if k < tasks[j].times.len() {
                assert(tasks[j].times[k].wf());
            }
        }
    }
}

/// No change makes the times of a collection ill formed: not a toggle at a
/// canonical moment, nor a task added, nor one removed, nor a new numbering.
pub proof fn lemma_times_kept(tasks: Seq<TaskView>, index: int, project: Seq<char>, now: Instant)
    requires
        timers_wf(tasks),
    ensures
        now.wf() ==> timers_wf(after_toggle(tasks, index, now)),
        timers_wf(after_add(tasks, project, now)),
        timers_wf(after_remove(tasks, index)),
        timers_wf(renumbered(tasks)),
{
    if now.wf() && toggle_applies(tasks, index, now) {
        let after = toggled(tasks, index, now);
        assert forall|j: int| 0 <= j < after.len() implies (#[trigger] after[j]).times_wf() by {
            assert(tasks[j].times_wf());
            assert(!tasks[j].is_skewed(now));
            let stopped = tasks[j].stopped_at(now);
            assert forall|k: int| 0 <= k < stopped.times.len() implies (
            #[trigger] stopped.times[k]).wf() by {
                if k < tasks[j].times.len() {
                    assert(tasks[j].times[k].wf());
                }
            }
        }
    }
    let added = after_add(tasks, project, now);
    assert forall|i: int| 0 <= i < added.len() implies (#[trigger] added[i]).times_wf() by {
        if i < tasks.len() {
            assert(tasks[i].times_wf());
        }
    }
    let removed = after_remove(tasks, index);
    assert forall|i: int| 0 <= i < removed.len() implies (#[trigger] removed[i]).times_wf() by {
        if 0 <= index < tasks.len() {
            let a = if i < index {
                i
            } else {
                i + 1
            };
            assert(tasks[a].times_wf());
        } else {
            assert(tasks[i].times_wf());
        }
    }
    let numbered = renumbered(tasks);
    assert forall|i: int| 0 <= i < numbered.len() implies (#[trigger] numbered[i]).times_wf() by {
        assert(tasks[i].times_wf());
        assert forall|k: int| 0 <= k < numbered[i].times.len() implies (
        #[trigger] numbered[i].times[k]).wf() by {
            assert(tasks[i].times[k].wf());
        }
    }
}

/// A toggle keeps the numbers of tasks and frames at their places: the frame
/// that it closes is numbered by the place that it takes.
pub proof fn lemma_toggle_keeps_numbers(tasks: Seq<TaskView>, index: int, now: Instant)
    requires
        numbered_by_place(tasks),
    ensures
        numbered_by_place(after_toggle(tasks, index, now)),
{
    let after = after_toggle(tasks, index, now);
    if toggle_applies(tasks, index, now) {
        assert forall|i: int| 0 <= i < after.len() implies {
            &&& (#[trigger] after[i]).id == i as usize
            &&& forall|k: int|
                0 <= k < after[i].times.len() ==> (#[trigger] after[i].times[k]).id == k as usize
        } by {
            assert(tasks[i].id == i as usize);
            assert forall|k: int| 0 <= k < after[i].times.len() implies (
            #[trigger] after[i].times[k]).id == k as usize by {
                if k < tasks[i].times.len() {
                    assert(tasks[i].times[k].id == k as usize);
                }
            }
        }
    }
}

} // verus!
