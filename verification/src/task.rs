//! Tasks, their closed time frames, and the time spent on them.

use vstd::prelude::*;
use crate::clock::utc_now;
use crate::error::TrackerError;
use crate::instant::{Duration, Instant};

verus! {

/// One closed interval during which a task's timer ran.
#[derive(Clone, Copy, Debug, PartialEq, Eq, Structural)]
pub struct TimeFrame {
    /// The frame's position among its task's frames when it was made.
    pub id: usize,
    pub start_time: Instant,
    pub end_time: Instant,
}

/// A tracked project with the history of its timer.
#[derive(Debug, PartialEq, Eq)]
pub struct Task {
    /// The task's position in the collection when it was made.
    pub id: usize,
    /// The name under which the project is shown.
    pub project: String,
    pub created_at: Instant,
    /// When the timer was started, while it runs.
    pub running_since: Option<Instant>,
    /// The closed frames, oldest first.
    pub times: Vec<TimeFrame>,
}

/// What a task is, as plain mathematical values.
pub ghost struct TaskView {
    pub id: usize,
    pub project: Seq<char>,
    pub created_at: Instant,
    pub running_since: Option<Instant>,
    pub times: Seq<TimeFrame>,
}

impl TimeFrame {
    /// Both ends are canonical and the frame does not end before it starts.
    pub open spec fn wf(self) -> bool {
        &&& self.start_time.wf()
        &&& self.end_time.wf()
        &&& !self.start_time.is_after(self.end_time)
    }

    /// The whole seconds that the frame spans.
    pub open spec fn seconds(self) -> int {
        self.start_time.whole_seconds_until(self.end_time)
    }
}

impl TimeFrame {
    /// Tells whether the frame is well formed.
    pub fn is_valid(&self) -> (r: bool)
        ensures
            r == self.wf(),
    {
        self.start_time.is_valid() && self.end_time.is_valid() && !self.start_time.after(
            &self.end_time,
        )
    }
}

/// The sum of the whole seconds of each frame.
pub open spec fn frames_seconds(times: Seq<TimeFrame>) -> int
    decreases times.len(),
{
    if times.len() == 0 {
        0
    } else {
        frames_seconds(times.drop_last()) + times.last().seconds()
    }
}

impl TaskView {
    /// The times of the task are well formed: the start of a running timer
    /// is canonical and each frame is well formed. This is what the sums of
    /// its durations rest on.
    pub open spec fn times_wf(self) -> bool {
        &&& (self.running_since matches Some(since) ==> since.wf())
        &&& forall|i: int| 0 <= i < self.times.len() ==> (#[trigger] self.times[i]).wf()
    }

    /// The task has a name, was made at a canonical instant, and its times
    /// are well formed.
    pub open spec fn wf(self) -> bool {
        &&& self.project.len() > 0
        &&& self.created_at.wf()
        &&& self.times_wf()
    }

    /// The timer is running.
    pub open spec fn is_running(self) -> bool {
        self.running_since is Some
    }

    /// The timer is said to have started after `now`.
    pub open spec fn is_skewed(self, now: Instant) -> bool {
        self.running_since matches Some(since) && since.is_after(now)
    }

    /// The whole seconds for which the timer has been running at `now`; zero
    /// while it does not run.
    pub open spec fn current_seconds(self, now: Instant) -> int {
        match self.running_since {
            Some(since) => since.whole_seconds_until(now),
            None => 0,
        }
    }

    /// The whole seconds spent on the task up to `now`: those of the closed
    /// frames and those of the running timer.
    pub open spec fn total_seconds(self, now: Instant) -> int {
        frames_seconds(self.times) + self.current_seconds(now)
    }

    /// The task with its timer stopped at `now`: a running timer is closed
    /// into a new last frame from its start to `now`, numbered by its place;
    /// a task whose timer does not run stays as it is.
    pub open spec fn stopped_at(self, now: Instant) -> TaskView {
        match self.running_since {
            Some(since) => TaskView {
                running_since: None,
                times: self.times.push(
                    TimeFrame { id: self.times.len() as usize, start_time: since, end_time: now },
                ),
                ..self
            },
            None => self,
        }
    }

    /// The task with its timer running since `now`.
    pub open spec fn started_at(self, now: Instant) -> TaskView {
        TaskView { running_since: Some(now), ..self }
    }

    /// `r` is what is owed when the running time is asked for at `now`: the
    /// clock skew error where the timer started after `now`, else the whole
    /// seconds since the timer started.
    pub open spec fn is_current_at(self, now: Instant, r: Result<Duration, TrackerError>) -> bool {
        match r {
            Ok(d) => !self.is_skewed(now) && d.seconds == self.current_seconds(now),
            Err(e) => self.is_skewed(now) && e is ClockSkew,
        }
    }

    /// `r` is what is owed when the total time is asked for at `now`: the
    /// clock skew error where the timer started after `now`, else the whole
    /// seconds of the frames and of the running timer.
    pub open spec fn is_total_at(self, now: Instant, r: Result<Duration, TrackerError>) -> bool {
        match r {
            Ok(d) => !self.is_skewed(now) && d.seconds == self.total_seconds(now),
            Err(e) => self.is_skewed(now) && e is ClockSkew,
        }
    }
}

impl View for Task {
    type V = TaskView;

    open spec fn view(&self) -> TaskView {
        TaskView {
            id: self.id,
            project: self.project@,
            created_at: self.created_at,
            running_since: self.running_since,
            times: self.times@,
        }
    }
}

/// The tasks of a collection as plain mathematical values.
pub open spec fn views(tasks: Seq<Task>) -> Seq<TaskView> {
    Seq::new(tasks.len(), |i: int| tasks[i]@)
}

impl Task {
    /// A new task without history, whose timer does not run.
    pub fn new(id: usize, project: String, created_at: Instant) -> (r: Task)
        ensures
            r@ == (TaskView {
                id,
                project: project@,
                created_at,
                running_since: None,
                times: Seq::empty(),
            }),
    {
        Task { id, project, created_at, running_since: None, times: Vec::new() }
    }

    /// Tells whether the task is well formed.
    pub fn is_valid(&self) -> (r: bool)
        ensures
            r == self@.wf(),
    {
        !self.project.as_str().is_empty() && self.created_at.is_valid() && self.has_valid_times()
    }

    /// Tells whether the times of the task are well formed.
    pub fn has_valid_times(&self) -> (r: bool)
        ensures
            r == self@.times_wf(),
    {
        if let Some(since) = self.running_since {
            if !since.is_valid() {
                return false;
            }
        }
        let mut i: usize = 0;
        while i < self.times.len()
            invariant
                0 <= i <= self.times.len(),
                forall|j: int| 0 <= j < i ==> (#[trigger] self.times@[j]).wf(),
            decreases self.times.len() - i,
        {
            if !self.times[i].is_valid() {
                assert(!self@.times[i as int].wf());
                return false;
            }
            i = i + 1;
        }
        true
    }

    /// Tells whether the timer is running.
    pub fn is_running(&self) -> (r: bool)
        ensures
            r == self@.is_running(),
    {
        self.running_since.is_some()
    }

    /// The time for which the timer has been running at `now`: nothing while
    /// it does not run. A timer that started after `now` is an error.
    pub fn current_duration_at(&self, now: &Instant) -> (r: Result<Duration, TrackerError>)
        ensures
            self@.is_current_at(*now, r),
    {
        match self.running_since {
            Some(since) => match since.seconds_until(now) {
                Some(d) => Ok(d),
                None => Err(TrackerError::ClockSkew),
            },
            None => Ok(Duration::zero()),
        }
    }

    /// The time spent on the task up to `now`: the whole seconds of each
    /// closed frame, and those of the running timer. A timer that started
    /// after `now` is an error.
    pub fn total_duration_at(&self, now: &Instant) -> (r: Result<Duration, TrackerError>)
        requires
            self@.times_wf(),
        ensures
            self@.is_total_at(*now, r),
    {
        let current = match self.current_duration_at(now) {
            Ok(d) => d,
            Err(e) => {
                return Err(e);
            },
        };
        let mut past: u128 = 0;
        let mut i: usize = 0;
        while i < self.times.len()
            invariant
                0 <= i <= self.times.len(),
                self@.times_wf(),
                past == frames_seconds(self.times@.take(i as int)),
                past <= i * u64::MAX,
            decreases self.times.len() - i,
        {
            let frame = self.times[i];
            proof {
                assert(self@.times[i as int].wf());
                assert(self.times@.take(i + 1).drop_last() =~= self.times@.take(i as int));
                assert((i + 1) * u64::MAX == i * u64::MAX + u64::MAX) by (nonlinear_arith);
                assert(i * u64::MAX <= usize::MAX * u64::MAX) by (nonlinear_arith)
                    requires
                        i <= usize::MAX,
                ;
            }
            match frame.start_time.seconds_until(&frame.end_time) {
                Some(d) => {
                    past = past + d.seconds;
                },
                None => {
                    assert(false);
                },
            }
            i = i + 1;
        }
        proof {
            assert(self.times@.take(i as int) =~= self.times@);
            assert(i * u64::MAX <= usize::MAX * u64::MAX) by (nonlinear_arith)
                requires
                    i <= usize::MAX,
            ;
            assert(usize::MAX * u64::MAX + u64::MAX + 4 <= u128::MAX) by (nonlinear_arith);
        }
        Ok(Duration { seconds: past + current.seconds })
    }

    /// The time for which the timer has been running at the moment that the
    /// system clock gives: what `current_duration_at` returns for some moment.
    ///
    /// chrono reads the clock as the time since the Unix epoch and panics where
    /// the system clock is set before it.
    pub fn current_duration(&self) -> (r: Result<Duration, TrackerError>)
        ensures
            exists|now: Instant| now.wf() && #[trigger] self@.is_current_at(now, r),
            !self@.is_running() ==> (r matches Ok(d) && d.seconds == 0),
    {
        let now = utc_now();
        let r = self.current_duration_at(&now);
        assert(self@.is_current_at(now, r));
        r
    }

    /// The time spent on the task up to the moment that the system clock
    /// gives: what `total_duration_at` returns for some moment.
    ///
    /// chrono reads the clock as the time since the Unix epoch and panics where
    /// the system clock is set before it.
    pub fn total_duration(&self) -> (r: Result<Duration, TrackerError>)
        requires
            self@.times_wf(),
        ensures
            exists|now: Instant| now.wf() && #[trigger] self@.is_total_at(now, r),
            !self@.is_running() ==> (r matches Ok(d) && d.seconds == frames_seconds(self@.times)),
    {
        let now = utc_now();
        let r = self.total_duration_at(&now);
        assert(self@.is_total_at(now, r));
        r
    }
}

impl Clone for Task {
    /// A second task with the same number, name, instants and frames.
    fn clone(&self) -> (r: Task)
        ensures
            r@ == self@,
    {
        let mut times: Vec<TimeFrame> = Vec::new();
        let mut i: usize = 0;
        while i < self.times.len()
            invariant
                0 <= i <= self.times.len(),
                times@ == self.times@.take(i as int),
            decreases self.times.len() - i,
        {
            times.push(self.times[i]);
            assert(self.times@.take(i + 1) =~= self.times@.take(i as int).push(self.times@[i as int]));
            i = i + 1;
        }
        assert(self.times@.take(i as int) =~= self.times@);
        Task {
            id: self.id,
            project: self.project.clone(),
            created_at: self.created_at,
            running_since: self.running_since,
            times,
        }
    }
}

} // verus!
