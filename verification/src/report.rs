//! Durations as text: the running clock of the list and the rounded hours
//! of the report.

use vstd::prelude::*;
use vstd::string::*;
use crate::clock::utc_now;
use crate::error::TrackerError;
use crate::instant::{Duration, Instant};
use crate::task::{views, Task, TaskView};
use crate::timer::{any_skewed, timers_wf};

verus! {

/// The seconds of a quarter of an hour.
pub const QUARTER_SECONDS: u128 = 900;

/// The character of the digit `d`.
pub open spec fn digit(d: int) -> char {
    if d == 0 {
        '0'
    } else if d == 1 {
        '1'
    } else if d == 2 {
        '2'
    } else if d == 3 {
        '3'
    } else if d == 4 {
        '4'
    } else if d == 5 {
        '5'
    } else if d == 6 {
        '6'
    } else if d == 7 {
        '7'
    } else if d == 8 {
        '8'
    } else {
        '9'
    }
}

/// The number in decimal digits, without leading zeros.
pub open spec fn decimal(n: nat) -> Seq<char>
    decreases n,
{
    if n < 10 {
        seq![digit(n as int)]
    } else {
        decimal(n / 10).push(digit((n % 10) as int))
    }
}

/// The number in decimal digits, with a zero in front of a single digit.
pub open spec fn two_digits(n: nat) -> Seq<char> {
    if n < 10 {
        seq!['0', digit(n as int)]
    } else {
        decimal(n)
    }
}

/// A span of `seconds` seconds as hours, minutes and seconds, each with at
/// least two digits.
pub open spec fn clock_text(seconds: nat) -> Seq<char> {
    two_digits(seconds / 3600) + seq![':'] + two_digits((seconds / 60) % 60) + seq![':']
        + two_digits(seconds % 60)
}

/// The minutes of the least number of whole quarters of an hour that hold
/// `seconds` seconds.
pub open spec fn quarter_minutes(seconds: nat) -> nat {
    if seconds % 900 == 0 {
        seconds / 900 * 15
    } else {
        (seconds / 900 + 1) * 15
    }
}

/// A span of `seconds` seconds, rounded up to quarters of an hour, as hours
/// and minutes, each with at least two digits.
pub open spec fn quarter_text(seconds: nat) -> Seq<char> {
    two_digits(quarter_minutes(seconds) / 60) + seq![':'] + two_digits(
        quarter_minutes(seconds) % 60,
    )
}

/// What the list says of a task's timer at `now`.
pub open spec fn status_text(task: TaskView, now: Instant) -> Seq<char> {
    if task.is_running() {
        "Running ["@ + clock_text(task.current_seconds(now) as nat) + seq![']']
    } else {
        "Not running"@
    }
}

/// The line of the report for a task: its name and its rounded total.
pub open spec fn report_line(task: TaskView, now: Instant) -> Seq<char> {
    task.project + seq![','] + quarter_text(task.total_seconds(now) as nat) + seq!['\n']
}

/// The lines of the report for the tasks, in their order.
pub open spec fn report_lines(tasks: Seq<TaskView>, now: Instant) -> Seq<char>
    decreases tasks.len(),
{
    if tasks.len() == 0 {
        Seq::empty()
    } else {
        report_lines(tasks.drop_last(), now) + report_line(tasks.last(), now)
    }
}

/// The report: its heading and one line for each task.
pub open spec fn report_text(tasks: Seq<TaskView>, now: Instant) -> Seq<char> {
    "Project,Duration\n"@ + report_lines(tasks, now)
}

/// The character of the digit `d`.
fn digit_char(d: u128) -> (r: char)
    requires
        d < 10,
    ensures
        r == digit(d as int),
{
    if d == 0 {
        '0'
    } else if d == 1 {
        '1'
    } else if d == 2 {
        '2'
    } else if d == 3 {
        '3'
    } else if d == 4 {
        '4'
    } else if d == 5 {
        '5'
    } else if d == 6 {
        '6'
    } else if d == 7 {
        '7'
    } else if d == 8 {
        '8'
    } else {
        '9'
    }
}

/// Appends the decimal digits of `n` to `out`.
fn push_decimal(out: &mut String, n: u128)
    ensures
        final(out)@ == old(out)@ + decimal(n as nat),
    decreases n,
{
    if n >= 10 {
        push_decimal(out, n / 10);
    }
    out.push(digit_char(n % 10));
    assert(out@ =~= old(out)@ + decimal(n as nat));
}

/// Appends the decimal digits of `n` to `out`, two at least.
fn push_two_digits(out: &mut String, n: u128)
    ensures
        final(out)@ == old(out)@ + two_digits(n as nat),
{
    if n < 10 {
        out.push('0');
    }
    push_decimal(out, n);
    assert(out@ =~= old(out)@ + two_digits(n as nat));
}

/// Appends the span as hours, minutes and seconds to `out`.
fn push_clock(out: &mut String, seconds: u128)
    ensures
        final(out)@ == old(out)@ + clock_text(seconds as nat),
{
    push_two_digits(out, seconds / 3600);
    out.push(':');
    push_two_digits(out, (seconds / 60) % 60);
    out.push(':');
    push_two_digits(out, seconds % 60);
    assert(out@ =~= old(out)@ + clock_text(seconds as nat));
}

/// Rounds the span up to whole quarters of an hour and gives their minutes:
/// the least multiple of fifteen minutes that is not shorter than the span.
pub fn round_up_to_quarters(duration: Duration) -> (minutes: u128)
    ensures
        minutes == quarter_minutes(duration.seconds as nat),
        minutes % 15 == 0,
        minutes * 60 >= duration.seconds,
        minutes * 60 - duration.seconds < 900,
{
    let quarters = duration.seconds / QUARTER_SECONDS;
    if duration.seconds % QUARTER_SECONDS == 0 {
        quarters * 15
    } else {
        (quarters + 1) * 15
    }
}

/// Appends the rounded span as hours and minutes to `out`.
fn push_quarters(out: &mut String, duration: Duration)
    ensures
        final(out)@ == old(out)@ + quarter_text(duration.seconds as nat),
{
    let minutes = round_up_to_quarters(duration);
    push_two_digits(out, minutes / 60);
    out.push(':');
    push_two_digits(out, minutes % 60);
    assert(out@ =~= old(out)@ + quarter_text(duration.seconds as nat));
}

/// The span as it is shown in the list: hours, minutes and seconds, each
/// with two digits at least, and nothing rounded.
pub fn format_duration(duration: Duration) -> (r: String)
    ensures
        r@ == clock_text(duration.seconds as nat),
{
    let mut out = String::new();
    push_clock(&mut out, duration.seconds);
    assert(out@ =~= clock_text(duration.seconds as nat));
    out
}

/// The span as it is written to the report: rounded up to the next quarter
/// of an hour, as hours and minutes with two digits each at least.
pub fn format_duration_report(duration: Duration) -> (r: String)
    ensures
        r@ == quarter_text(duration.seconds as nat),
{
    let mut out = String::new();
    push_quarters(&mut out, duration);
    assert(out@ =~= quarter_text(duration.seconds as nat));
    out
}

/// What the list shows of one task.
#[derive(Debug, PartialEq, Eq)]
pub struct TaskRow {
    /// The project's name.
    pub project: String,
    /// Whether the timer runs, and for how long it has.
    pub status: String,
    /// The total time spent, unrounded.
    pub total: String,
    /// Whether the timer runs.
    pub running: bool,
}

/// `row` is what the list shows of `task` at `now`.
pub open spec fn is_row_of(row: TaskRow, task: TaskView, now: Instant) -> bool {
    &&& row.project@ == task.project
    &&& row.status@ == status_text(task, now)
    &&& row.total@ == clock_text(task.total_seconds(now) as nat)
    &&& row.running == task.is_running()
}

/// `r` is what is owed when the row of `task` is asked for at `now`: the
/// clock skew error where the timer started after `now`, else the row.
pub open spec fn is_row_result(task: TaskView, now: Instant, r: Result<TaskRow, TrackerError>) -> bool {
    match r {
        Ok(row) => !task.is_skewed(now) && is_row_of(row, task, now),
        Err(e) => task.is_skewed(now) && e is ClockSkew,
    }
}

/// `r` is what is owed when the rows of `tasks` are asked for at `now`: the
/// clock skew error where some timer started after `now`, else one row for
/// each task, in their order.
pub open spec fn is_rows_result(
    tasks: Seq<TaskView>,
    now: Instant,
    r: Result<Vec<TaskRow>, TrackerError>,
) -> bool {
    match r {
        Ok(rows) => {
            &&& !any_skewed(tasks, now)
            &&& rows.len() == tasks.len()
            &&& forall|i: int| 0 <= i < tasks.len() ==> is_row_of(#[trigger] rows[i], tasks[i], now)
        },
        Err(e) => any_skewed(tasks, now) && e is ClockSkew,
    }
}

/// `r` is what is owed when the report on `tasks` is asked for at `now`:
/// the clock skew error where some timer started after `now`, else the
/// report's text.
pub open spec fn is_report_result(
    tasks: Seq<TaskView>,
    now: Instant,
    r: Result<String, TrackerError>,
) -> bool {
    match r {
        Ok(text) => !any_skewed(tasks, now) && text@ == report_text(tasks, now),
        Err(e) => any_skewed(tasks, now) && e is ClockSkew,
    }
}

/// What the list shows of `task` at `now`: its name, the state of its timer
/// with the time since it started, and the total time spent on it.
pub fn task_row(task: &Task, now: &Instant) -> (r: Result<TaskRow, TrackerError>)
    requires
        task@.times_wf(),
    ensures
        is_row_result(task@, *now, r),
{
    let current = match task.current_duration_at(now) {
        Ok(d) => d,
        Err(e) => {
            return Err(e);
        },
    };
    let total = match task.total_duration_at(now) {
        Ok(d) => d,
        Err(e) => {
            return Err(e);
        },
    };
    let running = task.is_running();
    let mut status = String::new();
    if running {
        status.append("Running [");
        push_clock(&mut status, current.seconds);
        status.push(']');
    } else {
        status.append("Not running");
    }
    assert(status@ =~= status_text(task@, *now));
    Ok(TaskRow { project: task.project.clone(), status, total: format_duration(total), running })
}

/// What the list shows of each task at `now`, in their order.
pub fn task_rows(tasks: &Vec<Task>, now: &Instant) -> (r: Result<Vec<TaskRow>, TrackerError>)
    requires
        timers_wf(views(tasks@)),
    ensures
        is_rows_result(views(tasks@), *now, r),
{
    let mut rows: Vec<TaskRow> = Vec::new();
    let mut i: usize = 0;
    while i < tasks.len()
        invariant
            0 <= i <= tasks.len(),
            timers_wf(views(tasks@)),
            rows.len() == i,
            forall|j: int| 0 <= j < i ==> !(#[trigger] views(tasks@)[j]).is_skewed(*now),
            forall|j: int| 0 <= j < i ==> is_row_of(#[trigger] rows[j], views(tasks@)[j], *now),
        decreases tasks.len() - i,
    {
        assert(views(tasks@)[i as int].times_wf());
        match task_row(&tasks[i], now) {
            Ok(row) => {
                rows.push(row);
            },
            Err(e) => {
                assert(views(tasks@)[i as int].is_skewed(*now));
                return Err(e);
            },
        }
        i = i + 1;
    }
    Ok(rows)
}

/// What the list shows of each task at the moment that the system clock
/// gives: what `task_rows` returns for some moment.
///
/// chrono reads the clock as the time since the Unix epoch and panics where
/// the system clock is set before it.
pub fn task_rows_now(tasks: &Vec<Task>) -> (r: Result<Vec<TaskRow>, TrackerError>)
    requires
        timers_wf(views(tasks@)),
    ensures
        exists|now: Instant| now.wf() && #[trigger] is_rows_result(views(tasks@), now, r),
{
    let now = utc_now();
    let r = task_rows(tasks, &now);
    assert(is_rows_result(views(tasks@), now, r));
    r
}

/// The report on the tasks at `now`: the heading, then for each task a line
/// with its name and its total time, rounded up to quarters of an hour.
pub fn report(tasks: &Vec<Task>, now: &Instant) -> (r: Result<String, TrackerError>)
    requires
        timers_wf(views(tasks@)),
    ensures
        is_report_result(views(tasks@), *now, r),
{
    let mut out = String::new();
    out.append("Project,Duration\n");
    let mut i: usize = 0;
    while i < tasks.len()
        invariant
            0 <= i <= tasks.len(),
            timers_wf(views(tasks@)),
            forall|j: int| 0 <= j < i ==> !(#[trigger] views(tasks@)[j]).is_skewed(*now),
            out@ == "Project,Duration\n"@ + report_lines(views(tasks@).take(i as int), *now),
        decreases tasks.len() - i,
    {
        let task = &tasks[i];
        assert(views(tasks@)[i as int].times_wf());
        let total = match task.total_duration_at(now) {
            Ok(d) => d,
            Err(e) => {
                assert(views(tasks@)[i as int].is_skewed(*now));
                return Err(e);
            },
        };
        let ghost before = out@;
        out.append(task.project.as_str());
        out.push(',');
        push_quarters(&mut out, total);
        out.push('\n');
        proof {
            let all = views(tasks@);
            assert(all.take(i + 1).drop_last() =~= all.take(i as int));
            assert(all.take(i + 1).last() == all[i as int]);
            assert(out@ =~= before + report_line(all[i as int], *now));
            assert(out@ =~= "Project,Duration\n"@ + report_lines(all.take(i + 1), *now));
        }
        i = i + 1;
    }
    assert(views(tasks@).take(i as int) =~= views(tasks@));
    Ok(out)
}

/// The report on the tasks at the moment that the system clock gives: what
/// `report` returns for some moment.
///
/// chrono reads the clock as the time since the Unix epoch and panics where
/// the system clock is set before it.
pub fn report_now(tasks: &Vec<Task>) -> (r: Result<String, TrackerError>)
    requires
        timers_wf(views(tasks@)),
    ensures
        exists|now: Instant| now.wf() && #[trigger] is_report_result(views(tasks@), now, r),
{
    let now = utc_now();
    let r = report(tasks, &now);
    assert(is_report_result(views(tasks@), now, r));
    r
}

} // verus!
