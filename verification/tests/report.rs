use time_tracker::error::TrackerError;
use time_tracker::instant::{Duration, Instant};
use time_tracker::report::{
    format_duration, format_duration_report, report, report_now, round_up_to_quarters, task_row,
    task_rows, task_rows_now, TaskRow,
};
use time_tracker::task::{Task, TimeFrame};

fn at(secs: i64) -> Instant {
    Instant::new(secs, 0)
}

fn minutes(n: u128) -> Duration {
    Duration::from_seconds(n * 60)
}

fn task(name: &str, seconds: i64, running_since: Option<i64>) -> Task {
    Task {
        id: 0,
        project: name.to_string(),
        created_at: at(0),
        running_since: running_since.map(at),
        times: vec![TimeFrame { id: 0, start_time: at(0), end_time: at(seconds) }],
    }
}

#[test]
fn report_rounds_up_to_quarters() {
    assert_eq!(format_duration_report(minutes(7)), "00:15");
    assert_eq!(format_duration_report(minutes(15)), "00:15");
    assert_eq!(format_duration_report(minutes(16)), "00:30");
    assert_eq!(format_duration_report(Duration::zero()), "00:00");
}

#[test]
fn report_rounds_a_single_second_up() {
    assert_eq!(format_duration_report(Duration::from_seconds(1)), "00:15");
    assert_eq!(format_duration_report(Duration::from_seconds(900)), "00:15");
    assert_eq!(format_duration_report(Duration::from_seconds(901)), "00:30");
    assert_eq!(format_duration_report(Duration::from_seconds(2_700)), "00:45");
    assert_eq!(format_duration_report(Duration::from_seconds(2_701)), "01:00");
}

#[test]
fn report_hours_are_not_bounded() {
    assert_eq!(format_duration_report(minutes(60)), "01:00");
    assert_eq!(format_duration_report(minutes(75)), "01:15");
    assert_eq!(format_duration_report(minutes(9 * 60 + 46)), "10:00");
    assert_eq!(format_duration_report(minutes(99 * 60 + 59)), "100:00");
    assert_eq!(format_duration_report(minutes(1234 * 60 + 30)), "1234:30");
}

#[test]
fn quarters_in_minutes() {
    assert_eq!(round_up_to_quarters(Duration::zero()), 0);
    assert_eq!(round_up_to_quarters(Duration::from_seconds(1)), 15);
    assert_eq!(round_up_to_quarters(minutes(15)), 15);
    assert_eq!(round_up_to_quarters(Duration::from_seconds(901)), 30);
    assert_eq!(round_up_to_quarters(minutes(59)), 60);
    assert_eq!(
        round_up_to_quarters(Duration::from_seconds(u128::MAX)),
        (u128::MAX / 900 + 1) * 15
    );
}

#[test]
fn clock_shows_hours_minutes_seconds() {
    assert_eq!(format_duration(Duration::zero()), "00:00:00");
    assert_eq!(format_duration(Duration::from_seconds(1)), "00:00:01");
    assert_eq!(format_duration(Duration::from_seconds(59)), "00:00:59");
    assert_eq!(format_duration(Duration::from_seconds(60)), "00:01:00");
    assert_eq!(format_duration(Duration::from_seconds(3_661)), "01:01:01");
    assert_eq!(format_duration(Duration::from_seconds(7 * 60)), "00:07:00");
    assert_eq!(format_duration(Duration::from_seconds(86_399)), "23:59:59");
    assert_eq!(format_duration(Duration::from_seconds(360_000)), "100:00:00");
    assert_eq!(format_duration(Duration::from_seconds(4_445_130)), "1234:45:30");
}

#[test]
fn clock_of_the_widest_duration() {
    let text = format_duration(Duration::from_seconds(u128::MAX));
    assert_eq!(text, format!("{}:{:0>2}:{:0>2}", u128::MAX / 3600, (u128::MAX / 60) % 60, u128::MAX % 60));
}

#[test]
fn clock_and_report_differ() {
    let d = minutes(7);
    assert_eq!(format_duration(d), "00:07:00");
    assert_eq!(format_duration_report(d), "00:15");
}

#[test]
fn row_of_an_idle_task() {
    let row = task_row(&task("alpha", 3_661, None), &at(10_000)).unwrap();
    assert_eq!(
        row,
        TaskRow {
            project: "alpha".to_string(),
            status: "Not running".to_string(),
            total: "01:01:01".to_string(),
            running: false,
        }
    );
}

#[test]
fn row_of_a_running_task() {
    let row = task_row(&task("beta", 60, Some(10_000)), &at(10_125)).unwrap();
    assert_eq!(
        row,
        TaskRow {
            project: "beta".to_string(),
            status: "Running [00:02:05]".to_string(),
            total: "00:03:05".to_string(),
            running: true,
        }
    );
}

#[test]
fn row_rejects_a_start_in_the_future() {
    let skewed = task("beta", 60, Some(10_000));
    assert!(matches!(task_row(&skewed, &at(9_999)), Err(TrackerError::ClockSkew)));
}

#[test]
fn rows_follow_the_tasks() {
    let tasks = vec![task("alpha", 30, None), task("beta", 60, Some(100)), task("gamma", 0, None)];
    let rows = task_rows(&tasks, &at(100)).unwrap();
    assert_eq!(rows.len(), 3);
    assert_eq!(rows[0].project, "alpha");
    assert_eq!(rows[0].total, "00:00:30");
    assert_eq!(rows[1].status, "Running [00:00:00]");
    assert_eq!(rows[1].total, "00:01:00");
    assert_eq!(rows[2].status, "Not running");
    assert_eq!(rows[2].total, "00:00:00");
    assert!(task_rows(&Vec::new(), &at(100)).unwrap().is_empty());
    assert!(matches!(task_rows(&tasks, &at(99)), Err(TrackerError::ClockSkew)));
}

#[test]
fn rows_by_the_system_clock() {
    let tasks = vec![task("alpha", 30, None), task("beta", 60, Some(0))];
    let rows = task_rows_now(&tasks).unwrap();
    assert_eq!(rows.len(), 2);
    assert_eq!(rows[0].status, "Not running");
    assert_eq!(rows[0].total, "00:00:30");
    assert!(rows[1].running);
    assert!(rows[1].status.starts_with("Running ["));
    assert!(rows[1].status.ends_with(']'));
    assert!(rows[1].status.len() >= "Running [444444:00:00]".len());
    let skewed = vec![task("gamma", 0, Some(i64::MAX))];
    assert!(matches!(task_rows_now(&skewed), Err(TrackerError::ClockSkew)));
}

#[test]
fn report_lists_each_task() {
    let tasks = vec![
        task("alpha", 7 * 60, None),
        task("beta", 15 * 60, None),
        task("gamma", 16 * 60, None),
        task("delta", 0, None),
        task("two words, one comma", 3_600, Some(5_000)),
    ];
    let text = report(&tasks, &at(5_001)).unwrap();
    assert_eq!(
        text,
        "Project,Duration\nalpha,00:15\nbeta,00:15\ngamma,00:30\ndelta,00:00\ntwo words, one comma,01:15\n"
    );
}

#[test]
fn report_of_no_task_is_the_heading() {
    assert_eq!(report(&Vec::new(), &at(0)).unwrap(), "Project,Duration\n");
}

#[test]
fn report_rejects_a_start_in_the_future() {
    let tasks = vec![task("alpha", 60, None), task("beta", 60, Some(200))];
    assert!(matches!(report(&tasks, &at(199)), Err(TrackerError::ClockSkew)));
    assert!(report(&tasks, &at(200)).is_ok());
}

#[test]
fn report_by_the_system_clock() {
    let tasks = vec![task("alpha", 7 * 60, None), task("beta", 3_601, None)];
    assert_eq!(report_now(&tasks).unwrap(), "Project,Duration\nalpha,00:15\nbeta,01:15\n");
    let running = vec![task("gamma", 0, Some(0))];
    let text = report_now(&running).unwrap();
    assert!(text.starts_with("Project,Duration\ngamma,"));
    assert!(text.len() >= "Project,Duration\ngamma,444444:00\n".len());
    let skewed = vec![task("delta", 0, Some(i64::MAX))];
    assert!(matches!(report_now(&skewed), Err(TrackerError::ClockSkew)));
}
