use time_tracker::error::TrackerError;
use time_tracker::instant::Instant;
use time_tracker::task::{Task, TimeFrame};
use time_tracker::timer::{
    add_task, add_task_now, check_tasks, check_times, count_running, remove_task, renumber,
    toggle, toggle_now,
};

fn at(secs: i64) -> Instant {
    Instant::new(secs, 0)
}

fn three_tasks() -> Vec<Task> {
    let mut tasks = Vec::new();
    add_task(&mut tasks, "alpha".to_string(), at(10)).unwrap();
    add_task(&mut tasks, "beta".to_string(), at(20)).unwrap();
    add_task(&mut tasks, "gamma".to_string(), at(30)).unwrap();
    tasks
}

#[test]
fn add_task_numbers_by_place() {
    let tasks = three_tasks();
    assert_eq!(tasks.len(), 3);
    assert_eq!(tasks[0], Task::new(0, "alpha".to_string(), at(10)));
    assert_eq!(tasks[1], Task::new(1, "beta".to_string(), at(20)));
    assert_eq!(tasks[2], Task::new(2, "gamma".to_string(), at(30)));
    assert_eq!(count_running(&tasks), 0);
    assert!(check_tasks(&tasks));
}

#[test]
fn add_task_rejects_an_empty_name() {
    let mut tasks = three_tasks();
    let before = tasks.clone();
    assert!(matches!(
        add_task(&mut tasks, String::new(), at(40)),
        Err(TrackerError::EmptyInputRejected)
    ));
    assert_eq!(tasks, before);
}

#[test]
fn add_task_accepts_a_repeated_name() {
    let mut tasks = three_tasks();
    add_task(&mut tasks, "alpha".to_string(), at(40)).unwrap();
    assert_eq!(tasks.len(), 4);
    assert_eq!(tasks[3].project, "alpha");
    assert_eq!(tasks[3].id, 3);
}

#[test]
fn add_task_by_the_system_clock() {
    let mut tasks = three_tasks();
    add_task_now(&mut tasks, "delta".to_string()).unwrap();
    assert_eq!(tasks.len(), 4);
    assert_eq!(tasks[3].id, 3);
    assert_eq!(tasks[3].project, "delta");
    assert!(tasks[3].created_at.secs > 1_600_000_000);
    assert!(tasks[3].created_at.is_valid());
    assert!(!tasks[3].is_running());
    assert!(matches!(
        add_task_now(&mut tasks, String::new()),
        Err(TrackerError::EmptyInputRejected)
    ));
    assert_eq!(tasks.len(), 4);
}

#[test]
fn toggle_starts_an_idle_task() {
    let mut tasks = three_tasks();
    toggle(&mut tasks, 1, at(100)).unwrap();
    assert_eq!(tasks[1].running_since, Some(at(100)));
    assert!(tasks[1].times.is_empty());
    assert_eq!(tasks[0], Task::new(0, "alpha".to_string(), at(10)));
    assert_eq!(tasks[2], Task::new(2, "gamma".to_string(), at(30)));
    assert_eq!(count_running(&tasks), 1);
}

#[test]
fn toggle_stops_the_running_task() {
    let mut tasks = three_tasks();
    toggle(&mut tasks, 1, at(100)).unwrap();
    toggle(&mut tasks, 1, at(160)).unwrap();
    assert_eq!(tasks[1].running_since, None);
    assert_eq!(
        tasks[1].times,
        vec![TimeFrame { id: 0, start_time: at(100), end_time: at(160) }]
    );
    assert_eq!(count_running(&tasks), 0);
}

#[test]
fn toggle_twice_at_one_moment_leaves_one_empty_frame() {
    let mut tasks = three_tasks();
    toggle(&mut tasks, 2, at(100)).unwrap();
    toggle(&mut tasks, 2, at(100)).unwrap();
    assert!(!tasks[2].is_running());
    assert_eq!(tasks[2].times.len(), 1);
    assert_eq!(tasks[2].times[0].start_time, tasks[2].times[0].end_time);
    assert_eq!(tasks[2].times[0], TimeFrame { id: 0, start_time: at(100), end_time: at(100) });
    assert_eq!(tasks[2].total_duration_at(&at(500)).unwrap().seconds, 0);
}

#[test]
fn toggle_switches_the_timer_over() {
    let mut tasks = three_tasks();
    toggle(&mut tasks, 0, at(100)).unwrap();
    toggle(&mut tasks, 2, at(130)).unwrap();
    assert_eq!(tasks[0].running_since, None);
    assert_eq!(
        tasks[0].times,
        vec![TimeFrame { id: 0, start_time: at(100), end_time: at(130) }]
    );
    assert_eq!(tasks[2].running_since, Some(at(130)));
    assert!(tasks[2].times.is_empty());
    assert_eq!(tasks[1], Task::new(1, "beta".to_string(), at(20)));
    assert_eq!(count_running(&tasks), 1);
}

#[test]
fn toggle_numbers_frames_by_place() {
    let mut tasks = three_tasks();
    for round in 0..3 {
        toggle(&mut tasks, 0, at(100 + 20 * round)).unwrap();
        toggle(&mut tasks, 0, at(110 + 20 * round)).unwrap();
    }
    assert_eq!(
        tasks[0].times,
        vec![
            TimeFrame { id: 0, start_time: at(100), end_time: at(110) },
            TimeFrame { id: 1, start_time: at(120), end_time: at(130) },
            TimeFrame { id: 2, start_time: at(140), end_time: at(150) },
        ]
    );
    assert_eq!(tasks[0].total_duration_at(&at(1_000)).unwrap().seconds, 30);
}

#[test]
fn toggle_stops_every_timer_that_runs() {
    let mut tasks = three_tasks();
    tasks[0].running_since = Some(at(50));
    tasks[1].running_since = Some(at(60));
    tasks[2].running_since = Some(at(70));
    assert_eq!(count_running(&tasks), 3);
    toggle(&mut tasks, 1, at(100)).unwrap();
    assert_eq!(count_running(&tasks), 0);
    assert_eq!(tasks[0].times, vec![TimeFrame { id: 0, start_time: at(50), end_time: at(100) }]);
    assert_eq!(tasks[1].times, vec![TimeFrame { id: 0, start_time: at(60), end_time: at(100) }]);
    assert_eq!(tasks[2].times, vec![TimeFrame { id: 0, start_time: at(70), end_time: at(100) }]);
    tasks[0].running_since = Some(at(150));
    tasks[2].running_since = Some(at(160));
    toggle(&mut tasks, 1, at(200)).unwrap();
    assert_eq!(count_running(&tasks), 1);
    assert_eq!(tasks[1].running_since, Some(at(200)));
    assert_eq!(tasks[0].times.len(), 2);
    assert_eq!(tasks[0].times[1], TimeFrame { id: 1, start_time: at(150), end_time: at(200) });
}

#[test]
fn toggle_rejects_an_index_past_the_end() {
    let mut tasks = three_tasks();
    toggle(&mut tasks, 0, at(100)).unwrap();
    let before = tasks.clone();
    assert!(matches!(toggle(&mut tasks, 3, at(200)), Err(TrackerError::IndexOutOfRange)));
    assert!(matches!(
        toggle(&mut tasks, usize::MAX, at(200)),
        Err(TrackerError::IndexOutOfRange)
    ));
    assert_eq!(tasks, before);
    let mut none: Vec<Task> = Vec::new();
    assert!(matches!(toggle(&mut none, 0, at(200)), Err(TrackerError::IndexOutOfRange)));
    assert!(none.is_empty());
}

#[test]
fn toggle_rejects_a_moment_before_a_start() {
    let mut tasks = three_tasks();
    toggle(&mut tasks, 0, at(100)).unwrap();
    let before = tasks.clone();
    assert!(matches!(toggle(&mut tasks, 0, at(99)), Err(TrackerError::ClockSkew)));
    assert!(matches!(toggle(&mut tasks, 2, at(99)), Err(TrackerError::ClockSkew)));
    assert_eq!(tasks, before);
    // The index is looked at first.
    assert!(matches!(toggle(&mut tasks, 7, at(99)), Err(TrackerError::IndexOutOfRange)));
}

#[test]
fn toggle_by_the_system_clock() {
    let mut tasks = three_tasks();
    toggle_now(&mut tasks, 1).unwrap();
    let since = tasks[1].running_since.unwrap();
    assert!(since.secs > 1_600_000_000);
    assert!(since.is_valid());
    assert_eq!(count_running(&tasks), 1);
    toggle_now(&mut tasks, 1).unwrap();
    assert_eq!(count_running(&tasks), 0);
    assert_eq!(tasks[1].times.len(), 1);
    assert_eq!(tasks[1].times[0].id, 0);
    assert_eq!(tasks[1].times[0].start_time, since);
    assert!(!tasks[1].times[0].start_time.after(&tasks[1].times[0].end_time));
    assert!(check_tasks(&tasks));
    assert!(matches!(toggle_now(&mut tasks, 3), Err(TrackerError::IndexOutOfRange)));
    tasks[0].running_since = Some(at(i64::MAX));
    assert!(matches!(toggle_now(&mut tasks, 0), Err(TrackerError::ClockSkew)));
}

#[test]
fn at_most_one_timer_through_a_run_of_steps() {
    let mut tasks: Vec<Task> = Vec::new();
    let mut clock = 0;
    for round in 0..40usize {
        clock += 7;
        match round % 5 {
            0 => {
                add_task(&mut tasks, format!("p{}", round), at(clock)).unwrap();
            }
            1 | 2 => {
                let n = tasks.len();
                toggle(&mut tasks, (round * 3) % n, at(clock)).unwrap();
            }
            3 => {
                add_task(&mut tasks, format!("q{}", round), at(clock)).unwrap();
                renumber(&mut tasks);
            }
            _ => {
                if round % 2 == 0 {
                    let n = tasks.len();
                    remove_task(&mut tasks, round % n).unwrap();
                }
            }
        }
        assert!(count_running(&tasks) <= 1);
        assert!(check_tasks(&tasks));
    }
}

#[test]
fn remove_task_takes_one_out() {
    let mut tasks = three_tasks();
    toggle(&mut tasks, 2, at(100)).unwrap();
    let gone = remove_task(&mut tasks, 0).unwrap();
    assert_eq!(gone, Task::new(0, "alpha".to_string(), at(10)));
    assert_eq!(tasks.len(), 2);
    assert_eq!(tasks[0], Task::new(1, "beta".to_string(), at(20)));
    assert_eq!(tasks[1].id, 2);
    assert_eq!(tasks[1].running_since, Some(at(100)));
}

#[test]
fn remove_task_rejects_an_index_past_the_end() {
    let mut tasks = three_tasks();
    let before = tasks.clone();
    assert!(matches!(remove_task(&mut tasks, 3), Err(TrackerError::IndexOutOfRange)));
    assert_eq!(tasks, before);
    let mut none: Vec<Task> = Vec::new();
    assert!(matches!(remove_task(&mut none, 0), Err(TrackerError::IndexOutOfRange)));
}

#[test]
fn renumber_sets_numbers_to_places() {
    let mut tasks = three_tasks();
    toggle(&mut tasks, 2, at(100)).unwrap();
    toggle(&mut tasks, 2, at(110)).unwrap();
    toggle(&mut tasks, 2, at(120)).unwrap();
    remove_task(&mut tasks, 0).unwrap();
    tasks[1].times[0].id = 9;
    renumber(&mut tasks);
    assert_eq!(tasks[0], Task::new(0, "beta".to_string(), at(20)));
    assert_eq!(
        tasks[1],
        Task {
            id: 1,
            project: "gamma".to_string(),
            created_at: at(30),
            running_since: Some(at(120)),
            times: vec![TimeFrame { id: 0, start_time: at(100), end_time: at(110) }],
        }
    );
    let once = tasks.clone();
    renumber(&mut tasks);
    assert_eq!(tasks, once);
    let mut none: Vec<Task> = Vec::new();
    renumber(&mut none);
    assert!(none.is_empty());
}

#[test]
fn check_tasks_finds_a_bad_frame() {
    let mut tasks = three_tasks();
    assert!(check_tasks(&tasks));
    tasks[1].times.push(TimeFrame { id: 0, start_time: at(9), end_time: at(8) });
    assert!(!check_tasks(&tasks));
    assert!(check_tasks(&Vec::new()));
}

#[test]
fn check_times_looks_at_the_times_only() {
    let mut tasks = three_tasks();
    assert!(check_times(&tasks));
    tasks[0].project = String::new();
    tasks[0].created_at = Instant::new(0, u32::MAX);
    assert!(check_times(&tasks));
    assert!(!check_tasks(&tasks));
    toggle(&mut tasks, 0, at(100)).unwrap();
    toggle(&mut tasks, 1, at(200)).unwrap();
    assert!(check_times(&tasks));
    tasks[2].times.push(TimeFrame { id: 0, start_time: at(9), end_time: at(8) });
    assert!(!check_times(&tasks));
    assert!(check_times(&Vec::new()));
}

#[test]
fn count_running_counts_each_timer() {
    let mut tasks = three_tasks();
    assert_eq!(count_running(&tasks), 0);
    tasks[0].running_since = Some(at(1));
    tasks[2].running_since = Some(at(1));
    assert_eq!(count_running(&tasks), 2);
}
