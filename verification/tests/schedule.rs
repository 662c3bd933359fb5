use mirror_caddy::fetch::Outcome;
use mirror_caddy::listing::FileTask;
use mirror_caddy::schedule::{ScheduleError, Scheduler, Summary};

fn tasks(n: usize) -> Vec<FileTask> {
    (0..n)
        .map(|i| FileTask { path: format!("f{i}"), url: format!("http://h/f{i}") })
        .collect()
}

#[test]
fn no_more_downloads_run_than_the_limit() {
    let mut s = Scheduler::new(tasks(5), 2);
    assert_eq!(s.total(), 5);
    assert_eq!(s.start_next().unwrap().path, "f0");
    assert_eq!(s.start_next().unwrap().path, "f1");
    assert_eq!(s.start_next(), None);
    assert_eq!(s.active(), 2);
    assert_eq!(s.record(Outcome::Downloaded), Ok(1));
    assert_eq!(s.active(), 1);
    assert_eq!(s.start_next().unwrap().path, "f2");
    assert_eq!(s.start_next(), None);
}

#[test]
fn outcomes_are_counted_by_kind() {
    let mut s = Scheduler::new(tasks(4), 10);
    for _ in 0..4 {
        s.start_next().unwrap();
    }
    assert_eq!(s.start_next(), None);
    assert_eq!(s.record(Outcome::Downloaded), Ok(1));
    assert_eq!(s.record(Outcome::Skipped), Ok(2));
    assert_eq!(s.record(Outcome::Failed), Ok(3));
    assert!(!s.is_finished());
    assert_eq!(s.record(Outcome::Skipped), Ok(4));
    assert!(s.is_finished());
    assert_eq!(s.completed(), 4);
    assert_eq!(s.summary(), Summary { downloaded: 1, skipped: 2, failed: 1 });
}

#[test]
fn outcome_without_a_running_download_is_refused() {
    let mut s = Scheduler::new(tasks(1), 1);
    assert_eq!(s.record(Outcome::Failed), Err(ScheduleError::NothingActive));
    assert_eq!(s.summary(), Summary { downloaded: 0, skipped: 0, failed: 0 });
    s.start_next().unwrap();
    assert_eq!(s.record(Outcome::Downloaded), Ok(1));
    assert_eq!(s.record(Outcome::Downloaded), Err(ScheduleError::NothingActive));
    assert_eq!(s.summary(), Summary { downloaded: 1, skipped: 0, failed: 0 });
}

#[test]
fn empty_list_is_finished_at_once() {
    let mut s = Scheduler::new(Vec::new(), 50);
    assert!(s.is_finished());
    assert_eq!(s.start_next(), None);
    assert_eq!(s.completed(), 0);
}

#[test]
fn zero_limit_starts_nothing() {
    let mut s = Scheduler::new(tasks(2), 0);
    assert_eq!(s.start_next(), None);
    assert!(!s.is_finished());
}

#[test]
fn every_task_is_handed_out_once_in_order() {
    let mut s = Scheduler::new(tasks(7), 3);
    let mut seen = Vec::new();
    while !s.is_finished() {
        while let Some(t) = s.start_next() {
            seen.push(t.path);
        }
        s.record(Outcome::Skipped).unwrap();
    }
    assert_eq!(seen, vec!["f0", "f1", "f2", "f3", "f4", "f5", "f6"]);
    assert_eq!(s.summary(), Summary { downloaded: 0, skipped: 7, failed: 0 });
}

#[test]
fn run_is_abnormal_exactly_when_a_download_failed() {
    assert!(!Summary { downloaded: 3, skipped: 2, failed: 0 }.is_abnormal());
    assert!(Summary { downloaded: 3, skipped: 2, failed: 1 }.is_abnormal());
    assert!(!Summary { downloaded: 0, skipped: 0, failed: 0 }.is_abnormal());
}
