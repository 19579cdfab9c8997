use async_patterns::pipeline::{finish_event, processing_delay_ms, random_event, Event, Job, LogLevel, LogSummary};

const TEXTS: [&str; 4] = ["Database timeout", "User logged in", "Connection reset", "Account updated"];

fn job(level: LogLevel, worker: u8) -> Job {
    Job { level, worker, message: "m".to_string() }
}

#[test]
fn delays_by_level() {
    assert_eq!(processing_delay_ms(LogLevel::Info), 50);
    assert_eq!(processing_delay_ms(LogLevel::Warn), 100);
    assert_eq!(processing_delay_ms(LogLevel::Error), 150);
}

#[test]
fn finished_job_keeps_event() {
    let e = Event { level: LogLevel::Warn, event: "Connection reset".to_string() };
    let j = finish_event(2, e);
    assert_eq!(j.level, LogLevel::Warn);
    assert_eq!(j.worker, 2);
    assert_eq!(j.message, "Connection reset");
}

#[test]
fn random_events_come_from_the_list() {
    let mut texts = std::collections::BTreeSet::new();
    let mut levels = std::collections::BTreeSet::new();
    for _ in 0..300 {
        let e = random_event();
        assert!(TEXTS.contains(&e.event.as_str()));
        texts.insert(e.event.clone());
        levels.insert(format!("{:?}", e.level));
    }
    assert!(texts.len() > 1);
    assert!(levels.len() > 1);
}

#[test]
fn summary_counts_levels_and_workers() {
    let mut s = LogSummary::new(3);
    assert_eq!(s.worker_count(0), Some(0));
    assert_eq!(s.worker_count(2), Some(0));
    assert_eq!(s.worker_count(3), None);
    for (level, worker) in [
        (LogLevel::Info, 0),
        (LogLevel::Error, 1),
        (LogLevel::Info, 1),
        (LogLevel::Warn, 2),
        (LogLevel::Info, 1),
    ] {
        s.record(&job(level, worker));
    }
    assert_eq!(s.level_count(LogLevel::Info), 3);
    assert_eq!(s.level_count(LogLevel::Warn), 1);
    assert_eq!(s.level_count(LogLevel::Error), 1);
    assert_eq!(s.worker_count(1), Some(3));
    assert_eq!(s.busiest_worker(), Some((1, 3)));
}

#[test]
fn unknown_worker_starts_being_tracked() {
    let mut s = LogSummary::new(3);
    s.record(&job(LogLevel::Error, 7));
    assert_eq!(s.worker_count(7), Some(1));
    s.record(&job(LogLevel::Error, 7));
    assert_eq!(s.busiest_worker(), Some((7, 2)));
}

#[test]
fn busiest_ties_and_empty() {
    let s = LogSummary::new(0);
    assert_eq!(s.busiest_worker(), None);
    let s = LogSummary::new(3);
    assert_eq!(s.busiest_worker(), Some((0, 0)));
    let mut s = LogSummary::new(3);
    s.record(&job(LogLevel::Info, 2));
    s.record(&job(LogLevel::Info, 1));
    assert_eq!(s.busiest_worker(), Some((1, 1)));
}
