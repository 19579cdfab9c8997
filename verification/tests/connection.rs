use async_patterns::echo::{echo_step, EchoAction, ReadOutcome, StopReason};
use async_patterns::text::{decimal_string, trim_whitespace};
use async_patterns::task_queue::{completion_text, in_flight, work_duration_ms};
use async_patterns::timer::{TimerPoll, TimerState};

#[test]
fn echo_decisions() {
    assert!(matches!(echo_step(ReadOutcome::Read(5)), EchoAction::Echo(5)));
    assert!(matches!(echo_step(ReadOutcome::Read(0)), EchoAction::Stop(StopReason::Disconnected)));
    assert!(matches!(echo_step(ReadOutcome::Failed), EchoAction::Stop(StopReason::ReadError)));
    assert!(matches!(echo_step(ReadOutcome::TimedOut), EchoAction::Stop(StopReason::ReadTimeout)));
}

#[test]
fn timer_starts_one_thread() {
    let mut t = TimerState::new();
    assert_eq!(t.poll(false), TimerPoll::Pending { start_thread: true });
    assert_eq!(t.poll(false), TimerPoll::Pending { start_thread: false });
    assert_eq!(t.poll(false), TimerPoll::Pending { start_thread: false });
    assert_eq!(t.poll(true), TimerPoll::Ready);
    assert_eq!(t.poll(false), TimerPoll::Ready);
}

#[test]
fn first_poll_is_pending_and_ready_is_final() {
    let mut t = TimerState::new();
    // The first poll starts the thread; only that thread can complete the timer.
    assert_eq!(t.poll(true), TimerPoll::Pending { start_thread: true });
    assert_eq!(t.poll(true), TimerPoll::Ready);
    // Once complete, the timer stays ready.
    assert_eq!(t.poll(false), TimerPoll::Ready);
}

#[test]
fn decimal_rendering() {
    assert_eq!(decimal_string(0), "0");
    assert_eq!(decimal_string(7), "7");
    assert_eq!(decimal_string(10), "10");
    assert_eq!(decimal_string(1234567890), "1234567890");
    assert_eq!(decimal_string(u64::MAX), u64::MAX.to_string());
}

#[test]
fn trimming_matches_std() {
    for s in ["", "  ", " a ", "\u{85}x\u{2028}", "a b\tc", "\u{200B}z\u{200B}", "\r\nline\r\n"] {
        assert_eq!(trim_whitespace(s), s.trim());
    }
}

#[test]
fn task_queue_helpers() {
    assert_eq!(completion_text(7), "Task 7 completed");
    assert_eq!(completion_text(19), "Task 19 completed");
    assert_eq!(in_flight(5), 0);
    assert_eq!(in_flight(0), 5);
    assert_eq!(in_flight(2), 3);
    let mut seen = std::collections::BTreeSet::new();
    for _ in 0..200 {
        let d = work_duration_ms();
        assert!((100..=500).contains(&d));
        seen.insert(d);
    }
    assert!(seen.len() > 1);
}
