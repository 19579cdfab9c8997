use async_patterns::pool::{duration_string, query_delay_ms, Connection, ConnectionPool};
use std::time::Duration;

#[test]
fn returns_up_to_capacity_without_blocking() {
    const POOL_SIZE: u32 = 3;
    let mut pool = ConnectionPool::new(POOL_SIZE);

    // Check out POOL_SIZE connections
    let _c1 = pool.checkout().expect("idle connection");
    let _c2 = pool.checkout().expect("idle connection");
    let _c3 = pool.checkout().expect("idle connection");

    // The next checkout finds nothing idle: a caller has to wait for a return
    let result = pool.checkout();
    assert!(result.is_none(), "no connection should be idle");
}

#[test]
fn unblocks_when_connection_returned() {
    const POOL_SIZE: u32 = 1;
    let mut pool = ConnectionPool::new(POOL_SIZE);

    let c1 = pool.checkout().expect("idle connection");

    // Pool exhausted
    let result = pool.checkout();
    assert!(result.is_none(), "no connection should be idle");

    // Return the connection; the next checkout finds it
    pool.checkin(c1);
    let result = pool.checkout();
    assert!(result.is_some(), "the returned connection should be idle");
}

#[test]
fn same_connection_reused() {
    const POOL_SIZE: u32 = 1;
    let mut pool = ConnectionPool::new(POOL_SIZE);

    let c1 = pool.checkout().expect("idle connection");
    let id1 = c1.id;
    pool.checkin(c1);

    let c2 = pool.checkout().expect("idle connection");
    let id2 = c2.id;
    pool.checkin(c2);

    assert_eq!(id1, id2, "same connection should be reused");
}

#[test]
fn test_query() {
    let connection = Connection::new(0);
    let msg = connection.query_report("NAME=test", query_delay_ms());
    let mut iter = msg.split_whitespace();

    assert_eq!(Some("connection"), iter.next());
    assert_eq!(Some("0:"), iter.next());
    assert_eq!(Some("query"), iter.next());
    assert_eq!(Some("\"NAME=test\""), iter.next());
    assert_eq!(Some("completed"), iter.next());
    assert_eq!(Some("in"), iter.next());
    assert!(iter.next().expect("bad test expectation").ends_with("ms"));
    assert_eq!(None, iter.next());
}

#[test]
fn query_report_exact() {
    let connection = Connection::new(42);
    assert_eq!(
        connection.query_report("SELECT 1", 150),
        "connection 42: query \"SELECT 1\" completed in 150ms"
    );
}

#[test]
fn query_delay_in_range_and_random() {
    let mut seen = std::collections::BTreeSet::new();
    for _ in 0..300 {
        let d = query_delay_ms();
        assert!((50..=200).contains(&d));
        seen.insert(d);
    }
    assert!(seen.len() > 1);
}

#[test]
fn connections_handed_out_first_in_first_out() {
    let mut pool = ConnectionPool::new(3);
    assert_eq!(pool.idle_count(), 3);
    let a = pool.checkout().unwrap();
    let b = pool.checkout().unwrap();
    assert_eq!((a.id, b.id), (0, 1));
    pool.checkin(a);
    let c = pool.checkout().unwrap();
    assert_eq!(c.id, 2);
    let d = pool.checkout().unwrap();
    assert_eq!(d.id, 0);
    assert_eq!(pool.idle_count(), 0);
}

#[test]
fn empty_pool_has_nothing() {
    let mut pool = ConnectionPool::new(0);
    assert_eq!(pool.idle_count(), 0);
    assert!(pool.checkout().is_none());
}

#[test]
fn durations_read_like_debug_output() {
    for ms in [0u64, 1, 9, 50, 150, 200, 999, 1000, 1001, 1010, 1100, 1500, 1234, 2000, 61_000, 3_600_007, u64::MAX] {
        assert_eq!(duration_string(ms), format!("{:?}", Duration::from_millis(ms)), "{ms}");
    }
}

#[test]
fn idle_and_checked_out_add_up_to_capacity() {
    let mut pool = ConnectionPool::new(3);
    assert_eq!((pool.idle_count(), pool.checked_out_count()), (3, 0));
    let a = pool.checkout().unwrap();
    let b = pool.checkout().unwrap();
    assert_eq!((pool.idle_count(), pool.checked_out_count()), (1, 2));
    pool.checkin(b);
    assert_eq!((pool.idle_count(), pool.checked_out_count()), (2, 1));
    pool.checkin(a);
    assert_eq!((pool.idle_count(), pool.checked_out_count()), (3, 0));
}
