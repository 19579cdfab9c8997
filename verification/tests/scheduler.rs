use async_patterns::scheduler::{retain_unfinished, task_turn, TaskTurn, SPAWNED_WOKEN};

#[test]
fn woken_tasks_are_polled() {
    assert_eq!(task_turn(true), TaskTurn::ClearAndPoll);
    assert_eq!(task_turn(false), TaskTurn::Skip);
    assert_eq!(task_turn(SPAWNED_WOKEN), TaskTurn::ClearAndPoll);
}

#[test]
fn finished_tasks_are_dropped_in_order() {
    let tasks = vec!["a", "b", "c", "d", "e"];
    let kept = retain_unfinished(tasks, &vec![false, true, false, true, false]);
    assert_eq!(kept, vec!["a", "c", "e"]);
}

#[test]
fn round_edges() {
    assert_eq!(retain_unfinished(Vec::<u8>::new(), &vec![]), Vec::<u8>::new());
    assert_eq!(retain_unfinished(vec![1, 2], &vec![true, true]), Vec::<u8>::new());
    assert_eq!(retain_unfinished(vec![1, 2], &vec![false, false]), vec![1, 2]);
}
