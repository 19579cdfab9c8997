//! The scheduling rounds of a single-threaded executor. Each task carries a
//! wake flag, set when the task is spawned and whenever its waker fires. A
//! round visits the tasks in order: a task whose flag is clear is skipped;
//! otherwise its flag is cleared before it is polled, and a task that polls
//! ready is dropped. Rounds repeat until no task is left.

use vstd::prelude::*;

verus! {

/// The wake flag of a task that has just been spawned: set, so that the task
/// is polled in the next round.
pub const SPAWNED_WOKEN: bool = true;

/// What a round does with one task.
#[derive(Clone, Copy, Debug, PartialEq, Eq, Structural)]
pub enum TaskTurn {
    /// Leave the task alone this round.
    Skip,
    /// Clear the task's wake flag, then poll it.
    ClearAndPoll,
}

/// What a round does with a task whose wake flag reads `woken`.
pub open spec fn turn_for(woken: bool) -> TaskTurn {
    if woken {
        TaskTurn::ClearAndPoll
    } else {
        TaskTurn::Skip
    }
}

/// Decides what a round does with a task whose wake flag reads `woken`.
pub fn task_turn(woken: bool) -> (turn: TaskTurn)
    ensures
        turn == turn_for(woken),
{
    if woken {
        TaskTurn::ClearAndPoll
    } else {
        TaskTurn::Skip
    }
}

/// The tasks that remain after a round, in their order: those not `finished`.
pub open spec fn unfinished<T>(tasks: Seq<T>, finished: Seq<bool>) -> Seq<T>
    decreases tasks.len(),
{
    if tasks.len() == 0 {
        seq![]
    } else {
        let front = unfinished(tasks.drop_last(), finished.take(tasks.len() - 1));
        if finished[tasks.len() - 1] {
            front
        } else {
            front.push(tasks.last())
        }
    }
}

/// Drops the tasks that finished in this round (`finished[i]` for task `i`),
/// keeping the others in their order.
pub fn retain_unfinished<T>(tasks: Vec<T>, finished: &Vec<bool>) -> (kept: Vec<T>)
    requires
        tasks@.len() == finished@.len(),
    ensures
        kept@ == unfinished(tasks@, finished@),
        kept@ == kept_positions(finished@).map_values(|i: int| tasks@[i]),
{
    proof {
        lemma_round_keeps_unfinished_in_order(tasks@, finished@);
    }
    let ghost all = tasks@;
    let n = tasks.len();
    let mut rest = tasks;
    let mut kept: Vec<T> = Vec::new();
    let mut i: usize = 0;
    assert(all.take(0) =~= seq![]);
    assert(finished@.take(0) =~= seq![]);
    while i < n
        invariant
            n == all.len(),
            n == finished@.len(),
            i <= n,
            rest@ == all.skip(i as int),
            kept@ == unfinished(all.take(i as int), finished@.take(i as int)),
        decreases n - i,
    {
        let ghost before = rest@;
        let t = rest.remove(0);
        assert(t == all[i as int]);
        assert(rest@ =~= all.skip(i + 1));
        let ghost prefix = all.take(i + 1);
        assert(prefix.drop_last() =~= all.take(i as int));
        assert(finished@.take(i + 1).take(i as int) =~= finished@.take(i as int));
        assert(finished@.take(i + 1)[i as int] == finished@[i as int]);
        if !finished[i] {
            kept.push(t);
        }
        i = i + 1;
    }
    assert(all.take(n as int) =~= all);
    assert(finished@.take(n as int) =~= finished@);
    kept
}

/// The tasks that survive a round in which the tasks with flags `woken` were
/// visited and the polled ones answered `ready`: a task is dropped exactly
/// when it was woken and its poll answered ready.
pub open spec fn round_finished(woken: Seq<bool>, ready: Seq<bool>) -> Seq<bool> {
    Seq::new(woken.len(), |i: int| turn_for(woken[i]) == TaskTurn::ClearAndPoll && ready[i])
}

proof fn lemma_unfinished_len<T>(tasks: Seq<T>, finished: Seq<bool>)
    requires
        tasks.len() == finished.len(),
    ensures
        unfinished(tasks, finished).len() <= tasks.len(),
        (forall|i: int| 0 <= i < tasks.len() ==> !finished[i]) ==> unfinished(tasks, finished) == tasks,
    decreases tasks.len(),
{
    if tasks.len() > 0 {
        let m = tasks.len() - 1;
        lemma_unfinished_len(tasks.drop_last(), finished.take(m));
        if forall|i: int| 0 <= i < tasks.len() ==> !finished[i] {
            assert forall|i: int| 0 <= i < m implies !finished.take(m)[i] by {}
            assert(tasks.drop_last().push(tasks.last()) =~= tasks);
        }
    }
}

/// A round never adds tasks; a task whose wake flag was clear is never polled
/// and never dropped; a round in which no woken task finished keeps every
/// task; and a task is dropped only when it was polled and answered ready.
pub proof fn lemma_round<T>(tasks: Seq<T>, woken: Seq<bool>, ready: Seq<bool>)
    requires
        tasks.len() == woken.len(),
        woken.len() == ready.len(),
    ensures
        unfinished(tasks, round_finished(woken, ready)).len() <= tasks.len(),
        forall|i: int| 0 <= i < woken.len() && !woken[i] ==> !#[trigger] round_finished(woken, ready)[i],
        forall|i: int| 0 <= i < woken.len() && #[trigger] round_finished(woken, ready)[i] ==> woken[i] && ready[i],
        (forall|i: int| 0 <= i < woken.len() ==> !(woken[i] && ready[i]))
            ==> unfinished(tasks, round_finished(woken, ready)) == tasks,
{
    let f = round_finished(woken, ready);
    lemma_unfinished_len(tasks, f);
}

/// The positions `i` with `!finished[i]`, by increasing `i`.
pub open spec fn kept_positions(finished: Seq<bool>) -> Seq<int> {
    positions_below(finished, finished.len() as int)
}

/// The positions `i < n` with `!finished[i]`, by increasing `i`.
pub open spec fn positions_below(finished: Seq<bool>, n: int) -> Seq<int> {
    Seq::new(n as nat, |i: int| i).filter(|i: int| !finished[i])
}

proof fn lemma_positions_step(finished: Seq<bool>, n: int)
    requires
        0 < n <= finished.len(),
    ensures
        positions_below(finished, n) == (if finished[n - 1] {
            positions_below(finished, n - 1)
        } else {
            positions_below(finished, n - 1).push(n - 1)
        }),
{
    reveal(Seq::filter);
    let ids = Seq::new(n as nat, |i: int| i);
    let prev = Seq::new((n - 1) as nat, |i: int| i);
    assert(ids.drop_last() =~= prev);
    assert(ids.len() > 0);
    assert(ids.last() == n - 1);
    assert(positions_below(finished, n) == ids.filter(|i: int| !finished[i]));
    assert(positions_below(finished, n - 1) == prev.filter(|i: int| !finished[i]));
    assert(ids.filter(|i: int| !finished[i]) == (if !finished[n - 1] {
        ids.drop_last().filter(|i: int| !finished[i]).push(n - 1)
    } else {
        ids.drop_last().filter(|i: int| !finished[i])
    }));
}

proof fn lemma_positions_empty(finished: Seq<bool>)
    ensures
        positions_below(finished, 0) == Seq::<int>::empty(),
{
    reveal(Seq::filter);
    assert(Seq::new(0, |i: int| i).filter(|i: int| !finished[i]) =~= Seq::<int>::empty());
}

proof fn lemma_kept_positions_increasing(finished: Seq<bool>, n: int)
    requires
        0 <= n <= finished.len(),
    ensures
        forall|k: int| 0 <= k < positions_below(finished, n).len()
            ==> 0 <= #[trigger] positions_below(finished, n)[k] < n,
        forall|a: int, b: int| 0 <= a < b < positions_below(finished, n).len()
            ==> #[trigger] positions_below(finished, n)[a]
                < #[trigger] positions_below(finished, n)[b],
    decreases n,
{
    if n == 0 {
        lemma_positions_empty(finished);
    } else {
        let m = n - 1;
        lemma_kept_positions_increasing(finished, m);
        lemma_positions_step(finished, n);
        let prev = positions_below(finished, m);
        let cur = positions_below(finished, n);
        assert forall|k: int| 0 <= k < cur.len() implies 0 <= #[trigger] cur[k] < n by {
            if k < prev.len() {
                assert(cur[k] == prev[k]);
            }
        }
        assert forall|a: int, b: int| 0 <= a < b < cur.len() implies #[trigger] cur[a] < #[trigger] cur[b] by {
            assert(cur[a] == prev[a]);
            if b < prev.len() {
                assert(cur[b] == prev[b]);
            } else {
                assert(prev[a] < m);
            }
        }
    }
}

proof fn lemma_unfinished_prefix<T>(tasks: Seq<T>, finished: Seq<bool>, n: int)
    requires
        tasks.len() == finished.len(),
        0 <= n <= tasks.len(),
    ensures
        unfinished(tasks.take(n), finished.take(n))
            == positions_below(finished, n).map_values(|i: int| tasks[i]),
    decreases n,
{
    if n == 0 {
        lemma_positions_empty(finished);
        assert(tasks.take(0) =~= seq![]);
        assert(positions_below(finished, 0).map_values(|i: int| tasks[i]) =~= seq![]);
    } else {
        let m = n - 1;
        lemma_unfinished_prefix(tasks, finished, m);
        lemma_positions_step(finished, n);
        assert(tasks.take(n).drop_last() =~= tasks.take(m));
        assert(finished.take(n).take(m) =~= finished.take(m));
        assert(finished.take(n)[m] == finished[m]);
        assert(tasks.take(n).last() == tasks[m]);
        let front = positions_below(finished, m);
        if !finished[m] {
            assert(front.push(m).map_values(|i: int| tasks[i]) =~= front.map_values(|i: int| tasks[i]).push(tasks[m]));
        }
    }
}

/// A round keeps exactly the tasks that did not finish, in their order: the
/// result lists `tasks[i]` for each position `i` with `!finished[i]`, by
/// increasing `i`. So as many tasks survive as did not finish, a finished task
/// is never kept and an unfinished one never dropped; when only the first
/// task finished the round leaves the rest, and when only the last one
/// finished it leaves all the others.
pub proof fn lemma_round_keeps_unfinished_in_order<T>(tasks: Seq<T>, finished: Seq<bool>)
    requires
        tasks.len() == finished.len(),
    ensures
        unfinished(tasks, finished) == kept_positions(finished).map_values(|i: int| tasks[i]),
        unfinished(tasks, finished).len() == kept_positions(finished).len(),
        forall|i: int| #[trigger] kept_positions(finished).contains(i) <==> 0 <= i < tasks.len() && !finished[i],
        forall|a: int, b: int| 0 <= a < b < kept_positions(finished).len()
            ==> #[trigger] kept_positions(finished)[a] < #[trigger] kept_positions(finished)[b],
        tasks.len() > 0 && finished[0] && (forall|i: int| 1 <= i < tasks.len() ==> !finished[i])
            ==> unfinished(tasks, finished) == tasks.drop_first(),
        tasks.len() > 0 && finished[tasks.len() - 1] && (forall|i: int| 0 <= i < tasks.len() - 1 ==> !finished[i])
            ==> unfinished(tasks, finished) == tasks.drop_last(),
{
    let n = tasks.len() as int;
    let p = |k: int| !finished[k];
    let ids = Seq::new(tasks.len(), |k: int| k);
    assert(kept_positions(finished) == ids.filter(|i: int| !finished[i]));
    lemma_unfinished_prefix(tasks, finished, n);
    lemma_kept_positions_increasing(finished, n);
    assert(tasks.take(n) =~= tasks);
    assert(finished.take(n) =~= finished);
    assert forall|i: int| #[trigger] kept_positions(finished).contains(i) <==> 0 <= i < n && !finished[i] by {
        ids.filter_lemma(p);
        if 0 <= i < n && !finished[i] {
            assert(ids[i] == i);
            assert(ids.contains(i));
        }
        if ids.filter(p).contains(i) {
            let k = choose|k: int| 0 <= k < ids.filter(p).len() && ids.filter(p)[k] == i;
            assert(ids.contains(ids.filter(p)[k]));
        }
    }
    if n > 0 && finished[0] && (forall|i: int| 1 <= i < n ==> !finished[i]) {
        lemma_only_first_finished(tasks, finished, n);
        assert(tasks.take(n).drop_first() =~= tasks.drop_first());
    }
    if n > 0 && finished[n - 1] && (forall|i: int| 0 <= i < n - 1 ==> !finished[i]) {
        lemma_unfinished_len(tasks.drop_last(), finished.take(n - 1));
        assert forall|i: int| 0 <= i < n - 1 implies !#[trigger] finished.take(n - 1)[i] by {}
    }
}

proof fn lemma_only_first_finished<T>(tasks: Seq<T>, finished: Seq<bool>, n: int)
    requires
        tasks.len() == finished.len(),
        1 <= n <= tasks.len(),
        finished[0],
        forall|i: int| 1 <= i < tasks.len() ==> !finished[i],
    ensures
        unfinished(tasks.take(n), finished.take(n)) == tasks.take(n).drop_first(),
    decreases n,
{
    if n == 1 {
        assert(tasks.take(1).drop_last() =~= seq![]);
        assert(finished.take(1)[0] == finished[0]);
        assert(unfinished(tasks.take(1).drop_last(), finished.take(1).take(0)) =~= seq![]);
        assert(tasks.take(1).drop_first() =~= seq![]);
    } else {
        let m = n - 1;
        lemma_only_first_finished(tasks, finished, m);
        assert(tasks.take(n).drop_last() =~= tasks.take(m));
        assert(finished.take(n).take(m) =~= finished.take(m));
        assert(finished.take(n)[m] == finished[m]);
        assert(tasks.take(m).drop_first().push(tasks[m]) =~= tasks.take(n).drop_first());
    }
}

} // verus!
