//! The state of a timer future: its first poll starts the one background
//! thread that will complete it and answers pending (the thread cannot have
//! signalled yet, even for a zero duration); later polls wait until that
//! thread has signalled completion, and from then on the timer stays ready.

use vstd::prelude::*;

verus! {

/// Whether the timer's background thread has been started, and whether the
/// timer has been seen complete.
pub struct TimerState {
    started: bool,
    done: bool,
}

impl View for TimerState {
    /// `(started, done)`.
    type V = (bool, bool);

    closed spec fn view(&self) -> (bool, bool) {
        (self.started, self.done)
    }
}

/// What a poll of the timer answers.
#[derive(Clone, Copy, Debug, PartialEq, Eq, Structural)]
pub enum TimerPoll {
    /// The timer has elapsed.
    Ready,
    /// Not yet; when `start_thread`, start the background thread now.
    Pending { start_thread: bool },
}

/// The answer to a poll from state `s` (started, done) when the completion
/// flag reads `completed`: ready once done; otherwise a timer that has not
/// started its thread starts it, since only that thread sets the flag; then
/// ready when the flag says so, pending until it does.
pub open spec fn poll_answer(s: (bool, bool), completed: bool) -> TimerPoll {
    if s.1 {
        TimerPoll::Ready
    } else if !s.0 {
        TimerPoll::Pending { start_thread: true }
    } else if completed {
        TimerPoll::Ready
    } else {
        TimerPoll::Pending { start_thread: false }
    }
}

/// The state after a poll from state `s` when the completion flag reads `completed`.
pub open spec fn poll_next(s: (bool, bool), completed: bool) -> (bool, bool) {
    (s.0 || !s.1, s.1 || (s.0 && completed))
}

impl TimerState {
    /// A timer whose thread has not been started.
    pub fn new() -> (t: Self)
        ensures
            t@ == (false, false),
    {
        TimerState { started: false, done: false }
    }

    /// Polls the timer, given whether its thread has signalled completion.
    pub fn poll(&mut self, completed: bool) -> (answer: TimerPoll)
        ensures
            answer == poll_answer(old(self)@, completed),
            final(self)@ == poll_next(old(self)@, completed),
    {
        if self.done {
            TimerPoll::Ready
        } else if !self.started {
            self.started = true;
            TimerPoll::Pending { start_thread: true }
        } else if completed {
            self.done = true;
            TimerPoll::Ready
        } else {
            TimerPoll::Pending { start_thread: false }
        }
    }
}

/// The answers to polls with the given completion flags, from state `s`.
pub open spec fn poll_answers(s: (bool, bool), polls: Seq<bool>) -> Seq<TimerPoll>
    decreases polls.len(),
{
    if polls.len() == 0 {
        seq![]
    } else {
        seq![poll_answer(s, polls[0])] + poll_answers(poll_next(s, polls[0]), polls.drop_first())
    }
}

/// The state after polls with the given completion flags, from state `s`.
pub open spec fn state_after(s: (bool, bool), polls: Seq<bool>) -> (bool, bool)
    decreases polls.len(),
{
    if polls.len() == 0 {
        s
    } else {
        state_after(poll_next(s, polls[0]), polls.drop_first())
    }
}

/// How many threads a timer starts over polls with the given completion
/// flags, from state `s`.
pub open spec fn threads_started(s: (bool, bool), polls: Seq<bool>) -> nat
    decreases polls.len(),
{
    if polls.len() == 0 {
        0
    } else {
        (if poll_answer(s, polls[0]) == (TimerPoll::Pending { start_thread: true }) { 1nat } else { 0nat })
            + threads_started(poll_next(s, polls[0]), polls.drop_first())
    }
}

/// A timer starts at most one background thread, however often it is polled,
/// and none once it has started one; once it answers `Ready` it answers
/// `Ready` to every later poll; and a started timer stays started.
pub proof fn lemma_timer_polls(s: (bool, bool), polls: Seq<bool>)
    ensures
        poll_answers(s, polls).len() == polls.len(),
        threads_started(s, polls) <= 1,
        s.0 ==> threads_started(s, polls) == 0,
        s.0 ==> state_after(s, polls).0,
        s.1 ==> forall|i: int| 0 <= i < polls.len() ==> #[trigger] poll_answers(s, polls)[i] == TimerPoll::Ready,
        forall|i: int, j: int| 0 <= i < j < polls.len() && #[trigger] poll_answers(s, polls)[i] == TimerPoll::Ready
            ==> #[trigger] poll_answers(s, polls)[j] == TimerPoll::Ready,
    decreases polls.len(),
{
    if polls.len() > 0 {
        let next = poll_next(s, polls[0]);
        let rest = polls.drop_first();
        lemma_timer_polls(next, rest);
        let answers = poll_answers(s, polls);
        assert forall|i: int| 0 <= i < polls.len() implies #[trigger] answers[i] == (if i == 0 {
            poll_answer(s, polls[0])
        } else {
            poll_answers(next, rest)[i - 1]
        }) by {}
        assert forall|i: int, j: int| 0 <= i < j < polls.len() && #[trigger] answers[i] == TimerPoll::Ready
            implies #[trigger] answers[j] == TimerPoll::Ready by {
            if i == 0 {
                assert(next.1);
                assert(poll_answers(next, rest)[j - 1] == TimerPoll::Ready);
            } else {
                assert(poll_answers(next, rest)[i - 1] == TimerPoll::Ready);
                assert(poll_answers(next, rest)[j - 1] == TimerPoll::Ready);
            }
        }
        if s.1 {
            assert forall|i: int| 0 <= i < polls.len() implies #[trigger] answers[i] == TimerPoll::Ready by {
                if i > 0 {
                    assert(poll_answers(next, rest)[i - 1] == TimerPoll::Ready);
                }
            }
        }
    }
}

/// A new timer, however its completion flag reads at each poll, answers its
/// first poll `Pending` and starts exactly one thread then; it is done only
/// once started; and its answers are `Pending`s followed only by `Ready`s.
pub proof fn lemma_new_timer_polls(polls: Seq<bool>)
    requires
        polls.len() > 0,
    ensures
        poll_answers((false, false), polls)[0] == (TimerPoll::Pending { start_thread: true }),
        threads_started((false, false), polls) == 1,
        state_after((false, false), polls).0,
        forall|i: int, j: int| 0 <= i < j < polls.len() && #[trigger] poll_answers((false, false), polls)[i] == TimerPoll::Ready
            ==> #[trigger] poll_answers((false, false), polls)[j] == TimerPoll::Ready,
{
    let s = (false, false);
    let next = poll_next(s, polls[0]);
    assert(next == (true, false));
    lemma_timer_polls(next, polls.drop_first());
    lemma_timer_polls(s, polls);
    assert(state_after(s, polls) == state_after(next, polls.drop_first()));
}

/// A timer is never done without having started its thread.
pub proof fn lemma_done_implies_started(s: (bool, bool), completed: bool)
    requires
        s.1 ==> s.0,
    ensures
        poll_next(s, completed).1 ==> poll_next(s, completed).0,
        poll_next(s, completed).0,
{
}

} // verus!
