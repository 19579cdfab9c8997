//! A log-processing pipeline: a producer of random log events, workers that
//! process them, and a collector that summarises what was processed.

use vstd::prelude::*;
use vstd::string::*;
use crate::rng::choose_one;
use std::collections::HashMap;

verus! {

/// The severity of a log event.
#[derive(Clone, Copy, Debug, PartialEq, Eq, Structural, Hash)]
pub enum LogLevel {
    Info,
    Warn,
    Error,
}

/// A raw log event.
pub struct Event {
    pub level: LogLevel,
    pub event: String,
}

/// A processed log event, with the worker that processed it.
pub struct Job {
    pub level: LogLevel,
    pub worker: u8,
    pub message: String,
}

/// The texts the producer draws its events from.
pub open spec fn event_texts() -> Seq<Seq<char>> {
    seq![
        seq!['D', 'a', 't', 'a', 'b', 'a', 's', 'e', ' ', 't', 'i', 'm', 'e', 'o', 'u', 't'],
        seq!['U', 's', 'e', 'r', ' ', 'l', 'o', 'g', 'g', 'e', 'd', ' ', 'i', 'n'],
        seq!['C', 'o', 'n', 'n', 'e', 'c', 't', 'i', 'o', 'n', ' ', 'r', 'e', 's', 'e', 't'],
        seq!['A', 'c', 'c', 'o', 'u', 'n', 't', ' ', 'u', 'p', 'd', 'a', 't', 'e', 'd'],
    ]
}

/// A random event: a random level and a random text from [`event_texts`].
pub fn random_event() -> (e: Event)
    ensures
        event_texts().contains(e.event@),
{
    let levels = [LogLevel::Info, LogLevel::Warn, LogLevel::Error];
    let texts = ["Database timeout", "User logged in", "Connection reset", "Account updated"];
    proof {
        reveal_strlit("Database timeout");
        reveal_strlit("User logged in");
        reveal_strlit("Connection reset");
        reveal_strlit("Account updated");
    }
    assert("Database timeout"@ =~= event_texts()[0]);
    assert("User logged in"@ =~= event_texts()[1]);
    assert("Connection reset"@ =~= event_texts()[2]);
    assert("Account updated"@ =~= event_texts()[3]);
    let level = match choose_one(levels.as_slice()) {
        Some(l) => l,
        None => LogLevel::Info,
    };
    let text = match choose_one(texts.as_slice()) {
        Some(t) => t,
        None => "Database timeout",
    };
    proof {
        let k = choose|k: int| 0 <= k < texts@.len() && texts@[k] == text;
        assert(event_texts()[k] == text@);
    }
    Event { level, event: String::from_str(text) }
}

/// How long processing an event of `level` takes, in milliseconds.
pub open spec fn delay_for(level: LogLevel) -> u64 {
    match level {
        LogLevel::Info => 50,
        LogLevel::Warn => 100,
        LogLevel::Error => 150,
    }
}

/// How long processing an event of `level` takes: 50, 100 or 150 ms.
pub fn processing_delay_ms(level: LogLevel) -> (ms: u64)
    ensures
        ms == delay_for(level),
{
    match level {
        LogLevel::Info => 50,
        LogLevel::Warn => 100,
        LogLevel::Error => 150,
    }
}

/// The job that `worker` makes of `event` once processed.
pub fn finish_event(worker: u8, event: Event) -> (job: Job)
    ensures
        job.level == event.level,
        job.worker == worker,
        job.message@ == event.event@,
{
    Job { level: event.level, worker, message: event.event }
}

/// The collector's tally: how many jobs of each level, and how many jobs each
/// worker processed.
pub struct LogSummary {
    info: i32,
    warn: i32,
    error: i32,
    /// The number of jobs of each worker tracked.
    workers: HashMap<u8, u16>,
}

impl LogSummary {
    /// The number of jobs of `level` recorded.
    pub closed spec fn level_total(self, level: LogLevel) -> int {
        match level {
            LogLevel::Info => self.info as int,
            LogLevel::Warn => self.warn as int,
            LogLevel::Error => self.error as int,
        }
    }

    /// The workers tracked and the number of jobs of each.
    pub closed spec fn worker_totals(self) -> Map<u8, u16> {
        self.workers@
    }

    /// An empty tally that tracks workers `0..num_workers`.
    pub fn new(num_workers: u8) -> (s: Self)
        ensures
            forall|l: LogLevel| #[trigger] s.level_total(l) == 0,
            s.worker_totals() == Map::new(|w: u8| w < num_workers, |w: u8| 0u16),
    {
        let mut workers: HashMap<u8, u16> = HashMap::new();
        let mut i: u8 = 0;
        while i < num_workers
            invariant
                i <= num_workers,
                workers@ == Map::new(|w: u8| w < i, |w: u8| 0u16),
            decreases num_workers - i,
        {
            workers.insert(i, 0);
            assert(workers@ =~= Map::new(|w: u8| w < i + 1, |w: u8| 0u16));
            i = i + 1;
        }
        LogSummary { info: 0, warn: 0, error: 0, workers }
    }

    /// The number of jobs of `level` recorded.
    pub fn level_count(&self, level: LogLevel) -> (n: i32)
        ensures
            n == self.level_total(level),
    {
        match level {
            LogLevel::Info => self.info,
            LogLevel::Warn => self.warn,
            LogLevel::Error => self.error,
        }
    }

    /// The number of jobs of `worker`, if the worker is tracked.
    pub fn worker_count(&self, worker: u8) -> (n: Option<u16>)
        ensures
            n is Some <==> self.worker_totals().contains_key(worker),
            n matches Some(c) ==> c == self.worker_totals()[worker],
    {
        match self.workers.get(&worker) {
            Some(c) => Some(*c),
            None => None,
        }
    }

    /// Counts `job`: one more of its level, and one more for its worker (a
    /// worker not tracked yet starts being tracked with one job). The counts
    /// must not be at their maximum.
    pub fn record(&mut self, job: &Job)
        requires
            old(self).level_total(job.level) < i32::MAX,
            old(self).worker_totals().contains_key(job.worker) ==> old(self).worker_totals()[job.worker] < u16::MAX,
        ensures
            forall|l: LogLevel| #[trigger] final(self).level_total(l) == old(self).level_total(l) + if l == job.level { 1int } else { 0int },
            final(self).worker_totals() == old(self).worker_totals().insert(
                job.worker,
                if old(self).worker_totals().contains_key(job.worker) {
                    (old(self).worker_totals()[job.worker] + 1) as u16
                } else {
                    1u16
                },
            ),
    {
        match job.level {
            LogLevel::Info => self.info = self.info + 1,
            LogLevel::Warn => self.warn = self.warn + 1,
            LogLevel::Error => self.error = self.error + 1,
        }
        let next = match self.workers.get(&job.worker) {
            Some(c) => *c + 1,
            None => 1,
        };
        self.workers.insert(job.worker, next);
    }

    /// The worker with the most jobs and its count, or `None` when no worker
    /// is tracked. Among workers with equally many jobs the one with the
    /// smallest id is reported.
    pub fn busiest_worker(&self) -> (best: Option<(u8, u16)>)
        ensures
            best is None <==> self.worker_totals().dom().is_empty(),
            best matches Some((w, c)) ==> {
                &&& self.worker_totals().contains_key(w)
                &&& self.worker_totals()[w] == c
                &&& forall|k: u8| #[trigger] self.worker_totals().contains_key(k) ==> self.worker_totals()[k] <= c
                &&& forall|k: u8| #[trigger] self.worker_totals().contains_key(k) && k < w ==> self.worker_totals()[k] < c
            },
    {
        let ghost totals = self.worker_totals();
        let mut best: Option<(u8, u16)> = None;
        let mut i: u16 = 0;
        while i < 256
            invariant
                i <= 256,
                totals == self.worker_totals(),
                best is None <==> (forall|k: u8| k < i ==> !#[trigger] totals.contains_key(k)),
                best matches Some((w, c)) ==> {
                    &&& w < i
                    &&& totals.contains_key(w)
                    &&& totals[w] == c
                    &&& forall|k: u8| #[trigger] totals.contains_key(k) && k < i ==> totals[k] <= c
                    &&& forall|k: u8| #[trigger] totals.contains_key(k) && k < w ==> totals[k] < c
                },
            decreases 256 - i,
        {
            let k = i as u8;
            match self.workers.get(&k) {
                Some(c) => {
                    let c = *c;
                    match best {
                        None => {
                            best = Some((k, c));
                        },
                        Some((_, bc)) => {
                            if c > bc {
                                best = Some((k, c));
                            }
                        },
                    }
                },
                None => {},
            }
            proof {
                if let Some((w, c)) = best {
                    assert(totals.contains_key(w));
                }
            }
            i = i + 1;
        }
        proof {
            if best is None {
                assert forall|k: u8| !totals.dom().contains(k) by {
                    assert(k < 256);
                }
                assert(totals.dom() =~= Set::empty());
            } else {
                let (w, c) = best->0;
                assert(totals.dom().contains(w));
            }
        }
        best
    }
}

} // verus!
