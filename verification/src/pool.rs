//! A fixed set of reusable connections, handed out first-in first-out.
//!
//! The pool itself never blocks: when no connection is idle, [`ConnectionPool::checkout`]
//! says so, and the caller waits for one to come back (with a semaphore of as
//! many permits as there are connections).

use vstd::prelude::*;
use vstd::string::*;
use std::collections::VecDeque;
use crate::text::{decimal, decimal_string, digit_char, digit_str};
use crate::rng::random_u64_inclusive;

verus! {

/// A simulated database connection.
pub struct Connection {
    pub id: u32,
}

/// How a whole number of milliseconds reads when a `Duration` is shown with
/// `{:?}`: `0ns`; `{ms}ms` below a second; otherwise seconds with the
/// fraction's trailing zeros dropped, such as `2s` or `1.05s`.
pub open spec fn duration_text(ms: nat) -> Seq<char> {
    if ms == 0 {
        seq!['0', 'n', 's']
    } else if ms < 1000 {
        decimal(ms) + seq!['m', 's']
    } else {
        let secs = ms / 1000;
        let frac = ms % 1000;
        let digits = if frac == 0 {
            seq![]
        } else if frac % 100 == 0 {
            seq!['.', digit_char(frac / 100)]
        } else if frac % 10 == 0 {
            seq!['.', digit_char(frac / 100), digit_char((frac / 10) % 10)]
        } else {
            seq!['.', digit_char(frac / 100), digit_char((frac / 10) % 10), digit_char(frac % 10)]
        };
        decimal(secs) + digits + seq!['s']
    }
}

/// The report of a query: `connection {id}: query "{sql}" completed in {duration}`.
pub open spec fn query_line(id: nat, sql: Seq<char>, delay_ms: nat) -> Seq<char> {
    seq!['c', 'o', 'n', 'n', 'e', 'c', 't', 'i', 'o', 'n', ' '] + decimal(id)
        + seq![':', ' ', 'q', 'u', 'e', 'r', 'y', ' ', '"'] + sql
        + seq!['"', ' ', 'c', 'o', 'm', 'p', 'l', 'e', 't', 'e', 'd', ' ', 'i', 'n', ' ']
        + duration_text(delay_ms)
}

/// Shows `ms` milliseconds the way `Duration`'s `{:?}` does.
pub fn duration_string(ms: u64) -> (text: String)
    ensures
        text@ == duration_text(ms as nat),
{
    proof {
        reveal_strlit("0ns");
        reveal_strlit("ms");
        reveal_strlit("s");
        reveal_strlit(".");
    }
    assert("0ns"@ =~= seq!['0', 'n', 's']);
    assert("ms"@ =~= seq!['m', 's']);
    assert("s"@ =~= seq!['s']);
    assert("."@ =~= seq!['.']);
    if ms == 0 {
        String::from_str("0ns")
    } else if ms < 1000 {
        let mut text = decimal_string(ms);
        text.append("ms");
        text
    } else {
        let secs = ms / 1000;
        let frac = ms % 1000;
        let mut text = decimal_string(secs);
        if frac != 0 {
            text.append(".");
            text.append(digit_str(frac / 100));
            if frac % 100 != 0 {
                text.append(digit_str((frac / 10) % 10));
                if frac % 10 != 0 {
                    text.append(digit_str(frac % 10));
                }
            }
        }
        text.append("s");
        assert(text@ =~= duration_text(ms as nat));
        text
    }
}

impl Connection {
    pub fn new(id: u32) -> (c: Self)
        ensures
            c.id == id,
    {
        Connection { id }
    }

    /// The report of query `sql` that took `delay_ms` milliseconds.
    pub fn query_report(&self, sql: &str, delay_ms: u64) -> (report: String)
        ensures
            report@ == query_line(self.id as nat, sql@, delay_ms as nat),
    {
        proof {
            reveal_strlit("connection ");
            reveal_strlit(": query \"");
            reveal_strlit("\" completed in ");
        }
        assert("connection "@ =~= seq!['c', 'o', 'n', 'n', 'e', 'c', 't', 'i', 'o', 'n', ' ']);
        assert(": query \""@ =~= seq![':', ' ', 'q', 'u', 'e', 'r', 'y', ' ', '"']);
        assert("\" completed in "@ =~= seq!['"', ' ', 'c', 'o', 'm', 'p', 'l', 'e', 't', 'e', 'd', ' ', 'i', 'n', ' ']);
        let mut report = String::from_str("connection ");
        let id = decimal_string(self.id as u64);
        report.append(id.as_str());
        report.append(": query \"");
        report.append(sql);
        report.append("\" completed in ");
        let duration = duration_string(delay_ms);
        report.append(duration.as_str());
        report
    }
}

/// How long a simulated query takes: a random number of milliseconds from 50
/// to 200.
pub fn query_delay_ms() -> (delay_ms: u64)
    ensures
        50 <= delay_ms <= 200,
{
    random_u64_inclusive(50, 200)
}

/// A pool of `size` connections: those idle, in the order they will be handed
/// out, and how many are checked out.
pub struct ConnectionPool {
    idle: VecDeque<Connection>,
    size: u32,
    out_count: u32,
    out: Ghost<Set<u32>>,
}

/// The ids of a sequence of connections.
pub open spec fn ids_of(cs: Seq<Connection>) -> Seq<u32> {
    cs.map_values(|c: Connection| c.id)
}

impl View for ConnectionPool {
    /// The ids of the idle connections, next to be handed out first.
    type V = Seq<u32>;

    closed spec fn view(&self) -> Seq<u32> {
        ids_of(self.idle@)
    }
}

impl ConnectionPool {
    /// How many connections the pool has.
    pub closed spec fn capacity(self) -> u32 {
        self.size
    }

    /// The ids of the connections checked out and not yet returned.
    pub closed spec fn checked_out(self) -> Set<u32> {
        self.out@
    }

    /// The pool's invariant: every connection is idle or checked out, never
    /// both and never twice, and the count of checked-out ones is kept.
    pub closed spec fn wf(self) -> bool {
        &&& partitioned(self@, self.out@, self.size)
        &&& self.out@.finite()
        &&& self.out_count == self.out@.len()
    }

    /// A pool of `size` connections with ids `0..size`, all idle.
    pub fn new(size: u32) -> (p: Self)
        ensures
            p.wf(),
            p.capacity() == size,
            p@ == Seq::new(size as nat, |i: int| i as u32),
            p.checked_out() == Set::<u32>::empty(),
    {
        let mut idle: VecDeque<Connection> = VecDeque::new();
        let mut i: u32 = 0;
        while i < size
            invariant
                i <= size,
                ids_of(idle@) =~= Seq::new(i as nat, |k: int| k as u32),
            decreases size - i,
        {
            let ghost before = idle@;
            idle.push_back(Connection::new(i));
            assert(ids_of(idle@) =~= ids_of(before).push(i));
            i = i + 1;
        }
        let p = ConnectionPool { idle, size, out_count: 0, out: Ghost(Set::empty()) };
        assert(p@ =~= Seq::new(size as nat, |k: int| k as u32));
        proof {
            lemma_new_pool_partitioned(size);
        }
        p
    }

    /// How many connections are idle.
    pub fn idle_count(&self) -> (n: usize)
        ensures
            n == self@.len(),
    {
        self.idle.len()
    }

    /// How many connections are checked out.
    pub fn checked_out_count(&self) -> (n: u32)
        requires
            self.wf(),
        ensures
            n == self.checked_out().len(),
            n + self@.len() == self.capacity(),
    {
        proof {
            lemma_partition_counts(self@, self.out@, self.size);
        }
        self.out_count
    }

    /// Takes the connection that has been idle longest, or says that none is.
    /// While fewer than all connections are checked out, one is always idle.
    pub fn checkout(&mut self) -> (c: Option<Connection>)
        requires
            old(self).wf(),
        ensures
            final(self).wf(),
            final(self).capacity() == old(self).capacity(),
            old(self).checked_out().len() < old(self).capacity() ==> c is Some,
            match c {
                Some(conn) => {
                    &&& old(self)@.len() > 0
                    &&& conn.id == old(self)@[0]
                    &&& final(self)@ == old(self)@.drop_first()
                    &&& !old(self).checked_out().contains(conn.id)
                    &&& final(self).checked_out() == old(self).checked_out().insert(conn.id)
                },
                None => {
                    &&& old(self)@.len() == 0
                    &&& final(self)@ == old(self)@
                    &&& final(self).checked_out() == old(self).checked_out()
                },
            },
    {
        proof {
            lemma_partition_counts(self@, self.out@, self.size);
        }
        let ghost before = self.idle@;
        let ghost ids = ids_of(before);
        let c = self.idle.pop_front();
        match c {
            Some(conn) => {
                proof {
                    assert(ids_of(self.idle@) =~= ids.drop_first());
                    lemma_checkout_keeps_partition(ids, self.out@, self.size);
                }
                self.out = Ghost(self.out@.insert(conn.id));
                self.out_count = self.out_count + 1;
                Some(conn)
            },
            None => None,
        }
    }

    /// Puts a checked-out connection back; it will be handed out after those
    /// already idle.
    pub fn checkin(&mut self, c: Connection)
        requires
            old(self).wf(),
            old(self).checked_out().contains(c.id),
        ensures
            final(self).wf(),
            final(self).capacity() == old(self).capacity(),
            final(self)@ == old(self)@.push(c.id),
            final(self).checked_out() == old(self).checked_out().remove(c.id),
    {
        let ghost before = self.idle@;
        let ghost id = c.id;
        proof {
            lemma_checkin_keeps_partition(ids_of(before), self.out@, self.size, id);
        }
        self.idle.push_back(c);
        assert(ids_of(self.idle@) =~= ids_of(before).push(id));
        self.out = Ghost(self.out@.remove(id));
        self.out_count = self.out_count - 1;
    }
}

/// The connections of a pool of `size` are split between the idle queue and
/// the set of those checked out: each id below `size` is in exactly one of
/// the two, and is idle at most once.
pub open spec fn partitioned(idle: Seq<u32>, out: Set<u32>, size: u32) -> bool {
    &&& idle.no_duplicates()
    &&& forall|id: u32| #[trigger] idle.contains(id) ==> id < size && !out.contains(id)
    &&& forall|id: u32| #[trigger] out.contains(id) ==> id < size
    &&& forall|id: u32| id < size ==> #[trigger] idle.contains(id) || out.contains(id)
}

/// A new pool has all its connections idle and none checked out.
pub proof fn lemma_new_pool_partitioned(size: u32)
    ensures
        partitioned(Seq::new(size as nat, |i: int| i as u32), Set::empty(), size),
{
    let idle = Seq::new(size as nat, |i: int| i as u32);
    assert forall|id: u32| #[trigger] idle.contains(id) implies id < size by {
        let k = choose|k: int| 0 <= k < idle.len() && idle[k] == id;
    }
    assert forall|id: u32| id < size implies #[trigger] idle.contains(id) by {
        assert(idle[id as int] == id);
    }
    assert(idle.no_duplicates());
}

/// Checking out moves the first idle connection to the checked-out set, so no
/// connection is ever handed to two holders, and never more than `size` are out.
pub proof fn lemma_checkout_keeps_partition(idle: Seq<u32>, out: Set<u32>, size: u32)
    requires
        partitioned(idle, out, size),
        idle.len() > 0,
    ensures
        partitioned(idle.drop_first(), out.insert(idle[0]), size),
        !out.contains(idle[0]),
{
    let rest = idle.drop_first();
    assert(idle.contains(idle[0]));
    assert forall|id: u32| #[trigger] rest.contains(id) implies id < size && !out.insert(idle[0]).contains(id) by {
        let k = choose|k: int| 0 <= k < rest.len() && rest[k] == id;
        assert(idle[k + 1] == id);
        assert(idle.contains(id));
    }
    assert forall|id: u32| id < size implies #[trigger] rest.contains(id) || out.insert(idle[0]).contains(id) by {
        if idle.contains(id) && id != idle[0] {
            let k = choose|k: int| 0 <= k < idle.len() && idle[k] == id;
            assert(k != 0);
            assert(rest[k - 1] == id);
        }
    }
    assert forall|id: u32| #[trigger] out.insert(idle[0]).contains(id) implies id < size by {
    }
}

/// Returning a checked-out connection puts it at the back of the idle queue.
pub proof fn lemma_checkin_keeps_partition(idle: Seq<u32>, out: Set<u32>, size: u32, id: u32)
    requires
        partitioned(idle, out, size),
        out.contains(id),
    ensures
        partitioned(idle.push(id), out.remove(id), size),
{
    let after = idle.push(id);
    assert(!idle.contains(id));
    assert forall|x: u32| #[trigger] after.contains(x) implies x < size && !out.remove(id).contains(x) by {
        let k = choose|k: int| 0 <= k < after.len() && after[k] == x;
        if k < idle.len() {
            assert(idle[k] == x);
            assert(idle.contains(x));
        }
    }
    assert forall|x: u32| x < size implies #[trigger] after.contains(x) || out.remove(id).contains(x) by {
        if x == id {
            assert(after[idle.len() as int] == id);
        } else if idle.contains(x) {
            let k = choose|k: int| 0 <= k < idle.len() && idle[k] == x;
            assert(after[k] == x);
        }
    }
    assert forall|i: int, j: int| 0 <= i < after.len() && 0 <= j < after.len() && i != j implies after[i] != after[j] by {
        if i < idle.len() && j < idle.len() {
        } else if i < idle.len() {
            assert(idle.contains(after[i]));
        } else if j < idle.len() {
            assert(idle.contains(after[j]));
        }
    }
}

/// The ids of a pool of `size` connections.
pub open spec fn ids_below(size: u32) -> Set<u32> {
    Set::new(|i: u32| i < size)
}

proof fn lemma_ids_below_len(n: u32)
    ensures
        ids_below(n).finite(),
        ids_below(n).len() == n,
    decreases n,
{
    if n == 0 {
        assert(ids_below(0) =~= Set::<u32>::empty());
    } else {
        let m = (n - 1) as u32;
        lemma_ids_below_len(m);
        assert(ids_below(n) =~= ids_below(m).insert(m));
    }
}

/// Every connection is idle or checked out, never both: the idle ones and the
/// checked-out ones add up to the pool's size. So a pool guarded by a
/// semaphore of `size` permits, one held per checked-out connection, has as
/// many idle connections as free permits, and a checkout made while fewer
/// than `size` connections are out always finds an idle one.
pub proof fn lemma_partition_counts(idle: Seq<u32>, out: Set<u32>, size: u32)
    requires
        partitioned(idle, out, size),
    ensures
        out.finite(),
        idle.len() + out.len() == size,
        out.len() < size ==> idle.len() > 0,
        out.len() <= size,
{
    broadcast use vstd::seq_lib::seq_to_set_is_finite;
    lemma_ids_below_len(size);
    let idle_set = idle.to_set();
    assert(out.subset_of(ids_below(size)));
    vstd::set_lib::lemma_len_subset(out, ids_below(size));
    idle.unique_seq_to_set();
    assert(idle_set.disjoint(out));
    assert((idle_set + out) =~= ids_below(size)) by {
        assert forall|id: u32| #[trigger] (idle_set + out).contains(id) <==> ids_below(size).contains(id) by {
            if idle_set.contains(id) {
                assert(idle.contains(id));
            }
            if id < size && idle.contains(id) {
                assert(idle_set.contains(id));
            }
        }
    }
    vstd::set_lib::lemma_set_disjoint_lens(idle_set, out);
}

} // verus!
