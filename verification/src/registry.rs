//! The connection registry.
//!
//! A single shared counter of live connections. Every session increments
//! it exactly once when its handshake succeeds and decrements it exactly
//! once when its loop exits, whatever the exit reason; diagnostics read
//! it. The host serializes the calls (a mutex or an equivalent atomic
//! primitive), so a trace of a run is one interleaved sequence of
//! operations; the lemmas below show that on any such trace the count
//! never goes negative and returns to zero once every session has
//! completed.

use vstd::prelude::*;
use vstd::set_lib::{lemma_int_range, lemma_len_subset, set_int_range};

verus! {

/// The shared counter. No operation fails; the strict pairing of one
/// increment and one later decrement per session is the callers'
/// discipline, stated here as preconditions.
pub struct ConnectionRegistry {
    count: u64,
}

impl ConnectionRegistry {
    /// The number of live connections currently counted.
    pub closed spec fn spec_count(&self) -> u64 {
        self.count
    }

    /// A fresh registry: no connections.
    pub fn new() -> (r: ConnectionRegistry)
        ensures
            r.spec_count() == 0,
    {
        ConnectionRegistry { count: 0 }
    }

    /// Count one more live connection. Called exactly once per session,
    /// when its handshake succeeds.
    pub fn increment(&mut self)
        requires
            old(self).spec_count() < u64::MAX,
        ensures
            final(self).spec_count() == old(self).spec_count() + 1,
    {
        self.count = self.count + 1;
    }

    /// Count one connection gone. Called exactly once per session, when
    /// its loop exits; the pairing with that session's earlier increment
    /// is why the count is positive here.
    pub fn decrement(&mut self)
        requires
            old(self).spec_count() > 0,
        ensures
            final(self).spec_count() == old(self).spec_count() - 1,
    {
        self.count = self.count - 1;
    }

    /// The current count, for diagnostics only.
    pub fn current(&self) -> (n: u64)
        ensures
            n == self.spec_count(),
    {
        self.count
    }
}

/// One serialized registry operation, tagged with the session that
/// performed it.
#[derive(Clone, Copy, Debug, PartialEq, Eq)]
pub enum RegistryOp {
    Increment { session: u32 },
    Decrement { session: u32 },
}

/// The session an operation belongs to.
pub open spec fn op_session(op: RegistryOp) -> u32 {
    match op {
        RegistryOp::Increment { session } => session,
        RegistryOp::Decrement { session } => session,
    }
}

/// Operation `i` of the trace is session `s`'s increment.
pub open spec fn inc_at(ops: Seq<RegistryOp>, i: int, s: int) -> bool {
    &&& 0 <= i < ops.len()
    &&& ops[i] matches RegistryOp::Increment { session }
    &&& op_session(ops[i]) == s
}

/// Operation `j` of the trace is session `s`'s decrement.
pub open spec fn dec_at(ops: Seq<RegistryOp>, j: int, s: int) -> bool {
    &&& 0 <= j < ops.len()
    &&& ops[j] matches RegistryOp::Decrement { session }
    &&& op_session(ops[j]) == s
}

/// Session `s` increments somewhere in the trace.
pub open spec fn has_inc(ops: Seq<RegistryOp>, s: int) -> bool {
    exists|i: int| inc_at(ops, i, s)
}

/// Session `s` decrements somewhere in the trace.
pub open spec fn has_dec(ops: Seq<RegistryOp>, s: int) -> bool {
    exists|j: int| dec_at(ops, j, s)
}

/// The count after a trace of operations, starting from zero.
pub open spec fn count_after(ops: Seq<RegistryOp>) -> int
    decreases ops.len(),
{
    if ops.len() == 0 {
        0
    } else {
        count_after(ops.drop_last()) + match ops.last() {
            RegistryOp::Increment { .. } => 1,
            RegistryOp::Decrement { .. } => -1,
        }
    }
}

/// The trace is an interleaving of `m` concurrent sessions, each calling
/// increment once and, later, decrement once.
pub open spec fn is_session_interleaving(ops: Seq<RegistryOp>, m: int) -> bool {
    &&& ops.len() == 2 * m
    &&& forall|i: int| 0 <= i < ops.len() ==> op_session(#[trigger] ops[i]) < m
    &&& forall|s: int| 0 <= s < m ==> #[trigger] has_inc(ops, s)
    &&& forall|s: int| 0 <= s < m ==> #[trigger] has_dec(ops, s)
    &&& forall|i: int, j: int, s: int| #[trigger] inc_at(ops, i, s) && #[trigger] inc_at(ops, j, s)
        ==> i == j
    &&& forall|i: int, j: int, s: int| #[trigger] dec_at(ops, i, s) && #[trigger] dec_at(ops, j, s)
        ==> i == j
    &&& forall|i: int, j: int, s: int| #[trigger] inc_at(ops, i, s) && #[trigger] dec_at(ops, j, s)
        ==> i < j
}

/// The sessions that have incremented but not yet decremented within the
/// first `p` operations of the trace.
pub open spec fn open_sessions(ops: Seq<RegistryOp>, p: int) -> Set<int> {
    Set::new(
        |s: int|
            (exists|i: int| i < p && inc_at(ops, i, s)) && !(exists|j: int|
                j < p && dec_at(ops, j, s)),
    )
}

/// After any prefix of a session interleaving, the count equals the
/// number of sessions whose increment has happened and whose decrement
/// has not; in particular it is never negative and never exceeds `m`.
pub proof fn lemma_count_tracks_open_sessions(ops: Seq<RegistryOp>, m: int, p: int)
    requires
        is_session_interleaving(ops, m),
        0 <= p <= ops.len(),
    ensures
        open_sessions(ops, p).finite(),
        open_sessions(ops, p).len() <= m,
        count_after(ops.take(p)) == open_sessions(ops, p).len(),
    decreases p,
{
    let opened = open_sessions(ops, p);
    lemma_int_range(0, m);
    assert forall|t: int| opened.contains(t) implies set_int_range(0, m).contains(t) by {
        let i = choose|i: int| i < p && inc_at(ops, i, t);
        assert(op_session(ops[i]) < m);
        assert(0 <= t < m);
    }
    lemma_len_subset(opened, set_int_range(0, m));
    if p == 0 {
        assert(opened =~= Set::<int>::empty());
        assert(ops.take(0).len() == 0);
    } else {
        let q = p - 1;
        lemma_count_tracks_open_sessions(ops, m, q);
        let prev = open_sessions(ops, q);
        assert(ops.take(p).drop_last() =~= ops.take(q));
        assert(ops.take(p).last() == ops[q]);
        let s = op_session(ops[q]) as int;
        match ops[q] {
            RegistryOp::Increment { .. } => {
                assert(inc_at(ops, q, s));
                // s has not decremented before p: its decrement comes after its increment
                assert forall|j: int| !(j < p && dec_at(ops, j, s)) by {
                    if j < p && dec_at(ops, j, s) {
                        assert(q < j);
                    }
                }
                // and had not incremented before q: its increment is unique
                assert(opened =~= prev.insert(s)) by {
                    assert forall|t: int| opened.contains(t) implies prev.insert(s).contains(t) by {
                        if t != s {
                            let i = choose|i: int| i < p && inc_at(ops, i, t);
                            assert(i != q);
                            assert(i < q && inc_at(ops, i, t));
                        }
                    }
                    assert forall|t: int| prev.insert(s).contains(t) implies opened.contains(t) by {
                        if t == s {
                            assert(inc_at(ops, q, s) && q < p);
                        } else {
                            let i = choose|i: int| i < q && inc_at(ops, i, t);
                            assert(i < p && inc_at(ops, i, t));
                            assert(!(exists|j: int| j < q && dec_at(ops, j, t)));
                            assert forall|j: int| !(j < p && dec_at(ops, j, t)) by {
                                if j < p && dec_at(ops, j, t) {
                                    assert(j != q);
                                    assert(j < q && dec_at(ops, j, t));
                                }
                            }
                        }
                    }
                }
                assert(!prev.contains(s)) by {
                    if prev.contains(s) {
                        let i = choose|i: int| i < q && inc_at(ops, i, s);
                        assert(i == q);
                    }
                }
            },
            RegistryOp::Decrement { .. } => {
                assert(dec_at(ops, q, s));
                assert(0 <= s < m);
                assert(has_inc(ops, s));
                let i = choose|i: int| inc_at(ops, i, s);
                assert(i < q);
                assert(prev.contains(s)) by {
                    assert(i < q && inc_at(ops, i, s));
                    assert forall|j: int| !(j < q && dec_at(ops, j, s)) by {
                        if j < q && dec_at(ops, j, s) {
                            assert(j == q);
                        }
                    }
                }
                assert(opened =~= prev.remove(s)) by {
                    assert forall|t: int| opened.contains(t) implies prev.remove(s).contains(t) by {
                        assert(t != s);
                        let i2 = choose|i2: int| i2 < p && inc_at(ops, i2, t);
                        assert(i2 != q);
                        assert(i2 < q && inc_at(ops, i2, t));
                    }
                    assert forall|t: int| prev.remove(s).contains(t) implies opened.contains(t) by {
                        let i2 = choose|i2: int| i2 < q && inc_at(ops, i2, t);
                        assert(i2 < p && inc_at(ops, i2, t));
                        assert forall|j: int| !(j < p && dec_at(ops, j, t)) by {
                            if j < p && dec_at(ops, j, t) {
                                assert(j != q);
                                assert(j < q && dec_at(ops, j, t));
                            }
                        }
                    }
                }
            },
        }
    }
}

/// The count is never negative at any observed point of a session
/// interleaving.
pub proof fn lemma_registry_never_negative(ops: Seq<RegistryOp>, m: int, p: int)
    requires
        is_session_interleaving(ops, m),
        0 <= p <= ops.len(),
    ensures
        count_after(ops.take(p)) >= 0,
{
    lemma_count_tracks_open_sessions(ops, m, p);
}

/// Once all `m` sessions have completed, the count is back to zero.
pub proof fn lemma_registry_balanced(ops: Seq<RegistryOp>, m: int)
    requires
        is_session_interleaving(ops, m),
    ensures
        count_after(ops) == 0,
{
    let n = ops.len() as int;
    lemma_count_tracks_open_sessions(ops, m, n);
    assert(open_sessions(ops, n) =~= Set::<int>::empty()) by {
        assert forall|t: int| !open_sessions(ops, n).contains(t) by {
            if open_sessions(ops, n).contains(t) {
                let i = choose|i: int| i < n && inc_at(ops, i, t);
                assert(op_session(ops[i]) < m);
                assert(0 <= t < m);
                assert(has_dec(ops, t));
                let j = choose|j: int| dec_at(ops, j, t);
                assert(j < n && dec_at(ops, j, t));
            }
        }
    }
    assert(ops.take(n) =~= ops);
}

/// Replay a session interleaving against a fresh registry, one serialized
/// operation at a time. Every decrement's precondition is met along the
/// way, and the final count is zero.
pub fn replay_interleaving(ops: &Vec<RegistryOp>, m: u32) -> (final_count: u64)
    requires
        is_session_interleaving(ops@, m as int),
    ensures
        final_count == 0,
{
    let ghost mm = m as int;
    let mut registry = ConnectionRegistry::new();
    let mut i: usize = 0;
    while i < ops.len()
        invariant
            i <= ops@.len(),
            is_session_interleaving(ops@, mm),
            mm == m as int,
            registry.spec_count() == count_after(ops@.take(i as int)),
        decreases ops@.len() - i,
    {
        proof {
            lemma_count_tracks_open_sessions(ops@, mm, i as int);
            lemma_count_tracks_open_sessions(ops@, mm, i as int + 1);
            assert(ops@.take(i as int + 1).drop_last() =~= ops@.take(i as int));
            assert(ops@.take(i as int + 1).last() == ops@[i as int]);
        }
        match ops[i] {
            RegistryOp::Increment { .. } => {
                registry.increment();
            },
            RegistryOp::Decrement { .. } => {
                registry.decrement();
            },
        }
        i = i + 1;
    }
    proof {
        assert(ops@.take(ops@.len() as int) =~= ops@);
        lemma_registry_balanced(ops@, mm);
    }
    registry.current()
}

} // verus!
