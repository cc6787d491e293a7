//! The post-render scheduler: after each commit of rendered HTML, exactly one
//! deferred highlight task is scheduled.  Stale tasks are never cancelled —
//! a task always highlights whatever is committed when it fires, so a later
//! commit supersedes an earlier one and stale work runs harmlessly.

use vstd::prelude::*;

verus! {

/// Mathematical model of the scheduler: the latest committed document
/// version and the tokens of the deferred tasks still in flight.
pub struct SchedulerModel {
    pub committed: u64,
    pub pending: Seq<u64>,
}

/// Tracks commits of rendered output and the deferred highlight tasks they
/// schedule.
pub struct HighlightScheduler {
    committed: u64,
    pending: Vec<u64>,
}

impl View for HighlightScheduler {
    type V = SchedulerModel;

    closed spec fn view(&self) -> SchedulerModel {
        SchedulerModel { committed: self.committed, pending: self.pending@ }
    }
}

impl HighlightScheduler {
    /// No task ever targets a version that was never committed.
    pub open spec fn wf(&self) -> bool {
        forall|i: int| 0 <= i < self@.pending.len() ==> #[trigger] self@.pending[i]
            <= self@.committed
    }

    /// A scheduler before any commit.
    pub fn new() -> (r: HighlightScheduler)
        ensures
            r.wf(),
            r@.committed == 0,
            r@.pending == Seq::<u64>::empty(),
    {
        let r = HighlightScheduler { committed: 0, pending: Vec::new() };
        proof {
            assert(r@.pending =~= Seq::<u64>::empty());
        }
        r
    }

    /// The latest committed version.
    pub fn committed_version(&self) -> (n: u64)
        ensures
            n == self@.committed,
    {
        self.committed
    }

    /// Records that a new render result was committed to the view, and
    /// schedules exactly one deferred highlight task for it.  The returned
    /// token names the commit; until that task fires, a task for the latest
    /// commit is pending.
    pub fn commit(&mut self) -> (token: u64)
        requires
            old(self).wf(),
            old(self)@.committed < u64::MAX,
        ensures
            final(self).wf(),
            token == final(self)@.committed == old(self)@.committed + 1,
            final(self)@.pending == old(self)@.pending.push(token),
            final(self)@.pending.contains(final(self)@.committed),
    {
        self.committed = self.committed + 1;
        self.pending.push(self.committed);
        proof {
            assert(self.pending@[self.pending@.len() - 1] == self.committed);
            assert forall|i: int| 0 <= i < self@.pending.len() implies #[trigger] self@.pending[i]
                <= self@.committed by {
                if i < self@.pending.len() - 1 {
                    assert(self@.pending[i] == old(self)@.pending[i]);
                }
            }
        }
        self.committed
    }

    /// Handles the firing of the deferred task named by a token.  A known
    /// token leaves the pending list without its first occurrence and the
    /// highlighter targets whatever is committed now — even a stale task
    /// re-highlights the latest content, which is why cancellation is never
    /// needed.  An unknown token is a harmless no-op.
    pub fn fire(&mut self, token: u64) -> (target: Option<u64>)
        requires
            old(self).wf(),
        ensures
            final(self).wf(),
            final(self)@.committed == old(self)@.committed,
            old(self)@.pending.contains(token) ==> target == Some(old(self)@.committed)
                && final(self)@.pending == old(self)@.pending.remove(
                old(self)@.pending.index_of_first(token).unwrap(),
            ),
            !old(self)@.pending.contains(token) ==> target is None && final(self)@.pending == old(
                self,
            )@.pending,
    {
        let n = self.pending.len();
        let mut i: usize = 0;
        while i < n
            invariant
                *self == *old(self),
                old(self).wf(),
                n == self.pending.len(),
                i <= n,
                forall|j: int| 0 <= j < i ==> self@.pending[j] != token,
            decreases n - i,
        {
            if self.pending[i] == token {
                proof {
                    let s = self@.pending;
                    assert(s.contains(token)) by {
                        assert(s[i as int] == token);
                    }
                    s.index_of_first_ensures(token);
                    let idx = s.index_of_first(token).unwrap();
                    if idx < i as int {
                        assert(s[idx] != token);
                    }
                    if idx > i as int {
                        assert(s[i as int] != token);
                    }
                    assert(idx == i as int);
                }
                self.pending.remove(i);
                proof {
                    let s0 = old(self)@.pending;
                    assert forall|j: int|
                        0 <= j < self@.pending.len() implies #[trigger] self@.pending[j]
                        <= self@.committed by {
                        if j < i as int {
                            assert(self@.pending[j] == s0[j]);
                        } else {
                            assert(self@.pending[j] == s0[j + 1]);
                        }
                    }
                }
                return Some(self.committed);
            }
            i = i + 1;
        }
        proof {
            assert(!self@.pending.contains(token));
        }
        None
    }
}

} // verus!
