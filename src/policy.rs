//! The decisions of the policy watcher. On each policy change it takes a
//! snapshot of the tracked contexts, has each evaluated in turn, and closes
//! every one that policy now denies before it waits for the next change.
//! The machine says which step comes next; the task that runs it does the
//! evaluating, the closing and the waiting.
use vstd::prelude::*;

use crate::rbac::{ProxyRbacContext, ProxyRbacContextView};

verus! {

/// What the watcher task does next.
pub enum SweepAction {
    /// Evaluate policy for this context, then report the verdict.
    Evaluate(ProxyRbacContext),
    /// Close this context, now denied, then report that it is closed.
    Close(ProxyRbacContext),
    /// The sweep is over: wait for the next policy change or the stop signal.
    Wait,
    /// Stop: the watcher exits.
    Exit,
}

/// The contexts among the first `verdicts.len()` of `snapshot` whose verdict
/// was a denial, in snapshot order.
pub open spec fn denied(snapshot: Seq<ProxyRbacContextView>, verdicts: Seq<bool>) -> Seq<
    ProxyRbacContextView,
>
    decreases verdicts.len(),
{
    if verdicts.len() == 0 {
        Seq::empty()
    } else {
        let n = verdicts.len() - 1;
        let before = denied(snapshot, verdicts.take(n));
        if verdicts[n] {
            before
        } else {
            before.push(snapshot[n])
        }
    }
}

/// A finished sweep closes exactly the denied contexts of its snapshot: each
/// context whose verdict was a denial is among them, and each of them had a
/// denial.
pub proof fn sweep_closes_exactly_the_denied(snapshot: Seq<ProxyRbacContextView>, verdicts: Seq<bool>)
    requires
        verdicts.len() <= snapshot.len(),
    ensures
        forall|i: int|
            0 <= i < verdicts.len() && !verdicts[i] ==> denied(snapshot, verdicts).contains(
                #[trigger] snapshot[i],
            ),
        forall|j: int|
            0 <= j < denied(snapshot, verdicts).len() ==> exists|i: int|
                0 <= i < verdicts.len() && !verdicts[i] && snapshot[i] == #[trigger] denied(
                    snapshot,
                    verdicts,
                )[j],
    decreases verdicts.len(),
{
    if verdicts.len() > 0 {
        let n = verdicts.len() - 1;
        let pre = verdicts.take(n);
        sweep_closes_exactly_the_denied(snapshot, pre);
        let before = denied(snapshot, pre);
        let d = denied(snapshot, verdicts);
        assert forall|i: int|
            0 <= i < verdicts.len() && !verdicts[i] implies d.contains(#[trigger] snapshot[i]) by {
            if i < n {
                assert(pre[i] == verdicts[i]);
                let k = choose|k: int| 0 <= k < before.len() && before[k] == snapshot[i];
                assert(d[k] == snapshot[i]);
            } else {
                assert(d[d.len() - 1] == snapshot[i]);
            }
        }
        assert forall|j: int| 0 <= j < d.len() implies exists|i: int|
            0 <= i < verdicts.len() && !verdicts[i] && snapshot[i] == #[trigger] d[j] by {
            if j < before.len() {
                assert(d[j] == before[j]);
                let i = choose|i: int|
                    0 <= i < pre.len() && !pre[i] && snapshot[i] == #[trigger] before[j];
                assert(pre[i] == verdicts[i]);
            } else {
                assert(!verdicts[n] && d[j] == snapshot[n]);
            }
        }
    }
}

/// The state of the policy watcher between two steps.
pub struct PolicySweep {
    pending: Vec<ProxyRbacContext>,
    pos: usize,
    closing: bool,
    stopped: bool,
    verdicts: Ghost<Seq<bool>>,
    closed: Ghost<Seq<ProxyRbacContextView>>,
}

impl PolicySweep {
    /// The contexts of the current sweep.
    pub closed spec fn snapshot(&self) -> Seq<ProxyRbacContextView> {
        self.pending@.map_values(|c: ProxyRbacContext| c@)
    }

    /// The verdicts of the current sweep so far, one per evaluated context.
    pub closed spec fn verdicts(&self) -> Seq<bool> {
        self.verdicts@
    }

    /// The contexts closed in the current sweep so far, in order.
    pub closed spec fn closed_contexts(&self) -> Seq<ProxyRbacContextView> {
        self.closed@
    }

    /// Waiting for a policy change or the stop signal.
    pub closed spec fn is_waiting(&self) -> bool {
        !self.stopped && !self.closing && self.pos == self.pending@.len()
    }

    /// Waiting for the verdict on `snapshot()[verdicts().len()]`.
    pub closed spec fn is_evaluating(&self) -> bool {
        !self.stopped && !self.closing && self.pos < self.pending@.len()
    }

    /// Waiting for the close of `snapshot()[verdicts().len()]`.
    pub closed spec fn is_closing(&self) -> bool {
        !self.stopped && self.closing
    }

    pub closed spec fn wf(&self) -> bool {
        &&& self.pos <= self.pending@.len()
        &&& self.closing ==> self.pos < self.pending@.len()
        &&& self.verdicts@.len() == self.pos
        &&& self.closed@ == denied(self.snapshot(), self.verdicts@)
    }

    /// At most one of the three states holds. While waiting, every context
    /// of the snapshot has its verdict; while evaluating or closing, the
    /// context at hand is the first without one.
    pub proof fn state_facts(&self)
        requires
            self.wf(),
        ensures
            self.verdicts().len() <= self.snapshot().len(),
            self.closed_contexts() == denied(self.snapshot(), self.verdicts()),
            !(self.is_waiting() && self.is_evaluating()),
            !(self.is_waiting() && self.is_closing()),
            !(self.is_evaluating() && self.is_closing()),
            self.is_waiting() ==> self.verdicts().len() == self.snapshot().len(),
            self.is_evaluating() ==> self.verdicts().len() < self.snapshot().len(),
            self.is_closing() ==> self.verdicts().len() < self.snapshot().len(),
    {
    }

    /// A watcher waiting for its first policy change.
    pub fn new() -> (r: PolicySweep)
        ensures
            r.wf(),
            r.is_waiting(),
            r.snapshot().len() == 0,
    {
        PolicySweep {
            pending: Vec::new(),
            pos: 0,
            closing: false,
            stopped: false,
            verdicts: Ghost(Seq::empty()),
            closed: Ghost(Seq::empty()),
        }
    }

    /// The step after an evaluation or a close has completed.
    fn next_step(&self) -> (r: SweepAction)
        requires
            self.wf(),
            !self.stopped,
            !self.closing,
        ensures
            self.pos == self.pending@.len() ==> r is Wait,
            self.pos < self.pending@.len() ==> r is Evaluate && r->Evaluate_0@ == self.snapshot()[self.pos as int],
    {
        if self.pos < self.pending.len() {
            SweepAction::Evaluate(self.pending[self.pos].duplicate())
        } else {
            SweepAction::Wait
        }
    }

    /// Starts a sweep over a snapshot of the tracked contexts.
    pub fn on_policy_change(&mut self, snapshot: Vec<ProxyRbacContext>) -> (r: SweepAction)
        requires
            old(self).wf(),
            old(self).is_waiting(),
        ensures
            final(self).wf(),
            final(self).snapshot() == snapshot@.map_values(|c: ProxyRbacContext| c@),
            final(self).verdicts().len() == 0,
            final(self).closed_contexts().len() == 0,
            r is Wait ==> final(self).is_waiting() && snapshot@.len() == 0,
            r is Evaluate ==> final(self).is_evaluating() && r->Evaluate_0@ == final(self).snapshot()[0],
            !(r is Close) && !(r is Exit),
    {
        self.pending = snapshot;
        self.pos = 0;
        self.verdicts = Ghost(Seq::empty());
        self.closed = Ghost(Seq::empty());
        self.next_step()
    }

    /// Takes the verdict on the context under evaluation: an allowed one is
    /// done with, a denied one is to be closed.
    pub fn on_verdict(&mut self, allowed: bool) -> (r: SweepAction)
        requires
            old(self).wf(),
            old(self).is_evaluating(),
        ensures
            final(self).wf(),
            final(self).snapshot() == old(self).snapshot(),
            final(self).closed_contexts() == old(self).closed_contexts(),
            !allowed ==> r is Close && final(self).is_closing() && r->Close_0@ == old(self).snapshot()[old(self).verdicts().len() as int]
                && final(self).verdicts() == old(self).verdicts(),
            allowed ==> final(self).verdicts() == old(self).verdicts().push(true),
            allowed ==> !(r is Close) && !(r is Exit),
            r is Wait ==> final(self).is_waiting(),
            r is Evaluate ==> final(self).is_evaluating() && r->Evaluate_0@ == final(self).snapshot()[final(self).verdicts().len() as int],
            final(self).closed_contexts() == denied(final(self).snapshot(), final(self).verdicts()),
            r is Wait ==> final(self).verdicts().len() == final(self).snapshot().len(),
    {
        if allowed {
            let ghost v = self.verdicts@.push(true);
            assert(v.take(self.pos as int) =~= self.verdicts@);
            self.verdicts = Ghost(v);
            let n = self.pending.len();
            assert(self.pos < n);
            self.pos = self.pos + 1;
            self.next_step()
        } else {
            self.closing = true;
            SweepAction::Close(self.pending[self.pos].duplicate())
        }
    }

    /// Records that the denied context was closed and moves on.
    pub fn on_closed(&mut self) -> (r: SweepAction)
        requires
            old(self).wf(),
            old(self).is_closing(),
        ensures
            final(self).wf(),
            final(self).snapshot() == old(self).snapshot(),
            final(self).verdicts() == old(self).verdicts().push(false),
            final(self).closed_contexts() == old(self).closed_contexts().push(
                old(self).snapshot()[old(self).verdicts().len() as int],
            ),
            !(r is Close) && !(r is Exit),
            r is Wait ==> final(self).is_waiting(),
            r is Evaluate ==> final(self).is_evaluating() && r->Evaluate_0@ == final(self).snapshot()[final(self).verdicts().len() as int],
            final(self).closed_contexts() == denied(final(self).snapshot(), final(self).verdicts()),
            r is Wait ==> final(self).verdicts().len() == final(self).snapshot().len(),
    {
        let ghost v = self.verdicts@.push(false);
        assert(v.take(self.pos as int) =~= self.verdicts@);
        self.verdicts = Ghost(v);
        self.closed = Ghost(self.closed@.push(self.snapshot()[self.pos as int]));
        let n = self.pending.len();
        assert(self.pos < n);
        self.pos = self.pos + 1;
        self.closing = false;
        self.next_step()
    }

    /// The stop signal: the watcher exits.
    pub fn on_stop(&mut self) -> (r: SweepAction)
        requires
            old(self).wf(),
            old(self).is_waiting(),
        ensures
            r is Exit,
            !final(self).is_waiting() && !final(self).is_evaluating() && !final(self).is_closing(),
    {
        self.stopped = true;
        SweepAction::Exit
    }
}

} // verus!
