//! The shared work queue. One target is handed out per claim; the queue
//! strictly shrinks until empty and is never re-populated. The driver wraps a
//! `Dispatcher` in a mutual-exclusion lock so that concurrent claims are
//! linearized; each call here gives the sequential semantics of one such
//! linearized claim, so under contention every call observes the queue as it
//! stood after all prior claims completed — no lost update, no duplicate
//! hand-out.

use vstd::prelude::*;
use vstd::seq_lib::lemma_multiset_commutative;

use crate::status::CheckTarget;

verus! {

/// The lock-protected work queue, together with the ghost history of what has
/// already been handed out (most recent claim first). The history is what lets
/// callers state that nothing is ever claimed twice or dropped.
pub struct Dispatcher {
    targets: Vec<CheckTarget>,
    handed_out: Ghost<Seq<CheckTarget>>,
    initial: Ghost<Seq<CheckTarget>>,
}

impl Dispatcher {
    /// The targets still waiting to be claimed, in queue order.
    pub closed spec fn remaining(&self) -> Seq<CheckTarget> {
        self.targets@
    }

    /// Every target handed out so far, most recent claim first.
    pub closed spec fn claimed(&self) -> Seq<CheckTarget> {
        self.handed_out@
    }

    /// The queue as it was populated, before any claim.
    pub closed spec fn initial(&self) -> Seq<CheckTarget> {
        self.initial@
    }

    /// Well-formedness: what remains plus what was handed out is exactly the
    /// initial queue — every claim took one target off the back, so nothing
    /// was duplicated, invented or dropped.
    pub closed spec fn wf(&self) -> bool {
        &&& self.initial@ == self.targets@ + self.handed_out@
        &&& self.initial@.len() <= usize::MAX
    }

    /// Populates the queue. No claim has happened yet.
    pub fn new(targets: Vec<CheckTarget>) -> (d: Dispatcher)
        ensures
            d.wf(),
            d.remaining() == targets@,
            d.claimed() == Seq::<CheckTarget>::empty(),
            d.initial() == targets@,
    {
        let ghost snapshot = targets@;
        let d = Dispatcher {
            targets,
            handed_out: Ghost(Seq::empty()),
            initial: Ghost(snapshot),
        };
        proof {
            broadcast use vstd::std_specs::vec::axiom_spec_len;

            assert(vstd::std_specs::vec::spec_vec_len(&d.targets) == d.targets@.len());
            assert(d.initial@ =~= d.targets@ + d.handed_out@);
        }
        d
    }

    /// How many targets are still unclaimed.
    pub fn remaining_count(&self) -> (n: usize)
        ensures
            n == self.remaining().len(),
    {
        self.targets.len()
    }

    /// Claims one target for the calling worker, or reports that nothing is
    /// left. A claim on an exhausted queue changes nothing — an idle worker
    /// that finds no work is a no-op. The critical section the driver puts
    /// around this call covers the queue mutation only; the slow network-bound
    /// check happens after the lock is released.
    pub fn claim_next(&mut self) -> (r: Option<CheckTarget>)
        requires
            old(self).wf(),
        ensures
            final(self).wf(),
            final(self).initial() == old(self).initial(),
            old(self).remaining().len() == 0 ==> {
                &&& r is None
                &&& final(self).remaining() == old(self).remaining()
                &&& final(self).claimed() == old(self).claimed()
            },
            old(self).remaining().len() > 0 ==> {
                &&& r == Some(old(self).remaining().last())
                &&& final(self).remaining() == old(self).remaining().drop_last()
                &&& final(self).claimed() == seq![old(self).remaining().last()] + old(self).claimed()
            },
    {
        match self.targets.pop() {
            Some(target) => {
                self.handed_out = Ghost(seq![target] + self.handed_out@);
                proof {
                    assert(self.initial@ =~= self.targets@ + self.handed_out@);
                }
                Some(target)
            },
            None => None,
        }
    }
}

/// In every well-formed dispatcher state the hand-out history and the queue
/// account for the initial targets one for one, and the initial count fits the
/// machine's word — the queue never grows, so nothing a claim counts can
/// overflow.
pub proof fn lemma_hand_out_accounting(d: &Dispatcher)
    requires
        d.wf(),
    ensures
        d.claimed().len() + d.remaining().len() == d.initial().len(),
        d.initial().len() <= usize::MAX,
{
}

/// Once the queue is exhausted, the hand-out history holds the initial
/// targets themselves: everything that was enqueued went out, and nothing
/// else did.
pub proof fn lemma_exhausted_claims_all(d: &Dispatcher)
    requires
        d.wf(),
        d.remaining().len() == 0,
    ensures
        d.claimed() == d.initial(),
{
    assert(d.claimed() =~= d.initial());
}

/// Claim exclusivity law: in every well-formed dispatcher state, the targets
/// handed out and the targets still queued together form — as a multiset, so
/// counting duplicates — exactly the initial queue. Each target is therefore
/// claimed by at most one worker, no target is handed out twice, and none is
/// dropped; with duplicate-but-distinguishable targets, every copy is handed
/// out exactly once.
pub proof fn lemma_claim_exclusivity(d: &Dispatcher)
    requires
        d.wf(),
    ensures
        d.claimed().to_multiset().add(d.remaining().to_multiset()) == d.initial().to_multiset(),
        d.claimed().len() + d.remaining().len() == d.initial().len(),
{
    lemma_multiset_commutative(d.remaining(), d.claimed());
    assert(d.claimed().to_multiset().add(d.remaining().to_multiset()) =~= d.remaining()
        .to_multiset()
        .add(d.claimed().to_multiset()));
}

} // verus!
