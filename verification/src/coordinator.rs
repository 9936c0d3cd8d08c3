//! The worker pool coordinator's shared state: the dispatcher, the claims
//! whose result has not come back yet, and the collector the results are
//! funneled into. The driver wraps one `Coordinator` in a mutual-exclusion
//! lock and runs its worker threads against it; every decision a worker or
//! the collector takes — hand out one target, accept one result, declare the
//! run complete — is a method here, verified against the conservation
//! invariant that makes the run lose nothing and duplicate nothing.

use vstd::prelude::*;
use vstd::multiset::Multiset;
use vstd::multiset::group_multiset_axioms;
use vstd::seq_lib::group_to_multiset_ensures;
use vstd::seq_lib::lemma_multiset_commutative;

use crate::dispatcher::Dispatcher;
use crate::dispatcher::lemma_exhausted_claims_all;
use crate::dispatcher::lemma_hand_out_accounting;
use crate::status::CheckResult;
use crate::status::CheckTarget;

verus! {

/// The URLs of a sequence of targets, as character sequences.
pub open spec fn target_urls(targets: Seq<CheckTarget>) -> Seq<Seq<char>> {
    targets.map_values(|t: CheckTarget| t.url@)
}

/// The URLs of a sequence of result records, as character sequences.
pub open spec fn result_urls(results: Seq<CheckResult>) -> Seq<Seq<char>> {
    results.map_values(|r: CheckResult| r.url@)
}

spec fn string_views(urls: Seq<String>) -> Seq<Seq<char>> {
    urls.map_values(|u: String| u@)
}

/// Shared state of one run. Results may come back in any order — claim order
/// under contention is not deterministic — so the collector records them in
/// arrival order and promises only the conservation stated by the methods,
/// never input order.
pub struct Coordinator {
    dispatcher: Dispatcher,
    pending: Vec<String>,
    results: Vec<CheckResult>,
}

impl Coordinator {
    /// The targets no worker has claimed yet.
    pub closed spec fn remaining(&self) -> Seq<CheckTarget> {
        self.dispatcher.remaining()
    }

    /// The URLs claimed by some worker whose result has not been recorded
    /// yet, in claim order.
    pub closed spec fn pending_urls(&self) -> Seq<Seq<char>> {
        string_views(self.pending@)
    }

    /// How many claims have no recorded result yet.
    pub closed spec fn pending(&self) -> nat {
        self.pending@.len()
    }

    /// The results recorded so far, in arrival order.
    pub closed spec fn collected(&self) -> Seq<CheckResult> {
        self.results@
    }

    /// How many targets the run was started with.
    pub closed spec fn total(&self) -> nat {
        self.dispatcher.initial().len()
    }

    /// The URLs the run was started with, in input order.
    pub closed spec fn input_urls(&self) -> Seq<Seq<char>> {
        target_urls(self.dispatcher.initial())
    }

    /// Well-formedness: the dispatcher's hand-out history is intact, every
    /// claim so far is accounted for — its result recorded or its URL still
    /// pending — and, counting duplicates, the recorded and pending URLs are
    /// exactly the URLs handed out. Together with the dispatcher's own
    /// invariant this makes recorded + pending + remaining equal the initial
    /// targets at every reachable state.
    pub closed spec fn wf(&self) -> bool {
        &&& self.dispatcher.wf()
        &&& self.dispatcher.claimed().len() == self.results@.len() + self.pending@.len()
        &&& result_urls(self.results@).to_multiset().add(string_views(self.pending@).to_multiset())
            == target_urls(self.dispatcher.claimed()).to_multiset()
    }

    /// Starts a run: all targets queued, no claim made, no result collected.
    /// Duplicates in the input are kept — they are independent targets.
    pub fn new(targets: Vec<CheckTarget>) -> (c: Coordinator)
        ensures
            c.wf(),
            c.remaining() == targets@,
            c.pending() == 0,
            c.collected() == Seq::<CheckResult>::empty(),
            c.total() == targets@.len(),
            c.input_urls() == target_urls(targets@),
    {
        let c = Coordinator {
            dispatcher: Dispatcher::new(targets),
            pending: Vec::new(),
            results: Vec::new(),
        };
        proof {
            broadcast use group_multiset_axioms, group_to_multiset_ensures;

            lemma_to_multiset_of_empty::<Seq<char>>(result_urls(c.results@));
            lemma_to_multiset_of_empty::<Seq<char>>(string_views(c.pending@));
            lemma_to_multiset_of_empty::<Seq<char>>(target_urls(c.dispatcher.claimed()));
            assert(result_urls(c.results@).to_multiset().add(
                string_views(c.pending@).to_multiset(),
            ) =~= target_urls(c.dispatcher.claimed()).to_multiset());
        }
        c
    }

    /// Claims one target for a worker and notes its URL as pending. On an
    /// exhausted queue this returns no work and changes nothing, whatever the
    /// number of workers still asking — extra workers beyond the remaining
    /// work are no-ops and exit without affecting the result set.
    pub fn claim(&mut self) -> (r: Option<CheckTarget>)
        requires
            old(self).wf(),
        ensures
            final(self).wf(),
            final(self).total() == old(self).total(),
            final(self).input_urls() == old(self).input_urls(),
            final(self).collected() == old(self).collected(),
            old(self).remaining().len() == 0 ==> {
                &&& r is None
                &&& final(self).remaining() == old(self).remaining()
                &&& final(self).pending_urls() == old(self).pending_urls()
            },
            old(self).remaining().len() > 0 ==> {
                &&& r == Some(old(self).remaining().last())
                &&& final(self).remaining() == old(self).remaining().drop_last()
                &&& final(self).pending_urls() == old(self).pending_urls().push(
                    old(self).remaining().last().url@,
                )
                &&& final(self).pending() == old(self).pending() + 1
            },
    {
        match self.dispatcher.claim_next() {
            Some(target) => {
                let ghost pending_before = self.pending@;
                let ghost claimed_before = old(self).dispatcher.claimed();
                let url = target.url.clone();
                self.pending.push(url);
                proof {
                    broadcast use group_multiset_axioms, group_to_multiset_ensures;

                    lemma_string_views_push(pending_before, target.url);
                    lemma_target_urls_prepend(target, claimed_before);
                    lemma_to_multiset_prepend(target.url@, target_urls(claimed_before));
                    assert(result_urls(self.results@).to_multiset().add(
                        string_views(self.pending@).to_multiset(),
                    ) =~= target_urls(self.dispatcher.claimed()).to_multiset());
                }
                Some(target)
            },
            None => None,
        }
    }

    /// Looks for an outstanding claim with this URL.
    fn find_pending(&self, url: &String) -> (found: Option<usize>)
        ensures
            match found {
                Some(i) => i < self.pending@.len() && self.pending@[i as int]@ == url@,
                None => !self.pending_urls().contains(url@),
            },
    {
        let mut i: usize = 0;
        while i < self.pending.len()
            invariant
                i <= self.pending@.len(),
                forall|j: int| 0 <= j < i ==> self.pending@[j]@ != url@,
            decreases self.pending@.len() - i,
        {
            if self.pending[i] == *url {
                return Some(i);
            }
            i = i + 1;
        }
        proof {
            assert forall|j: int| 0 <= j < self.pending_urls().len() implies self.pending_urls()[j]
                != url@ by {
                assert(self.pending_urls()[j] == self.pending@[j]@);
            }
        }
        None
    }

    /// Accepts one result from a worker. Delivery succeeds exactly when the
    /// result's URL matches an outstanding claim; a result whose URL no
    /// worker has an open claim for would mean a claim the coordinator never
    /// made, so it is refused — the internal-plumbing fault the driver treats
    /// as fatal. A refused delivery changes nothing.
    pub fn record(&mut self, result: CheckResult) -> (delivered: bool)
        requires
            old(self).wf(),
        ensures
            final(self).wf(),
            final(self).total() == old(self).total(),
            final(self).input_urls() == old(self).input_urls(),
            final(self).remaining() == old(self).remaining(),
            delivered == old(self).pending_urls().contains(result.url@),
            delivered ==> {
                &&& final(self).collected() == old(self).collected().push(result)
                &&& final(self).pending_urls().to_multiset() == old(
                    self,
                ).pending_urls().to_multiset().remove(result.url@)
                &&& final(self).pending() == (old(self).pending() - 1) as nat
            },
            !delivered ==> {
                &&& final(self).collected() == old(self).collected()
                &&& final(self).pending_urls() == old(self).pending_urls()
            },
    {
        match self.find_pending(&result.url) {
            Some(i) => {
                let ghost pending_before = self.pending@;
                let ghost results_before = self.results@;
                self.pending.remove(i);
                self.results.push(result);
                proof {
                    broadcast use group_multiset_axioms, group_to_multiset_ensures;

                    assert(string_views(pending_before)[i as int] == result.url@);
                    assert(string_views(pending_before).contains(result.url@));
                    lemma_string_views_remove(pending_before, i as int);
                    lemma_result_urls_push(results_before, result);
                    assert(result_urls(self.results@).to_multiset().add(
                        string_views(self.pending@).to_multiset(),
                    ) =~= target_urls(self.dispatcher.claimed()).to_multiset());
                }
                true
            },
            None => false,
        }
    }

    /// Whether the run is over: nothing left to claim and nothing in flight.
    /// At that point the collector holds exactly one result per input target.
    pub fn is_complete(&self) -> (done: bool)
        requires
            self.wf(),
        ensures
            done == (self.pending() == 0 && self.remaining().len() == 0),
            done ==> self.collected().len() == self.total(),
    {
        proof {
            lemma_conservation(self);
        }
        self.pending.len() == 0 && self.dispatcher.remaining_count() == 0
    }

    /// Hands the collected results to the caller: one per input target, and —
    /// counting duplicates — over exactly the input URLs. The driver calls
    /// this only after `is_complete`, that is, after every worker has
    /// terminated and the collector can no longer be written.
    pub fn into_results(self) -> (results: Vec<CheckResult>)
        requires
            self.wf(),
            self.pending() == 0,
            self.remaining().len() == 0,
        ensures
            results@ == self.collected(),
            results@.len() == self.total(),
            result_urls(results@).to_multiset() == self.input_urls().to_multiset(),
    {
        proof {
            lemma_cardinality(&self);
            lemma_exactly_once_per_target(&self);
        }
        self.results
    }
}

/// Conservation law: in every well-formed state of a run, results recorded,
/// claims in flight and targets still queued together account for exactly the
/// initial target count — no target is lost and none is counted twice, at any
/// point of any run.
pub proof fn lemma_conservation(c: &Coordinator)
    requires
        c.wf(),
    ensures
        c.collected().len() + c.pending() + c.remaining().len() == c.total(),
{
    lemma_hand_out_accounting(&c.dispatcher);
}

/// Cardinality law: a finished run — nothing pending, nothing remaining —
/// holds exactly one result per input target, whatever order the workers ran
/// in and however many of them there were.
pub proof fn lemma_cardinality(c: &Coordinator)
    requires
        c.wf(),
        c.pending() == 0,
        c.remaining().len() == 0,
    ensures
        c.collected().len() == c.total(),
{
    lemma_conservation(c);
}

/// Exactly-once law: a finished run's results carry — as a multiset, so
/// counting duplicates — exactly the URLs the run was started with. No input
/// URL is reported twice, none is dropped, and no URL that was never enqueued
/// appears.
pub proof fn lemma_exactly_once_per_target(c: &Coordinator)
    requires
        c.wf(),
        c.pending() == 0,
        c.remaining().len() == 0,
    ensures
        result_urls(c.collected()).to_multiset() == c.input_urls().to_multiset(),
{
    broadcast use group_multiset_axioms, group_to_multiset_ensures;

    lemma_exhausted_claims_all(&c.dispatcher);
    lemma_to_multiset_of_empty::<Seq<char>>(string_views(c.pending@));
    assert(result_urls(c.results@).to_multiset() =~= result_urls(c.results@).to_multiset().add(
        Multiset::<Seq<char>>::empty(),
    ));
}

/// Idle-worker safety law: in every well-formed state, the claims that ever
/// returned work — those already recorded plus those still pending — number at
/// most the initial target count, and exactly that count once the queue is
/// empty. Starting more workers than there are targets therefore changes
/// nothing: at most one claim per target succeeds, every further claim finds
/// an empty queue, returns no work and leaves the state unchanged, and the
/// result set is the same as with one worker per target.
pub proof fn lemma_idle_worker_safety(c: &Coordinator)
    requires
        c.wf(),
    ensures
        c.collected().len() + c.pending() <= c.total(),
        c.remaining().len() == 0 ==> c.collected().len() + c.pending() == c.total(),
{
    lemma_conservation(c);
}

/// Empty-input law: a run over no targets can never have anything pending,
/// queued or collected — it is complete from the start, with an empty result
/// sequence, and no worker ever finds work to perform.
pub proof fn lemma_empty_run(c: &Coordinator)
    requires
        c.wf(),
        c.total() == 0,
    ensures
        c.collected().len() == 0,
        c.pending() == 0,
        c.remaining().len() == 0,
{
    lemma_conservation(c);
}

proof fn lemma_to_multiset_of_empty<A>(s: Seq<A>)
    requires
        s.len() == 0,
    ensures
        s.to_multiset() == Multiset::<A>::empty(),
{
    broadcast use group_multiset_axioms, group_to_multiset_ensures;

    assert(s.to_multiset() =~= Multiset::<A>::empty());
}

proof fn lemma_to_multiset_prepend<A>(x: A, s: Seq<A>)
    ensures
        (seq![x] + s).to_multiset() == s.to_multiset().insert(x),
{
    broadcast use group_multiset_axioms, group_to_multiset_ensures;

    lemma_multiset_commutative(seq![x], s);
    assert(seq![x] =~= Seq::<A>::empty().push(x));
    lemma_to_multiset_of_empty::<A>(Seq::<A>::empty());
    assert((seq![x] + s).to_multiset() =~= s.to_multiset().insert(x));
}

proof fn lemma_string_views_push(urls: Seq<String>, url: String)
    ensures
        string_views(urls.push(url)) == string_views(urls).push(url@),
{
    assert(string_views(urls.push(url)) =~= string_views(urls).push(url@));
}

proof fn lemma_string_views_remove(urls: Seq<String>, i: int)
    requires
        0 <= i < urls.len(),
    ensures
        string_views(urls.remove(i)) == string_views(urls).remove(i),
{
    assert(string_views(urls.remove(i)) =~= string_views(urls).remove(i));
}

proof fn lemma_result_urls_push(results: Seq<CheckResult>, result: CheckResult)
    ensures
        result_urls(results.push(result)) == result_urls(results).push(result.url@),
{
    assert(result_urls(results.push(result)) =~= result_urls(results).push(result.url@));
}

proof fn lemma_target_urls_prepend(target: CheckTarget, targets: Seq<CheckTarget>)
    ensures
        target_urls(seq![target] + targets) == seq![target.url@] + target_urls(targets),
{
    assert(target_urls(seq![target] + targets) =~= seq![target.url@] + target_urls(targets));
}

} // verus!
