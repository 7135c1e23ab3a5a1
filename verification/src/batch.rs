//! Batch state: the work queue, the completion tracker and the per-batch
//! decisions of the orchestrator. A batch owns the source list, hands each
//! item out exactly once, counts successful transfers, and remembers the
//! first failure. The surrounding binary drives it from its worker threads
//! under mutual exclusion; every transition is verified here.

use vstd::prelude::*;

use crate::paths::classify;
use crate::paths::direction_of;
use crate::paths::Direction;

verus! {

/// Number of `true` entries of a sequence of per-item outcomes.
pub open spec fn count_true(s: Seq<bool>) -> nat
    decreases s.len(),
{
    if s.len() == 0 {
        0
    } else {
        count_true(s.drop_last()) + if s.last() {
            1nat
        } else {
            0nat
        }
    }
}

proof fn lemma_count_true_le(s: Seq<bool>)
    ensures
        count_true(s) <= s.len(),
    decreases s.len(),
{
    if s.len() > 0 {
        lemma_count_true_le(s.drop_last());
    }
}

/// What one batch reports back: how many items succeeded, and the first
/// failing item with its message, if any transfer failed.
pub struct BatchReport {
    pub succeeded: usize,
    pub failed_item: Option<(String, String)>,
}

/// One batch of transfers: the shared destination and its direction, the
/// source items still to hand out, and the completion bookkeeping.
///
/// The ghost fields record the history that the contracts speak of: which
/// items have been handed to workers, the outcome of every finished item, and
/// every recorded failure in order.
pub struct Batch {
    pub direction: Direction,
    pub dest: String,
    pub sources: Vec<String>,
    pub concurrency: usize,
    pub next: usize,
    pub succeeded: usize,
    pub failed: Option<(String, String)>,
    pub handed: Ghost<Seq<Seq<char>>>,
    pub outcomes: Ghost<Seq<bool>>,
    pub failures: Ghost<Seq<(Seq<char>, Seq<char>)>>,
}

impl Batch {
    /// The source items, as character sequences.
    pub open spec fn items(self) -> Seq<Seq<char>> {
        self.sources@.map_values(|s: String| s@)
    }

    /// Well-formedness: the hand-out position stays within the list, the
    /// worker count is clamped, the histories are consistent with the
    /// counters, and the recorded failure is the first one.
    pub open spec fn wf(self) -> bool {
        &&& self.next <= self.sources@.len()
        &&& self.sources@.len() <= usize::MAX
        &&& self.concurrency <= self.sources@.len()
        &&& self.sources@.len() > 0 ==> self.concurrency >= 1
        &&& self.handed@ == self.items().take(self.next as int)
        &&& self.outcomes@.len() <= self.next
        &&& self.succeeded == count_true(self.outcomes@)
        &&& self.outcomes@.len() == count_true(self.outcomes@) + self.failures@.len()
        &&& match self.failed {
            None => self.failures@.len() == 0,
            Some(p) => self.failures@.len() > 0 && p.0@ == self.failures@[0].0 && p.1@
                == self.failures@[0].1,
        }
    }

    /// Open a batch: classify the destination once, clamp the worker count to
    /// the number of items, and start with nothing handed out.
    pub fn new(sources: Vec<String>, dest: String, concurrency: u32) -> (b: Batch)
        requires
            concurrency >= 1,
        ensures
            b.wf(),
            b.direction == direction_of(dest@),
            b.dest@ == dest@,
            b.sources == sources,
            concurrency as nat <= sources@.len() ==> b.concurrency == concurrency as nat,
            sources@.len() < concurrency as nat ==> b.concurrency == sources@.len(),
            b.next == 0,
            b.succeeded == 0,
            b.failed is None,
            b.handed@ == Seq::<Seq<char>>::empty(),
            b.outcomes@ == Seq::<bool>::empty(),
    {
        let k = sources.len();
        let c = concurrency as usize;
        let clamped = if c <= k {
            c
        } else {
            k
        };
        let direction = classify(dest.as_str());
        let b = Batch {
            direction,
            dest,
            sources,
            concurrency: clamped,
            next: 0,
            succeeded: 0,
            failed: None,
            handed: Ghost(Seq::empty()),
            outcomes: Ghost(Seq::empty()),
            failures: Ghost(Seq::empty()),
        };
        proof {
            assert(b.handed@ =~= b.items().take(0));
        }
        b
    }

    /// The number of workers the orchestrator is to spawn for this batch.
    pub fn worker_count(&self) -> (n: usize)
        ensures
            n == self.concurrency,
    {
        self.concurrency
    }

    /// Which way this batch moves.
    pub fn direction(&self) -> (d: Direction)
        ensures
            d == self.direction,
    {
        self.direction
    }

    /// Hand the next item to a worker. Each item is delivered exactly once,
    /// in list order; `None` tells the worker that no more work is coming.
    pub fn dequeue(&mut self) -> (r: Option<String>)
        requires
            old(self).wf(),
        ensures
            final(self).wf(),
            final(self).direction == old(self).direction,
            final(self).dest == old(self).dest,
            final(self).sources == old(self).sources,
            final(self).concurrency == old(self).concurrency,
            final(self).succeeded == old(self).succeeded,
            final(self).failed == old(self).failed,
            final(self).outcomes == old(self).outcomes,
            final(self).failures == old(self).failures,
            old(self).next < old(self).sources@.len() ==> {
                &&& r is Some
                &&& r.unwrap()@ == old(self).items()[old(self).next as int]
                &&& final(self).next == old(self).next + 1
                &&& final(self).handed@ == old(self).handed@.push(r.unwrap()@)
            },
            old(self).next == old(self).sources@.len() ==> {
                &&& r is None
                &&& final(self).next == old(self).next
                &&& final(self).handed == old(self).handed
            },
    {
        if self.next < self.sources.len() {
            let s = self.sources[self.next].clone();
            self.next = self.next + 1;
            proof {
                self.handed@ = self.handed@.push(s@);
                assert(final(self).handed@ =~= final(self).items().take(final(self).next as int));
            }
            Some(s)
        } else {
            None
        }
    }

    /// Record one successful transfer. Called by a worker, once per item that
    /// was handed out and completed; the count never outruns the hand-outs.
    pub fn record_success(&mut self)
        requires
            old(self).wf(),
            old(self).outcomes@.len() < old(self).next,
        ensures
            final(self).wf(),
            final(self).succeeded == old(self).succeeded + 1,
            final(self).outcomes@ == old(self).outcomes@.push(true),
            final(self).direction == old(self).direction,
            final(self).dest == old(self).dest,
            final(self).sources == old(self).sources,
            final(self).concurrency == old(self).concurrency,
            final(self).next == old(self).next,
            final(self).failed == old(self).failed,
            final(self).failures == old(self).failures,
            final(self).handed == old(self).handed,
    {
        proof {
            lemma_count_true_le(self.outcomes@);
        }
        self.succeeded = self.succeeded + 1;
        proof {
            self.outcomes@ = self.outcomes@.push(true);
            assert(self.outcomes@.drop_last() =~= old(self).outcomes@);
        }
    }

    /// Record one failed transfer. The first failure is kept for the report;
    /// later ones only enter the history.
    pub fn record_failure(&mut self, item: String, msg: String)
        requires
            old(self).wf(),
            old(self).outcomes@.len() < old(self).next,
        ensures
            final(self).wf(),
            final(self).succeeded == old(self).succeeded,
            final(self).outcomes@ == old(self).outcomes@.push(false),
            final(self).failures@ == old(self).failures@.push((item@, msg@)),
            old(self).failed is None ==> final(self).failed == Some((item, msg)),
            old(self).failed is Some ==> final(self).failed == old(self).failed,
            final(self).direction == old(self).direction,
            final(self).dest == old(self).dest,
            final(self).sources == old(self).sources,
            final(self).concurrency == old(self).concurrency,
            final(self).next == old(self).next,
            final(self).handed == old(self).handed,
    {
        let ghost item_view = item@;
        let ghost msg_view = msg@;
        if self.failed.is_none() {
            self.failed = Some((item, msg));
        }
        proof {
            self.outcomes@ = self.outcomes@.push(false);
            self.failures@ = self.failures@.push((item_view, msg_view));
            assert(self.outcomes@.drop_last() =~= old(self).outcomes@);
        }
    }

    /// Whether some transfer of this batch has already failed.
    pub fn has_failed(&self) -> (b: bool)
        ensures
            b == (self.failed is Some),
    {
        self.failed.is_some()
    }

    /// The aggregate report: the final count of successes and the first
    /// failure, if any.
    pub fn report(&self) -> (r: BatchReport)
        requires
            self.wf(),
        ensures
            r.succeeded == self.succeeded,
            r.succeeded == count_true(self.outcomes@),
            self.failed is None ==> r.failed_item is None,
            self.failed is Some ==> {
                &&& r.failed_item is Some
                &&& r.failed_item.unwrap().0@ == self.failed.unwrap().0@
                &&& r.failed_item.unwrap().1@ == self.failed.unwrap().1@
            },
    {
        let failed_item = match &self.failed {
            None => None,
            Some(p) => Some((p.0.clone(), p.1.clone())),
        };
        BatchReport { succeeded: self.succeeded, failed_item }
    }
}

/// Law: the completion count equals the number of items whose transfer
/// returned success — never more, never fewer — and every finished item is
/// accounted for as either a success or a recorded failure.
pub proof fn lemma_count_matches_successes(b: Batch)
    requires
        b.wf(),
    ensures
        b.succeeded == count_true(b.outcomes@),
        b.outcomes@.len() == count_true(b.outcomes@) + b.failures@.len(),
{
}

/// Law: once the queue is drained, the items handed out are exactly the
/// source list, in order — every enqueued item was dequeued exactly once, none
/// duplicated, none lost.
pub proof fn lemma_each_item_handed_once(b: Batch)
    requires
        b.wf(),
        b.next == b.sources@.len(),
    ensures
        b.handed@ == b.items(),
        forall|i: int| 0 <= i < b.items().len() ==> b.handed@[i] == b.sources@[i]@,
{
    assert(b.handed@ =~= b.items());
}

/// Law: the worker count is always clamped to the number of items, and no
/// worker at all is spawned for an empty batch.
pub proof fn lemma_worker_count_clamped(b: Batch)
    requires
        b.wf(),
    ensures
        b.concurrency <= b.sources@.len(),
        b.sources@.len() == 0 ==> b.concurrency == 0,
{
}

} // verus!
