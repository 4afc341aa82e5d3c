//! Batch coordination: run the per-item supervisors with a bounded number
//! in flight, collect per-item failures, and let a cancellation preempt
//! aggregation. The surrounding binary drives the asynchronous tasks; the
//! decisions — when one more may start, what each completion does to the
//! aggregate, and what the whole run reports — are verified here.

use vstd::prelude::*;

use crate::supervisor::{error_message_spec, DownloadError};

verus! {

/// The reported outcome of one item's supervision.
pub enum ItemResult {
    Completed,
    Failed(String),
    Cancelled,
}

/// The mathematical form of an item outcome.
pub enum ItemView {
    Completed,
    Failed(Seq<char>),
    Cancelled,
}

impl View for ItemResult {
    type V = ItemView;

    open spec fn view(&self) -> ItemView {
        match self {
            ItemResult::Completed => ItemView::Completed,
            ItemResult::Failed(m) => ItemView::Failed(m@),
            ItemResult::Cancelled => ItemView::Cancelled,
        }
    }
}

/// The aggregate result of a whole run.
pub enum BatchResult {
    AllCompleted,
    Failures(Vec<String>),
    Cancelled,
}

/// The mathematical form of an aggregate result.
pub enum BatchView {
    AllCompleted,
    Failures(Seq<Seq<char>>),
    Cancelled,
}

impl View for BatchResult {
    type V = BatchView;

    open spec fn view(&self) -> BatchView {
        match self {
            BatchResult::AllCompleted => BatchView::AllCompleted,
            BatchResult::Failures(v) => BatchView::Failures(v@.map_values(|x: String| x@)),
            BatchResult::Cancelled => BatchView::Cancelled,
        }
    }
}

/// The per-item report handed to the coordinator: completion and
/// cancellation pass through; any other error becomes a failure message
/// naming the URL and the reason.
pub fn item_report(url: &str, outcome: Result<(), DownloadError>) -> (r: ItemResult)
    ensures
        outcome is Ok ==> r@ == ItemView::Completed,
        outcome == Err::<(), DownloadError>(DownloadError::Cancelled) ==> r@
            == ItemView::Cancelled,
        outcome matches Err(e) ==> (e != DownloadError::Cancelled ==> r@ == ItemView::Failed(
            "Failed: "@ + url@ + " - "@ + error_message_spec(e),
        )),
{
    match outcome {
        Ok(()) => ItemResult::Completed,
        Err(e) => {
            if e == DownloadError::Cancelled {
                ItemResult::Cancelled
            } else {
                let msg = String::from_str("Failed: ").concat(url).concat(" - ").concat(
                    e.message().as_str(),
                );
                proof {
                    assert(msg@ =~= "Failed: "@ + url@ + " - "@ + error_message_spec(e));
                }
                ItemResult::Failed(msg)
            }
        }
    }
}

pub open spec fn failure_msg(r: ItemView) -> Seq<char> {
    match r {
        ItemView::Failed(m) => m,
        _ => Seq::empty(),
    }
}

/// The failure messages among the outcomes seen, in order.
pub open spec fn failures_of(rs: Seq<ItemView>) -> Seq<Seq<char>> {
    rs.filter(|r: ItemView| r is Failed).map_values(|r: ItemView| failure_msg(r))
}

pub open spec fn any_cancelled(rs: Seq<ItemView>) -> bool {
    exists|i: int| 0 <= i < rs.len() && rs[i] is Cancelled
}

/// The aggregate owed to a sequence of item outcomes: cancelled when any
/// item was cancelled, otherwise all-completed or the collected failures.
pub open spec fn batch_outcome(rs: Seq<ItemView>) -> BatchView {
    if any_cancelled(rs) {
        BatchView::Cancelled
    } else if failures_of(rs).len() == 0 {
        BatchView::AllCompleted
    } else {
        BatchView::Failures(failures_of(rs))
    }
}

/// The coordinator's record of a run in progress.
pub struct BatchCoordinator {
    pub total: usize,
    pub limit: usize,
    pub started: usize,
    pub finished: usize,
    pub cancelled: bool,
    pub failures: Vec<String>,
    pub history: Ghost<Seq<ItemView>>,
}

fn clone_strings(v: &Vec<String>) -> (r: Vec<String>)
    ensures
        r@.map_values(|x: String| x@) == v@.map_values(|x: String| x@),
{
    let mut r: Vec<String> = Vec::new();
    let mut i: usize = 0;
    while i < v.len()
        invariant
            i <= v@.len(),
            r@.len() == i,
            forall|j: int| 0 <= j < i ==> r@[j]@ == v@[j]@,
        decreases v@.len() - i,
    {
        r.push(v[i].clone());
        i = i + 1;
    }
    proof {
        assert(r@.map_values(|x: String| x@) =~= v@.map_values(|x: String| x@));
    }
    r
}

impl BatchCoordinator {
    /// The coordinator's invariant: counters are consistent, no more than
    /// `limit` items are in flight, and the exec fields agree with the
    /// recorded outcome history.
    pub open spec fn wf(&self) -> bool {
        &&& self.limit >= 1
        &&& self.finished <= self.started <= self.total
        &&& self.started - self.finished <= self.limit
        &&& self.history@.len() == self.finished
        &&& self.cancelled == any_cancelled(self.history@)
        &&& self.failures@.map_values(|x: String| x@) == failures_of(self.history@)
    }

    /// How many items are started but not yet finished.
    pub open spec fn in_flight(&self) -> int {
        self.started - self.finished
    }

    /// A fresh coordinator for `total` items, at most `limit` in flight.
    pub fn new(total: usize, limit: usize) -> (r: Self)
        requires
            limit >= 1,
        ensures
            r.wf(),
            r.total == total,
            r.limit == limit,
            r.started == 0,
            r.finished == 0,
            !r.cancelled,
            r.history@ == Seq::<ItemView>::empty(),
    {
        let r = BatchCoordinator {
            total,
            limit,
            started: 0,
            finished: 0,
            cancelled: false,
            failures: Vec::new(),
            history: Ghost(Seq::empty()),
        };
        proof {
            reveal(Seq::filter);
            assert(r.failures@.map_values(|x: String| x@) =~= failures_of(r.history@));
        }
        r
    }

    /// Whether one more item may start now: items remain, fewer than
    /// `limit` are in flight, and no cancellation has been seen.
    pub fn can_start(&self) -> (r: bool)
        requires
            self.wf(),
        ensures
            r == (self.started < self.total && self.in_flight() < self.limit && !self.cancelled),
    {
        self.started < self.total && self.started - self.finished < self.limit && !self.cancelled
    }

    /// Note that one more item's supervision has started.
    pub fn note_started(&mut self)
        requires
            old(self).wf(),
            old(self).started < old(self).total,
            old(self).in_flight() < old(self).limit,
        ensures
            final(self).wf(),
            final(self).started == old(self).started + 1,
            final(self).finished == old(self).finished,
            final(self).total == old(self).total,
            final(self).limit == old(self).limit,
            final(self).cancelled == old(self).cancelled,
            final(self).history@ == old(self).history@,
    {
        self.started = self.started + 1;
    }

    /// Note one finished item with its outcome: a cancellation marks the
    /// whole run cancelled, a failure joins the collected failures.
    pub fn note_finished(&mut self, res: ItemResult)
        requires
            old(self).wf(),
            old(self).finished < old(self).started,
        ensures
            final(self).wf(),
            final(self).history@ == old(self).history@.push(res@),
            final(self).finished == old(self).finished + 1,
            final(self).started == old(self).started,
            final(self).total == old(self).total,
            final(self).limit == old(self).limit,
            final(self).cancelled == (old(self).cancelled || res@ is Cancelled),
    {
        let ghost rv = res@;
        let ghost oldh = self.history@;
        proof {
            reveal(Seq::filter);
            assert(oldh.push(rv).drop_last() =~= oldh);
            assert(oldh.push(rv).last() == rv);
        }
        self.finished = self.finished + 1;
        match res {
            ItemResult::Completed => {
                proof {
                    assert(failures_of(oldh.push(rv)) =~= failures_of(oldh));
                }
            }
            ItemResult::Failed(m) => {
                proof {
                    assert(oldh.push(rv).filter(|r: ItemView| r is Failed) =~= oldh.filter(
                        |r: ItemView| r is Failed,
                    ).push(rv));
                    assert(failures_of(oldh.push(rv)) =~= failures_of(oldh).push(m@));
                }
                self.failures.push(m);
                proof {
                    assert(self.failures@.map_values(|x: String| x@) =~= failures_of(
                        oldh.push(rv),
                    ));
                }
            }
            ItemResult::Cancelled => {
                self.cancelled = true;
                proof {
                    assert(failures_of(oldh.push(rv)) =~= failures_of(oldh));
                    assert(any_cancelled(oldh.push(rv)));
                }
            }
        }
        proof {
            self.history@ = oldh.push(rv);
            if !(rv is Cancelled) {
                assert(any_cancelled(oldh.push(rv)) == any_cancelled(oldh)) by {
                    if any_cancelled(oldh.push(rv)) {
                        let i = choose|i: int|
                            0 <= i < oldh.push(rv).len() && oldh.push(rv)[i] is Cancelled;
                        assert(i < oldh.len() && oldh[i] is Cancelled);
                    }
                }
            }
        }
    }

    /// Nothing is left to drive: the run was cancelled, or every item was
    /// started and finished.
    pub fn is_drained(&self) -> (r: bool)
        requires
            self.wf(),
        ensures
            r == (self.cancelled || (self.started == self.total && self.finished
                == self.started)),
    {
        self.cancelled || (self.started == self.total && self.finished == self.started)
    }

    /// The aggregate result of the run.
    pub fn result(&self) -> (r: BatchResult)
        requires
            self.wf(),
            self.cancelled || self.finished == self.total,
        ensures
            r@ == batch_outcome(self.history@),
    {
        if self.cancelled {
            BatchResult::Cancelled
        } else if self.failures.len() == 0 {
            proof {
                assert(self.failures@.map_values(|x: String| x@).len() == 0);
            }
            BatchResult::AllCompleted
        } else {
            proof {
                assert(self.failures@.map_values(|x: String| x@).len() > 0);
            }
            BatchResult::Failures(clone_strings(&self.failures))
        }
    }
}

/// Bounded concurrency: at every reachable coordinator state, no more
/// items are in flight than the configured concurrency factor.
pub proof fn lemma_bounded_concurrency(c: &BatchCoordinator)
    requires
        c.wf(),
    ensures
        c.in_flight() <= c.limit,
{
}

/// Cancellation short-circuits aggregation: once any item of a run was
/// cancelled, the aggregate is cancelled — never a partial failure —
/// however many items completed or failed.
pub proof fn lemma_cancellation_preempts(rs: Seq<ItemView>)
    requires
        any_cancelled(rs),
    ensures
        batch_outcome(rs) is Cancelled,
{
}

} // verus!
