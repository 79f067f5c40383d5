//! The deferred scheduler for multi-scalar-multiplication requests.  Widgets
//! enqueue commitment work while walking the sequential protocol; a flush
//! performs everything still pending in one batch, each item at most once.
//! Re-flushing an already-processed item never recomputes it.

use vstd::prelude::*;

use crate::curve::{msm_of, msm_points, G1Point, MsmPair};
use crate::manifest::PolynomialIndex;

verus! {

/// A finished request: the destination label and the computed commitment.
#[derive(Clone, Copy)]
pub struct MsmResult {
    pub label: PolynomialIndex,
    pub point: G1Point,
}

/// The destination labels of the still-pending requests among the first `k`,
/// in queue order.
pub open spec fn pending_labels(
    labels: Seq<PolynomialIndex>,
    processed: Seq<bool>,
    k: int,
) -> Seq<PolynomialIndex>
    decreases k,
{
    if k <= 0 {
        Seq::empty()
    } else {
        let rest = pending_labels(labels, processed, k - 1);
        if processed[k - 1] {
            rest
        } else {
            rest.push(labels[k - 1])
        }
    }
}

/// The pair sequences of the still-pending requests among the first `k`,
/// in queue order.
pub open spec fn pending_pair_sets(
    pair_sets: Seq<Seq<MsmPair>>,
    processed: Seq<bool>,
    k: int,
) -> Seq<Seq<MsmPair>>
    decreases k,
{
    if k <= 0 {
        Seq::empty()
    } else {
        let rest = pending_pair_sets(pair_sets, processed, k - 1);
        if processed[k - 1] {
            rest
        } else {
            rest.push(pair_sets[k - 1])
        }
    }
}

/// The batched scheduler.  Each request holds a destination label and a
/// fixed sequence of (base, scalar) pairs; distinct requests carry no
/// ordering dependency on one another.
pub struct WorkQueue {
    labels: Vec<PolynomialIndex>,
    pair_sets: Vec<Vec<MsmPair>>,
    processed: Vec<bool>,
    results: Vec<MsmResult>,
}

impl WorkQueue {
    /// The three request columns stay aligned.
    pub closed spec fn wf(&self) -> bool {
        &&& self.pair_sets@.len() == self.labels@.len()
        &&& self.processed@.len() == self.labels@.len()
    }

    /// Labels of the enqueued requests, in order.
    pub closed spec fn labels_seq(&self) -> Seq<PolynomialIndex> {
        self.labels@
    }

    /// Pair sequences of the enqueued requests, in order.
    pub closed spec fn pairs_seq(&self) -> Seq<Seq<MsmPair>> {
        self.pair_sets@.map_values(|v: Vec<MsmPair>| v@)
    }

    /// Which requests were already performed.
    pub closed spec fn processed_seq(&self) -> Seq<bool> {
        self.processed@
    }

    /// The finished requests, in completion order.
    pub closed spec fn results_seq(&self) -> Seq<MsmResult> {
        self.results@
    }

    /// An empty queue.
    pub fn new() -> (r: WorkQueue)
        ensures
            r.wf(),
            r.labels_seq().len() == 0,
            r.results_seq().len() == 0,
    {
        WorkQueue { labels: Vec::new(), pair_sets: Vec::new(), processed: Vec::new(), results: Vec::new() }
    }

    /// Number of enqueued requests.
    pub fn len(&self) -> (r: usize)
        ensures
            r == self.labels_seq().len(),
    {
        self.labels.len()
    }

    /// The finished requests so far.
    pub fn results(&self) -> (r: &Vec<MsmResult>)
        ensures
            r@ == self.results_seq(),
    {
        &self.results
    }

    /// Appends a pending request; nothing is computed yet.
    pub fn enqueue(&mut self, label: PolynomialIndex, pairs: Vec<MsmPair>)
        requires
            old(self).wf(),
        ensures
            final(self).wf(),
            final(self).labels_seq() == old(self).labels_seq().push(label),
            final(self).pairs_seq() == old(self).pairs_seq().push(pairs@),
            final(self).processed_seq() == old(self).processed_seq().push(false),
            final(self).results_seq() == old(self).results_seq(),
    {
        self.labels.push(label);
        self.pair_sets.push(pairs);
        self.processed.push(false);
        proof {
            assert(final(self).pairs_seq() =~= old(self).pairs_seq().push(pairs@));
        }
    }

    /// Performs every still-pending request, in queue order, appending one
    /// result per pending item; requests already performed are skipped, not
    /// recomputed.
    pub fn flush(&mut self)
        requires
            old(self).wf(),
        ensures
            final(self).wf(),
            final(self).labels_seq() == old(self).labels_seq(),
            final(self).pairs_seq() == old(self).pairs_seq(),
            final(self).processed_seq().len() == old(self).processed_seq().len(),
            forall|k: int|
                0 <= k < final(self).processed_seq().len() ==> final(self).processed_seq()[k],
            final(self).results_seq().len() == old(self).results_seq().len() + pending_labels(
                old(self).labels_seq(),
                old(self).processed_seq(),
                old(self).labels_seq().len() as int,
            ).len(),
            forall|j: int|
                0 <= j < old(self).results_seq().len() ==> final(self).results_seq()[j] == old(
                    self,
                ).results_seq()[j],
            forall|j: int|
                0 <= j < pending_labels(
                    old(self).labels_seq(),
                    old(self).processed_seq(),
                    old(self).labels_seq().len() as int,
                ).len() ==> #[trigger] final(self).results_seq()[old(self).results_seq().len()
                    + j].label == pending_labels(
                    old(self).labels_seq(),
                    old(self).processed_seq(),
                    old(self).labels_seq().len() as int,
                )[j],
            forall|j: int|
                0 <= j < pending_labels(
                    old(self).labels_seq(),
                    old(self).processed_seq(),
                    old(self).labels_seq().len() as int,
                ).len() ==> #[trigger] final(self).results_seq()[old(self).results_seq().len()
                    + j].point == msm_of(
                    pending_pair_sets(
                        old(self).pairs_seq(),
                        old(self).processed_seq(),
                        old(self).labels_seq().len() as int,
                    )[j],
                ),
    {
        let n = self.labels.len();
        let mut k: usize = 0;
        while k < n
            invariant
                self.wf(),
                n == self.labels@.len(),
                k <= n,
                self.labels@ == old(self).labels_seq(),
                self.pair_sets@ == old(self).pair_sets@,
                self.processed@.len() == n,
                forall|j: int| 0 <= j < k ==> self.processed@[j],
                forall|j: int| k <= j < n ==> self.processed@[j] == old(self).processed_seq()[j],
                self.results@.len() == old(self).results_seq().len() + pending_labels(
                    old(self).labels_seq(),
                    old(self).processed_seq(),
                    k as int,
                ).len(),
                forall|j: int|
                    0 <= j < old(self).results_seq().len() ==> self.results@[j] == old(
                        self,
                    ).results_seq()[j],
                forall|j: int|
                    0 <= j < pending_labels(
                        old(self).labels_seq(),
                        old(self).processed_seq(),
                        k as int,
                    ).len() ==> #[trigger] self.results@[old(self).results_seq().len() + j].label
                        == pending_labels(
                        old(self).labels_seq(),
                        old(self).processed_seq(),
                        k as int,
                    )[j],
                forall|j: int|
                    0 <= j < pending_labels(
                        old(self).labels_seq(),
                        old(self).processed_seq(),
                        k as int,
                    ).len() ==> #[trigger] self.results@[old(self).results_seq().len() + j].point
                        == msm_of(
                        pending_pair_sets(
                            old(self).pairs_seq(),
                            old(self).processed_seq(),
                            k as int,
                        )[j],
                    ),
                pending_pair_sets(
                    old(self).pairs_seq(),
                    old(self).processed_seq(),
                    k as int,
                ).len() == pending_labels(
                    old(self).labels_seq(),
                    old(self).processed_seq(),
                    k as int,
                ).len(),
            decreases n - k,
        {
            if !self.processed[k] {
                let point = msm_points(&self.pair_sets[k]);
                let label = self.labels[k];
                proof {
                    assert(old(self).pairs_seq()[k as int] == self.pair_sets@[k as int]@);
                }
                self.results.push(MsmResult { label, point });
                self.processed[k] = true;
            }
            k = k + 1;
        }
    }
}

/// With nothing pending — in particular on an empty queue — a flush appends
/// no result.
pub proof fn lemma_flush_nothing_pending(
    labels: Seq<PolynomialIndex>,
    pair_sets: Seq<Seq<MsmPair>>,
    processed: Seq<bool>,
    k: int,
)
    requires
        0 <= k <= processed.len(),
        forall|j: int| 0 <= j < k ==> processed[j],
    ensures
        pending_labels(labels, processed, k).len() == 0,
        pending_pair_sets(pair_sets, processed, k).len() == 0,
    decreases k,
{
    if k > 0 {
        lemma_flush_nothing_pending(labels, pair_sets, processed, k - 1);
    }
}

/// On a queue of fresh requests, a flush yields exactly one result per
/// request, carrying its destination label, in order.
pub proof fn lemma_flush_all_pending(
    labels: Seq<PolynomialIndex>,
    pair_sets: Seq<Seq<MsmPair>>,
    processed: Seq<bool>,
    k: int,
)
    requires
        0 <= k <= processed.len(),
        processed.len() == labels.len(),
        processed.len() == pair_sets.len(),
        forall|j: int| 0 <= j < k ==> !processed[j],
    ensures
        pending_labels(labels, processed, k).len() == k,
        forall|j: int| 0 <= j < k ==> #[trigger] pending_labels(labels, processed, k)[j]
            == labels[j],
        pending_pair_sets(pair_sets, processed, k).len() == k,
        forall|j: int| 0 <= j < k ==> #[trigger] pending_pair_sets(pair_sets, processed, k)[j]
            == pair_sets[j],
    decreases k,
{
    if k > 0 {
        lemma_flush_all_pending(labels, pair_sets, processed, k - 1);
        assert(!processed[k - 1]);
        assert(pending_labels(labels, processed, k) == pending_labels(
            labels,
            processed,
            k - 1,
        ).push(labels[k - 1]));
        assert(pending_pair_sets(pair_sets, processed, k) == pending_pair_sets(
            pair_sets,
            processed,
            k - 1,
        ).push(pair_sets[k - 1]));
    }
}

} // verus!
