//! The statistics that the polling loops keep of a `u64` reading: the largest
//! and the smallest sample seen, and the running average of all of them.

use vstd::prelude::*;
use crate::avg::{add_value, total_sum, LinkedList, Node};

verus! {

/// The largest sample, `0` when there is none.
pub open spec fn max_of(samples: Seq<u64>) -> u64
    decreases samples.len(),
{
    if samples.len() == 0 {
        0
    } else if max_of(samples.drop_last()) < samples.last() {
        samples.last()
    } else {
        max_of(samples.drop_last())
    }
}

/// The smallest sample, `u64::MAX` when there is none.
pub open spec fn min_of(samples: Seq<u64>) -> u64
    decreases samples.len(),
{
    if samples.len() == 0 {
        u64::MAX
    } else if min_of(samples.drop_last()) > samples.last() {
        samples.last()
    } else {
        min_of(samples.drop_last())
    }
}

/// The sum of the samples.
pub open spec fn sum_of(samples: Seq<u64>) -> int
    decreases samples.len(),
{
    if samples.len() == 0 {
        0
    } else {
        sum_of(samples.drop_last()) + samples.last()
    }
}

/// The buckets of the running average after the samples were recorded in order.
pub open spec fn buckets_of(samples: Seq<u64>) -> Seq<Node>
    decreases samples.len(),
{
    if samples.len() == 0 {
        seq![Node { counter: 0, sum: 0 }]
    } else {
        add_value(buckets_of(samples.drop_last()), samples.last() as nat)
    }
}

/// Largest, smallest and running average of the samples recorded so far.
pub struct Statistics {
    max: u64,
    min: u64,
    average: LinkedList,
    samples: Ghost<Seq<u64>>,
}

impl View for Statistics {
    type V = Seq<u64>;

    /// The samples recorded so far, oldest first.
    closed spec fn view(&self) -> Seq<u64> {
        self.samples@
    }
}

impl Statistics {
    /// The kept values agree with the samples recorded.
    pub closed spec fn wf(&self) -> bool {
        &&& self.max == max_of(self.samples@)
        &&& self.min == min_of(self.samples@)
        &&& self.average.wf()
        &&& self.average@ == buckets_of(self.samples@)
    }

    /// No sample yet: the largest is `0`, the smallest `u64::MAX`.
    pub fn new() -> (stats: Statistics)
        ensures
            stats.wf(),
            stats@ == Seq::<u64>::empty(),
    {
        let stats = Statistics {
            max: 0,
            min: u64::MAX,
            average: LinkedList::new(),
            samples: Ghost(Seq::empty()),
        };
        assert(stats.average@ == buckets_of(stats.samples@));
        stats
    }

    /// Records one sample.
    pub fn record(&mut self, value: u64)
        requires
            old(self).wf(),
        ensures
            final(self).wf(),
            final(self)@ == old(self)@.push(value),
    {
        let ghost before = self.samples@;
        if self.max < value {
            self.max = value;
        }
        self.average.add(value as u128);
        if self.min > value {
            self.min = value;
        }
        self.samples = Ghost(before.push(value));
        assert(self.samples@.drop_last() == before);
    }

    /// The largest sample, `0` when there is none.
    pub fn max(&self) -> (r: u64)
        requires
            self.wf(),
        ensures
            r == max_of(self@),
    {
        self.max
    }

    /// The smallest sample, `u64::MAX` when there is none.
    pub fn min(&self) -> (r: u64)
        requires
            self.wf(),
        ensures
            r == min_of(self@),
    {
        self.min
    }

    /// The running average of the samples.
    pub fn average(&self) -> (r: &LinkedList)
        requires
            self.wf(),
        ensures
            r.wf(),
            r@ == buckets_of(self@),
    {
        &self.average
    }
}


/// How many samples are not zero.
pub open spec fn nonzero_count(samples: Seq<u64>) -> nat
    decreases samples.len(),
{
    if samples.len() == 0 {
        0
    } else {
        nonzero_count(samples.drop_last()) + if samples.last() > 0 {
            1nat
        } else {
            0
        }
    }
}

proof fn lemma_sum_of_nonneg(samples: Seq<u64>)
    ensures
        sum_of(samples) >= 0,
    decreases samples.len(),
{
    if samples.len() > 0 {
        lemma_sum_of_nonneg(samples.drop_last());
    }
}

/// While the samples' total fits in a `u32` and so does their number, the
/// running average stays one bucket holding the number of (non-zero)
/// samples and their sum.
pub proof fn lemma_steady_samples_one_bucket(samples: Seq<u64>)
    requires
        sum_of(samples) <= u32::MAX,
        nonzero_count(samples) <= u32::MAX,
    ensures
        buckets_of(samples) == seq![
            Node { counter: nonzero_count(samples) as u32, sum: sum_of(samples) as u32 },
        ],
    decreases samples.len(),
{
    if samples.len() == 0 {
        assert(buckets_of(samples) == seq![Node { counter: 0, sum: 0 }]);
        assert(sum_of(samples) == 0);
        assert(nonzero_count(samples) == 0);
    } else {
        let init = samples.drop_last();
        let v = samples.last();
        assert(sum_of(samples) == sum_of(init) + v);
        assert(nonzero_count(samples) == nonzero_count(init) + if v > 0 {
            1nat
        } else {
            0
        });
        lemma_sum_of_nonneg(init);
        lemma_steady_samples_one_bucket(init);
        let before = buckets_of(init);
        assert(before.last() == Node { counter: nonzero_count(init) as u32, sum: sum_of(init) as u32 });
        crate::avg::lemma_add_joins_last_bucket(before, v as nat);
        if v > 0 {
            assert(before.update(0, Node {
                counter: (nonzero_count(init) + 1) as u32,
                sum: (sum_of(init) + v) as u32,
            }) =~= seq![
                Node { counter: nonzero_count(samples) as u32, sum: sum_of(samples) as u32 },
            ]);
        } else {
            assert(buckets_of(samples) == before);
        }
    }
}

/// The largest sample is one of the samples and no sample exceeds it.
pub proof fn lemma_max_of(samples: Seq<u64>)
    ensures
        forall|i: int| 0 <= i < samples.len() ==> samples[i] <= max_of(samples),
        samples.len() > 0 ==> samples.contains(max_of(samples)),
    decreases samples.len(),
{
    if samples.len() > 0 {
        let rest = samples.drop_last();
        lemma_max_of(rest);
        assert forall|i: int| 0 <= i < samples.len() implies samples[i] <= max_of(samples) by {
            if i < rest.len() {
                assert(rest[i] == samples[i]);
            }
        }
        if rest.len() > 0 && max_of(samples) == max_of(rest) {
            let j = choose|j: int| 0 <= j < rest.len() && rest[j] == max_of(rest);
            assert(samples[j] == max_of(samples));
        } else {
            assert(samples[samples.len() - 1] == max_of(samples));
        }
    }
}

/// The smallest sample is one of the samples and no sample is below it.
pub proof fn lemma_min_of(samples: Seq<u64>)
    ensures
        forall|i: int| 0 <= i < samples.len() ==> min_of(samples) <= samples[i],
        samples.len() > 0 ==> samples.contains(min_of(samples)),
    decreases samples.len(),
{
    if samples.len() > 0 {
        let rest = samples.drop_last();
        lemma_min_of(rest);
        assert forall|i: int| 0 <= i < samples.len() implies min_of(samples) <= samples[i] by {
            if i < rest.len() {
                assert(rest[i] == samples[i]);
            }
        }
        if rest.len() > 0 && min_of(samples) == min_of(rest) {
            let j = choose|j: int| 0 <= j < rest.len() && rest[j] == min_of(rest);
            assert(samples[j] == min_of(samples));
        } else {
            assert(samples[samples.len() - 1] == min_of(samples));
        }
    }
}

/// The running average holds, over all its buckets, exactly the sum of the
/// samples, and always has a bucket to add to.
pub proof fn lemma_buckets_hold_sum(samples: Seq<u64>)
    ensures
        buckets_of(samples).len() > 0,
        total_sum(buckets_of(samples)) == sum_of(samples),
    decreases samples.len(),
{
    if samples.len() > 0 {
        lemma_buckets_hold_sum(samples.drop_last());
        crate::avg::lemma_add_value_total_sum(
            buckets_of(samples.drop_last()),
            samples.last() as nat,
        );
        crate::avg::lemma_add_value_keeps_buckets(
            buckets_of(samples.drop_last()),
            samples.last() as nat,
        );
    } else {
        assert(total_sum(seq![Node { counter: 0, sum: 0 }]) == 0) by {
            assert(seq![Node { counter: 0, sum: 0 }].drop_last() =~= Seq::<Node>::empty());
            assert(total_sum(Seq::<Node>::empty()) == 0);
        }
    }
}

} // verus!
