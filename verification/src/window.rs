//! The moving-average throughput window: a fixed-capacity queue of the
//! most recent per-interval throughput samples plus a running sum, so the
//! smoothed throughput figure is the arithmetic mean (to the floor) of at
//! most the last twenty samples, the oldest being evicted once a new sample
//! would grow the window past its capacity.

use vstd::prelude::*;

verus! {

/// How many interval throughput samples the moving average looks back over.
pub const WINDOW_CAPACITY: usize = 20;

/// Sum of a sequence of samples.
pub open spec fn sum_of(s: Seq<u64>) -> int
    decreases s.len(),
{
    if s.len() == 0 {
        0
    } else {
        sum_of(s.drop_last()) + s.last()
    }
}

/// The suffix of the sample history that the window retains: the last
/// `WINDOW_CAPACITY` samples, or all of them while there are fewer.
pub open spec fn retained(history: Seq<u64>) -> Seq<u64> {
    if history.len() <= WINDOW_CAPACITY {
        history
    } else {
        history.skip(history.len() - WINDOW_CAPACITY)
    }
}

proof fn lemma_sum_of_push(s: Seq<u64>, x: u64)
    ensures
        sum_of(s.push(x)) == sum_of(s) + x,
{
    assert(s.push(x).drop_last() =~= s);
    assert(s.push(x).last() == x);
}

proof fn lemma_sum_of_drop_first(s: Seq<u64>)
    requires
        s.len() > 0,
    ensures
        sum_of(s) == s[0] + sum_of(s.drop_first()),
    decreases s.len(),
{
    if s.len() == 1 {
        assert(s.drop_last() =~= Seq::<u64>::empty());
        assert(s.drop_first() =~= Seq::<u64>::empty());
    } else {
        lemma_sum_of_drop_first(s.drop_last());
        assert(s.drop_last().drop_first() =~= s.drop_first().drop_last());
        assert(s.drop_first().last() == s.last());
        assert(s.drop_last()[0] == s[0]);
    }
}

proof fn lemma_sum_of_nonneg(s: Seq<u64>)
    ensures
        sum_of(s) >= 0,
    decreases s.len(),
{
    if s.len() > 0 {
        lemma_sum_of_nonneg(s.drop_last());
    }
}

/// Fixed-capacity window of recent throughput samples with a running sum.
pub struct MovingAverageWindow {
    samples: Vec<u64>,
    sum: u64,
    history: Ghost<Seq<u64>>,
}

impl MovingAverageWindow {
    /// Every sample ever offered to the window, oldest first.
    pub closed spec fn history(&self) -> Seq<u64> {
        self.history@
    }

    /// The samples the window currently retains, oldest first.
    pub closed spec fn samples(&self) -> Seq<u64> {
        self.samples@
    }

    /// The window retains exactly the most recent samples of its history
    /// and its running sum is their sum.
    pub closed spec fn wf(&self) -> bool {
        &&& self.samples@ == retained(self.history@)
        &&& self.sum as int == sum_of(self.samples@)
    }

    /// An empty window.
    pub fn new() -> (w: MovingAverageWindow)
        ensures
            w.wf(),
            w.history() == Seq::<u64>::empty(),
            w.samples() == Seq::<u64>::empty(),
    {
        let w = MovingAverageWindow { samples: Vec::new(), sum: 0, history: Ghost(Seq::empty()) };
        proof {
            assert(retained(Seq::<u64>::empty()) =~= Seq::<u64>::empty());
        }
        w
    }

    /// Appends one interval's throughput sample, evicting the oldest
    /// retained sample first if the window is full, and keeping the running
    /// sum equal to the sum of the retained samples.
    pub fn push(&mut self, sample: u64)
        requires
            old(self).wf(),
            sum_of(old(self).samples()) + sample <= u64::MAX,
        ensures
            final(self).wf(),
            final(self).history() == old(self).history().push(sample),
            final(self).samples() == retained(old(self).history().push(sample)),
    {
        proof {
            lemma_sum_of_nonneg(self.samples@);
        }
        let ghost pre_samples = self.samples@;
        let ghost pre_history = self.history@;
        self.samples.push(sample);
        self.sum = self.sum + sample;
        proof {
            self.history@ = pre_history.push(sample);
            lemma_sum_of_push(pre_samples, sample);
        }
        if self.samples.len() > WINDOW_CAPACITY {
            let ghost pushed = self.samples@;
            let evicted = self.samples.remove(0);
            proof {
                assert(self.samples@ =~= pushed.drop_first());
                lemma_sum_of_drop_first(pushed);
                lemma_sum_of_nonneg(pushed.drop_first());
            }
            self.sum = self.sum - evicted;
        }
        proof {
            let h = pre_history.push(sample);
            if pre_samples.len() < WINDOW_CAPACITY {
                assert(pre_history.len() <= WINDOW_CAPACITY || pre_samples.len()
                    == WINDOW_CAPACITY);
                assert(self.samples@ =~= retained(h));
            } else {
                assert(pre_samples.len() == WINDOW_CAPACITY);
                assert(pre_history.len() >= WINDOW_CAPACITY);
                assert forall|i: int| 0 <= i < WINDOW_CAPACITY implies self.samples@[i] == retained(
                    h,
                )[i] by {
                    if i < WINDOW_CAPACITY - 1 {
                        assert(self.samples@[i] == pre_samples[i + 1]);
                        assert(pre_samples[i + 1] == pre_history[pre_history.len()
                            - WINDOW_CAPACITY + i + 1]);
                        assert(retained(h)[i] == h[h.len() - WINDOW_CAPACITY + i]);
                        assert(h[h.len() - WINDOW_CAPACITY + i] == pre_history[pre_history.len()
                            - WINDOW_CAPACITY + i + 1]);
                    } else {
                        assert(self.samples@[i] == sample);
                        assert(retained(h)[i] == h[h.len() - 1]);
                    }
                }
                assert(self.samples@ =~= retained(h));
            }
        }
    }

    /// The smoothed throughput figure: the arithmetic mean, to the floor,
    /// of the retained samples — zero while no sample has arrived.
    pub fn average(&self) -> (r: u64)
        requires
            self.wf(),
        ensures
            self.samples().len() == 0 ==> r == 0,
            self.samples().len() > 0 ==> r as int == sum_of(self.samples()) / (
            self.samples().len() as int),
    {
        proof {
            lemma_sum_of_nonneg(self.samples@);
        }
        let len = self.samples.len();
        if len == 0 {
            0
        } else {
            self.sum / (len as u64)
        }
    }

    /// How many samples the window currently retains.
    pub fn len(&self) -> (n: usize)
        ensures
            n == self.samples().len(),
    {
        self.samples.len()
    }

    /// The running sum of the retained samples.
    pub fn sum(&self) -> (s: u64)
        requires
            self.wf(),
        ensures
            s as int == sum_of(self.samples()),
    {
        self.sum
    }
}

} // verus!
