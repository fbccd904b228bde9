//! The background sampler's consumer-side core.
//!
//! A dedicated thread samples a pull-based source at a fixed rate and
//! sends each (possibly absent) result over a channel; that part of the
//! design lives outside the verified core, which owns the state the
//! consumer sees.  The core absorbs every message that has arrived since
//! the last poll and keeps only the freshest value: last write wins, and
//! bursts never queue up.

use vstd::prelude::*;

verus! {

/// What a poll returns after absorbing `batch` on top of `prior`: the
/// payload of the batch's last present message, or else the prior value.
pub open spec fn latest_after<T>(prior: Option<T>, batch: Seq<Option<T>>) -> Option<T>
    decreases batch.len(),
{
    if batch.len() == 0 {
        prior
    } else if batch.last() is Some {
        batch.last()
    } else {
        latest_after(prior, batch.drop_last())
    }
}

/// The consumer-side state of a background sampler: the most recent
/// present value that any sampling tick has produced.
pub struct ParSampler<T> {
    pub state: Option<T>,
}

impl<T: Copy> ParSampler<T> {
    /// A sampler that has not yet seen any value.
    pub fn new() -> (s: ParSampler<T>)
        ensures
            s.state is None,
    {
        ParSampler { state: None }
    }

    /// Absorbs, in arrival order, every message the sampling thread has
    /// queued since the last poll: each present message overwrites the
    /// state, each absent one is discarded, so the freshest value wins.
    pub fn absorb(&mut self, batch: Vec<Option<T>>)
        ensures
            final(self).state == latest_after(old(self).state, batch@),
    {
        let n = batch.len();
        let mut k: usize = 0;
        while k < n
            invariant
                n == batch@.len(),
                k <= n,
                self.state == latest_after(old(self).state, batch@.take(k as int)),
            decreases n - k,
        {
            proof {
                assert(batch@.take(k + 1).last() == batch@[k as int]);
                assert(batch@.take(k + 1).drop_last() =~= batch@.take(k as int));
            }
            match batch[k] {
                Some(v) => {
                    self.state = Some(v);
                },
                None => {},
            }
            k += 1;
        }
        proof {
            assert(batch@.take(n as int) =~= batch@);
        }
    }

    /// The most recent value, without blocking; `None` only if no value
    /// has ever arrived.
    pub fn poll(&self) -> (r: Option<T>)
        ensures
            r == self.state,
    {
        self.state
    }
}

/// Last write wins: when a burst of present values arrives between two
/// polls, absorbing the burst leaves exactly the last of them, whatever
/// the sampler held before.
pub proof fn lemma_last_write_wins<T>(prior: Option<T>, batch: Seq<Option<T>>)
    requires
        batch.len() > 0,
        batch.last() is Some,
    ensures
        latest_after(prior, batch) == batch.last(),
{
}

/// An absent tick never erases a value: absorbing a batch with no present
/// message keeps the prior state.
pub proof fn lemma_absent_keeps_prior<T>(prior: Option<T>, batch: Seq<Option<T>>)
    requires
        forall|i: int| 0 <= i < batch.len() ==> (#[trigger] batch[i]) is None,
    ensures
        latest_after(prior, batch) == prior,
    decreases batch.len(),
{
    if batch.len() > 0 {
        lemma_absent_keeps_prior(prior, batch.drop_last());
    }
}

} // verus!
