//! The bounded sliding-window series: appending past capacity evicts the
//! oldest sample, so the buffer always holds the most recent values in order.

use vstd::prelude::*;
use crate::WINDOW;

verus! {

/// A bounded FIFO window of fixed-point samples. Once `WINDOW` samples are
/// held, each append drops the oldest sample before adding the new one.
pub struct SeriesBuffer {
    samples: Vec<i64>,
}

/// One append on the abstract window: grow while below capacity, otherwise
/// evict the oldest element and then add the new one at the end.
pub open spec fn append_step(s: Seq<i64>, v: i64) -> Seq<i64> {
    if s.len() < WINDOW {
        s.push(v)
    } else {
        s.skip(1).push(v)
    }
}

/// The window left by appending every element of `vs`, in order, to an
/// initially empty series.
pub open spec fn window_of(vs: Seq<i64>) -> Seq<i64>
    decreases vs.len(),
{
    if vs.len() == 0 {
        Seq::empty()
    } else {
        append_step(window_of(vs.drop_last()), vs.last())
    }
}

impl View for SeriesBuffer {
    type V = Seq<i64>;

    closed spec fn view(&self) -> Seq<i64> {
        self.samples@
    }
}

impl SeriesBuffer {
    /// The buffer never holds more than `WINDOW` samples.
    pub open spec fn wf(&self) -> bool {
        self@.len() <= WINDOW
    }

    pub fn new() -> (r: SeriesBuffer)
        ensures
            r.wf(),
            r@ == Seq::<i64>::empty(),
    {
        SeriesBuffer { samples: Vec::new() }
    }

    pub fn len(&self) -> (r: usize)
        ensures
            r == self@.len(),
    {
        self.samples.len()
    }

    /// The sample at index `i`, oldest first.
    pub fn get(&self, i: usize) -> (r: i64)
        requires
            i < self@.len(),
        ensures
            r == self@[i as int],
    {
        self.samples[i]
    }

    /// A snapshot of the samples, oldest first.
    pub fn snapshot(&self) -> (r: Vec<i64>)
        ensures
            r@ == self@,
    {
        let mut out: Vec<i64> = Vec::new();
        let mut i: usize = 0;
        while i < self.samples.len()
            invariant
                i <= self.samples@.len(),
                out@ == self.samples@.subrange(0, i as int),
            decreases self.samples@.len() - i,
        {
            out.push(self.samples[i]);
            i += 1;
            proof {
                assert(out@ =~= self.samples@.subrange(0, i as int));
            }
        }
        proof {
            assert(out@ =~= self.samples@);
        }
        out
    }

    /// Rebuild a buffer from a snapshot of at most `WINDOW` samples.
    pub fn from_snapshot(samples: Vec<i64>) -> (r: SeriesBuffer)
        requires
            samples@.len() <= WINDOW,
        ensures
            r.wf(),
            r@ == samples@,
    {
        SeriesBuffer { samples }
    }

    /// Append one sample, evicting the oldest when the window is full.
    pub fn append(&mut self, v: i64)
        requires
            old(self).wf(),
        ensures
            final(self).wf(),
            final(self)@ == append_step(old(self)@, v),
    {
        if self.samples.len() == WINDOW {
            self.samples.remove(0);
            proof {
                assert(self.samples@ =~= old(self)@.skip(1));
            }
        }
        self.samples.push(v);
    }
}

/// The window invariant: after appending any `vs` to an empty series, the
/// window holds exactly `min(|vs|, WINDOW)` samples, and they are the last
/// that many appended values, in order.
pub proof fn lemma_window_invariant(vs: Seq<i64>)
    ensures
        window_of(vs).len() == if vs.len() <= WINDOW {
            vs.len() as int
        } else {
            WINDOW as int
        },
        window_of(vs) == vs.skip(vs.len() - window_of(vs).len()),
    decreases vs.len(),
{
    if vs.len() == 0 {
        assert(window_of(vs) =~= vs.skip(0));
    } else {
        let prefix = vs.drop_last();
        lemma_window_invariant(prefix);
        let w = window_of(prefix);
        let m = w.len() as int;
        assert(w == prefix.skip(prefix.len() - m));
        if m < WINDOW {
            assert(window_of(vs) =~= vs.skip(vs.len() - (m + 1)));
        } else {
            assert(window_of(vs) =~= vs.skip(vs.len() - m));
        }
    }
}

} // verus!
