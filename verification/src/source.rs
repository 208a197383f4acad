//! The sample source: a pluggable producer of the next sample, the demo's
//! uniform-random implementation of it, and the one-step policy that seeds
//! or slides the series window from whatever source is plugged in.

use vstd::prelude::*;
use crate::series::{append_step, SeriesBuffer};
use crate::{SCALE, WINDOW};

verus! {

/// Relies on `rand::rng` and `rand::Rng::random_range`: a draw from a
/// nonempty inclusive range lies within the range; nothing more can be
/// promised of a random value.
#[verifier::external_body]
fn random_in(lo: i64, hi: i64) -> (r: i64)
    requires
        lo <= hi,
    ensures
        lo <= r <= hi,
{
    rand::Rng::random_range(&mut rand::rng(), lo..=hi)
}

/// A pluggable producer of samples in the demo's value range. The window
/// policy in `advance_from` is driven through this trait, so a
/// deterministic or scripted source replaces the random one without
/// touching the series buffer or anything downstream.
pub trait SampleSource {
    /// The next sample, in `[0, SCALE]`.
    fn next_sample(&mut self) -> (r: i64)
        ensures
            0 <= r <= SCALE,
    ;
}

/// The demo's source: uniform random samples over the whole value range.
pub struct RandomSource;

impl SampleSource for RandomSource {
    fn next_sample(&mut self) -> (r: i64)
        ensures
            0 <= r <= SCALE,
    {
        random_in(0, SCALE)
    }
}

/// Advance the series by one user action, drawing from `source`: seed a
/// full window of samples when the series is empty, otherwise append one
/// sample, evicting the oldest once the window is full. Every drawn
/// sample lies in `[0, SCALE]`.
pub fn advance_from<S: SampleSource>(source: &mut S, buf: &mut SeriesBuffer)
    requires
        old(buf).wf(),
    ensures
        final(buf).wf(),
        old(buf)@.len() == 0 ==> final(buf)@.len() == WINDOW && (forall|i: int|
            0 <= i < WINDOW ==> 0 <= #[trigger] final(buf)@[i] <= SCALE),
        old(buf)@.len() != 0 ==> exists|v: i64|
            0 <= v <= SCALE && final(buf)@ == append_step(old(buf)@, v),
{
    if buf.len() == 0 {
        let mut i: usize = 0;
        while i < WINDOW
            invariant
                buf.wf(),
                i <= WINDOW,
                buf@.len() == i,
                forall|j: int| 0 <= j < i ==> 0 <= #[trigger] buf@[j] <= SCALE,
            decreases WINDOW - i,
        {
            buf.append(source.next_sample());
            i += 1;
        }
    } else {
        let v = source.next_sample();
        buf.append(v);
        proof {
            assert(0 <= v <= SCALE && buf@ == append_step(old(buf)@, v));
        }
    }
}

/// `advance_from` with the demo's random source.
pub fn advance(buf: &mut SeriesBuffer)
    requires
        old(buf).wf(),
    ensures
        final(buf).wf(),
        old(buf)@.len() == 0 ==> final(buf)@.len() == WINDOW && (forall|i: int|
            0 <= i < WINDOW ==> 0 <= #[trigger] final(buf)@[i] <= SCALE),
        old(buf)@.len() != 0 ==> exists|v: i64|
            0 <= v <= SCALE && final(buf)@ == append_step(old(buf)@, v),
{
    let mut source = RandomSource;
    advance_from(&mut source, buf);
}

} // verus!
