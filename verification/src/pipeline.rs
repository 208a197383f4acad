//! The orchestrator: render a snapshot by composing rasterization, PNG
//! encoding and data-URI packaging, and keep one cached chart per slot that
//! is never allowed to go stale.
//!
//! A slot tags the snapshot it was asked to render; a completion for any
//! other snapshot is discarded, so the last requested snapshot wins no
//! matter in which order completions arrive.

use vstd::prelude::*;
use crate::codec::{b64_of, data_uri_spec, encode, package, png_of};
use crate::raster::{canvas_spec, rasterize};
use crate::series::SeriesBuffer;
use crate::WINDOW;

verus! {

/// The packaged chart of a series snapshot on a `w` by `h` canvas: the
/// composition of rasterizing, PNG encoding and data-URI packaging. A
/// function of the snapshot and the dimensions alone.
pub open spec fn rendered_spec(s: Seq<i64>, w: u32, h: u32) -> Seq<char> {
    data_uri_spec("image/png"@, b64_of(png_of(canvas_spec(s, w as int, h as int), w, h)))
}

/// Rendering is deterministic: any two renders of one snapshot at one
/// canvas size are identical, character for character.
pub proof fn lemma_render_deterministic(
    s: Seq<i64>,
    w: u32,
    h: u32,
    r1: Seq<char>,
    r2: Seq<char>,
)
    requires
        r1 == rendered_spec(s, w, h),
        r2 == rendered_spec(s, w, h),
    ensures
        r1 == r2,
{
}

/// Render the chart of a series snapshot. Fails, returning `None`, exactly
/// when the PNG bytes are too large for base64 encoding in this address
/// space — so whether a render succeeds, like what it produces, is a
/// function of the snapshot and the dimensions alone.
pub fn render(series: &SeriesBuffer, width: u32, height: u32) -> (r: Option<String>)
    requires
        series.wf(),
        width >= 1,
        height >= 1,
        3 * (width as int) * (height as int) <= u32::MAX as int,
    ensures
        r matches Some(u) ==> u@ == rendered_spec(series@, width, height),
        r is None <==> 4 * png_of(
            canvas_spec(series@, width as int, height as int),
            width,
            height,
        ).len() > usize::MAX,
{
    let canvas = rasterize(series, width, height);
    let bytes = match encode(&canvas) {
        Ok(b) => b,
        Err(_) => {
            proof {
                assert(false);
            }
            vstd::pervasive::unreached()
        },
    };
    if bytes.len() > usize::MAX / 4 {
        proof {
            vstd::arithmetic::div_mod::lemma_fundamental_div_mod(usize::MAX as int, 4);
        }
        return None;
    }
    proof {
        vstd::arithmetic::div_mod::lemma_fundamental_div_mod(usize::MAX as int, 4);
    }
    Some(package(&bytes, "image/png"))
}

/// The outcome of handing a completed render back to a slot.
#[derive(Clone, Copy, Debug, PartialEq, Eq)]
pub enum RenderOutcome {
    /// The completion matched the latest requested snapshot; the cache now
    /// holds its chart.
    Completed,
    /// The completion was for a superseded snapshot; it was discarded and
    /// the slot is unchanged.
    StaleDiscarded,
    /// The render itself failed (oversized payload); the slot is unchanged.
    Failed,
}

/// What a slot shows to its consumer.
#[derive(Clone, Copy, Debug, PartialEq, Eq)]
pub enum SlotState {
    /// Nothing requested yet.
    Idle,
    /// The latest requested snapshot has no completed chart yet; a consumer
    /// shows a placeholder.
    Computing,
    /// The cache holds the chart of the latest requested snapshot.
    Ready,
}

/// The abstract state of a chart slot.
pub struct SlotModel {
    pub width: u32,
    pub height: u32,
    pub latest: Option<Seq<i64>>,
    pub cached: Option<(Seq<i64>, Seq<char>)>,
}

/// Requesting a render records the snapshot as the latest one.
pub open spec fn request_step(m: SlotModel, s: Seq<i64>) -> SlotModel {
    SlotModel { latest: Some(s), ..m }
}

/// Completing a render caches its chart only if its snapshot is still the
/// latest; a completion for a superseded snapshot changes nothing.
pub open spec fn finish_step(m: SlotModel, s: Seq<i64>) -> SlotModel {
    if m.latest == Some(s) {
        SlotModel { cached: Some((s, rendered_spec(s, m.width, m.height))), ..m }
    } else {
        m
    }
}

/// The state a slot model is in.
pub open spec fn state_spec(m: SlotModel) -> SlotState {
    match m.latest {
        None => SlotState::Idle,
        Some(s) => if m.cached matches Some(p) && p.0 == s {
            SlotState::Ready
        } else {
            SlotState::Computing
        },
    }
}

/// Last snapshot wins: after requests for `s1` then `s2`, whichever order
/// the two completions arrive in, the cache holds the chart of `s2`,
/// never the one of `s1`.
pub proof fn lemma_last_snapshot_wins(m0: SlotModel, s1: Seq<i64>, s2: Seq<i64>)
    requires
        s1 != s2,
    ensures
        ({
            let m = request_step(request_step(m0, s1), s2);
            &&& finish_step(finish_step(m, s2), s1) == finish_step(m, s2)
            &&& finish_step(finish_step(m, s2), s1).cached == Some(
                (s2, rendered_spec(s2, m0.width, m0.height)),
            )
            &&& finish_step(finish_step(m, s1), s2).cached == Some(
                (s2, rendered_spec(s2, m0.width, m0.height)),
            )
        }),
{
}

/// Two `i64` vectors hold the same sequence.
fn vec_eq(a: &Vec<i64>, b: &Vec<i64>) -> (r: bool)
    ensures
        r == (a@ == b@),
{
    if a.len() != b.len() {
        return false;
    }
    let mut i: usize = 0;
    while i < a.len()
        invariant
            i <= a@.len(),
            a@.len() == b@.len(),
            forall|j: int| 0 <= j < i ==> a@[j] == b@[j],
        decreases a@.len() - i,
    {
        if a[i] != b[i] {
            return false;
        }
        i += 1;
    }
    proof {
        assert(a@ =~= b@);
    }
    true
}

/// Copy a snapshot.
fn vec_copy(a: &Vec<i64>) -> (r: Vec<i64>)
    ensures
        r@ == a@,
{
    let mut out: Vec<i64> = Vec::new();
    let mut i: usize = 0;
    while i < a.len()
        invariant
            i <= a@.len(),
            out@ == a@.subrange(0, i as int),
        decreases a@.len() - i,
    {
        out.push(a[i]);
        i += 1;
        proof {
            assert(out@ =~= a@.subrange(0, i as int));
        }
    }
    proof {
        assert(out@ =~= a@);
    }
    out
}

/// One chart slot: the latest requested snapshot, and at most one cached
/// chart, which is always the chart of the snapshot stored beside it.
pub struct ChartSlot {
    width: u32,
    height: u32,
    latest: Option<Vec<i64>>,
    cached: Option<(Vec<i64>, String)>,
}

impl View for ChartSlot {
    type V = SlotModel;

    closed spec fn view(&self) -> SlotModel {
        SlotModel {
            width: self.width,
            height: self.height,
            latest: match self.latest {
                Some(v) => Some(v@),
                None => None,
            },
            cached: match self.cached {
                Some(p) => Some((p.0@, p.1@)),
                None => None,
            },
        }
    }
}

impl ChartSlot {
    /// Valid dimensions, a bounded latest snapshot, and a cache that is
    /// never stale: a cached chart is the render of its own key.
    pub open spec fn wf(&self) -> bool {
        &&& self@.width >= 1
        &&& self@.height >= 1
        &&& 3 * (self@.width as int) * (self@.height as int) <= u32::MAX as int
        &&& (self@.latest matches Some(s) ==> s.len() <= WINDOW)
        &&& (self@.cached matches Some(p) ==> p.1 == rendered_spec(
            p.0,
            self@.width,
            self@.height,
        ))
    }

    pub fn new(width: u32, height: u32) -> (r: ChartSlot)
        requires
            width >= 1,
            height >= 1,
            3 * (width as int) * (height as int) <= u32::MAX as int,
        ensures
            r.wf(),
            r@.width == width,
            r@.height == height,
            r@.latest is None,
            r@.cached is None,
    {
        ChartSlot { width, height, latest: None, cached: None }
    }

    /// Record a snapshot as the latest render request.
    pub fn request(&mut self, series: &SeriesBuffer)
        requires
            old(self).wf(),
            series.wf(),
        ensures
            final(self).wf(),
            final(self)@ == request_step(old(self)@, series@),
    {
        self.latest = Some(series.snapshot());
    }

    /// Hand a completion for `snapshot` to the slot: render and cache it if
    /// it is still the latest requested snapshot, discard it otherwise. The
    /// outcome is a function of the slot's state and the snapshot: a stale
    /// snapshot is discarded, a current one completes unless its PNG bytes
    /// are too large for base64 encoding in this address space, and a
    /// failed render leaves the slot exactly as it was.
    pub fn finish(&mut self, snapshot: &Vec<i64>) -> (r: RenderOutcome)
        requires
            old(self).wf(),
            snapshot@.len() <= WINDOW,
        ensures
            final(self).wf(),
            old(self)@.latest != Some(snapshot@) ==> r == RenderOutcome::StaleDiscarded
                && final(self)@ == old(self)@,
            old(self)@.latest == Some(snapshot@) ==> ({
                let oversized = 4 * png_of(
                    canvas_spec(snapshot@, old(self)@.width as int, old(self)@.height as int),
                    old(self)@.width,
                    old(self)@.height,
                ).len() > usize::MAX;
                &&& (oversized ==> r == RenderOutcome::Failed && final(self)@ == old(self)@)
                &&& (!oversized ==> r == RenderOutcome::Completed && final(self)@
                    == finish_step(old(self)@, snapshot@))
            }),
    {
        let is_latest = match &self.latest {
            Some(l) => vec_eq(l, snapshot),
            None => false,
        };
        if !is_latest {
            return RenderOutcome::StaleDiscarded;
        }
        let buf = SeriesBuffer::from_snapshot(vec_copy(snapshot));
        match render(&buf, self.width, self.height) {
            Some(chart) => {
                self.cached = Some((vec_copy(snapshot), chart));
                RenderOutcome::Completed
            },
            None => RenderOutcome::Failed,
        }
    }

    /// The cached chart, if any: always the chart of the snapshot it was
    /// rendered from.
    pub fn current(&self) -> (r: Option<&String>)
        requires
            self.wf(),
        ensures
            r matches Some(u) ==> self@.cached matches Some(p) && u@ == p.1 && u@
                == rendered_spec(p.0, self@.width, self@.height),
            r is None <==> self@.cached is None,
    {
        match &self.cached {
            Some(p) => Some(&p.1),
            None => None,
        }
    }

    /// The state the slot is in; a consumer shows a placeholder while it is
    /// `Computing`.
    pub fn state(&self) -> (r: SlotState)
        requires
            self.wf(),
        ensures
            r == state_spec(self@),
    {
        match (&self.latest, &self.cached) {
            (None, _) => SlotState::Idle,
            (Some(l), Some(p)) => {
                if vec_eq(&p.0, l) {
                    SlotState::Ready
                } else {
                    SlotState::Computing
                }
            },
            (Some(_), None) => SlotState::Computing,
        }
    }
}

} // verus!
