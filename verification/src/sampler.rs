//! The sampling schedule and the running bounds of a trace.
//!
//! A trace is sampled at the time steps `1, 2, .., sample_count - 1`: the
//! count is the exclusive end of the range, and no sample is taken at time
//! step 0. Where the tip of the rotating vectors lies at a time step is for
//! the caller to work out. The [`Sampler`] says which time step is due, takes
//! the position found for it, and keeps the samples in time order together
//! with the smallest box around them.

use vstd::prelude::*;
use crate::geometry::{bounds_of, empty_box, is_tight_box, lemma_bounds_are_tight, lemma_bounds_of_one_place, BoundingBox, Point};

verus! {

/// The exclusive end of the time steps of a run that is not told otherwise.
pub const SAMPLE_COUNT: u32 = 10000;

/// The time step that is due once `taken` samples have been recorded out of
/// a schedule that ends before `sample_count`, if any is.
pub open spec fn due_time(sample_count: nat, taken: nat) -> Option<nat> {
    if taken + 1 < sample_count {
        Some(taken + 1)
    } else {
        None
    }
}

/// The number of samples in a finished trace: one for each time step from 1
/// up to, but not including, `sample_count`.
pub open spec fn samples_in_trace(sample_count: nat) -> nat {
    if sample_count == 0 {
        0
    } else {
        (sample_count - 1) as nat
    }
}

/// The state of a sampling run: the samples recorded so far, in time order,
/// and the box around them.
pub struct Sampler {
    sample_count: u32,
    pixels: Vec<Point>,
    bounds: BoundingBox,
}

impl Sampler {
    /// The exclusive end of the time steps of this run.
    pub closed spec fn sample_count(&self) -> nat {
        self.sample_count as nat
    }

    /// The samples recorded so far: the one of time step `t` at index `t - 1`.
    pub closed spec fn samples(&self) -> Seq<Point> {
        self.pixels@
    }

    /// The box kept beside the samples.
    pub closed spec fn bounds(&self) -> BoundingBox {
        self.bounds
    }

    /// The run has not recorded more samples than its schedule holds, and its
    /// box is the one folded from its samples.
    pub closed spec fn wf(&self) -> bool {
        &&& self.pixels@.len() <= samples_in_trace(self.sample_count as nat)
        &&& self.bounds == bounds_of(self.pixels@)
    }

    /// The time step whose sample the run waits for, if it is not finished.
    pub open spec fn due(&self) -> Option<nat> {
        due_time(self.sample_count(), self.samples().len())
    }

    /// A run with no sample recorded yet.
    pub fn new(sample_count: u32) -> (sampler: Sampler)
        ensures
            sampler.wf(),
            sampler.sample_count() == sample_count,
            sampler.samples() == Seq::<Point>::empty(),
            sampler.bounds() == empty_box(),
    {
        Sampler { sample_count, pixels: Vec::new(), bounds: BoundingBox::empty() }
    }

    /// The time step to evaluate next, or `None` once the sample of every time
    /// step below the sample count has been recorded.
    pub fn next_time(&self) -> (time: Option<u32>)
        requires
            self.wf(),
        ensures
            match time {
                Some(t) => self.due() == Some(t as nat),
                None => self.due() is None && self.samples().len() == samples_in_trace(
                    self.sample_count(),
                ),
            },
    {
        let taken = self.pixels.len();
        if self.sample_count >= 2 && taken < (self.sample_count - 1) as usize {
            Some((taken + 1) as u32)
        } else {
            None
        }
    }

    /// Records the position found for the time step that is due: it becomes
    /// the last sample, and the box grows to hold it.
    pub fn record(&mut self, sampled_point: Point)
        requires
            old(self).wf(),
            old(self).due() is Some,
        ensures
            final(self).wf(),
            final(self).sample_count() == old(self).sample_count(),
            final(self).samples() == old(self).samples().push(sampled_point),
            final(self).bounds() == old(self).bounds().stretched_to(sampled_point),
    {
        proof {
            assert(self.pixels@.push(sampled_point).drop_last() =~= self.pixels@);
        }
        self.bounds = self.bounds.stretch_to(sampled_point);
        self.pixels.push(sampled_point);
    }

    /// Ends the run and hands out its samples with the smallest box around
    /// them. Every sample lies inside that box; of a finished run there are
    /// `sample_count - 1` samples, or none where the count is 0.
    pub fn finish(self) -> (trace: (Vec<Point>, BoundingBox))
        requires
            self.wf(),
        ensures
            trace.0@ == self.samples(),
            trace.1 == bounds_of(self.samples()),
            is_tight_box(trace.1, trace.0@),
            forall|i: int| 0 <= i < trace.0.len() ==> trace.1.contains(#[trigger] trace.0[i]),
            self.due() is None ==> trace.0.len() == samples_in_trace(self.sample_count()),
    {
        proof {
            lemma_bounds_are_tight(self.pixels@);
        }
        (self.pixels, self.bounds)
    }

    /// The box that a well-formed run keeps is the one folded from its
    /// samples, so it is the smallest box around them.
    pub proof fn lemma_bounds_follow_samples(self)
        requires
            self.wf(),
        ensures
            self.bounds() == bounds_of(self.samples()),
            is_tight_box(self.bounds(), self.samples()),
            self.samples().len() <= samples_in_trace(self.sample_count()),
    {
        lemma_bounds_are_tight(self.samples());
    }

    /// Two runs that were handed the same positions in the same order hold
    /// the same samples, the same box, and wait for the same time step.
    pub proof fn lemma_same_samples_same_trace(self, other: Sampler)
        requires
            self.wf(),
            other.wf(),
            self.sample_count() == other.sample_count(),
            self.samples() == other.samples(),
        ensures
            self.bounds() == other.bounds(),
            self.due() == other.due(),
    {
    }

    /// A finished run whose samples all lie at one place, and which has at
    /// least one, ends with a box collapsed to that place.
    pub proof fn lemma_still_trace(self, place: Point)
        requires
            self.wf(),
            self.due() is None,
            self.sample_count() > 1,
            forall|i: int| 0 <= i < self.samples().len() ==> #[trigger] self.samples()[i] == place,
        ensures
            self.samples().len() == self.sample_count() - 1,
            self.bounds() == (BoundingBox { min: place, max: place }),
    {
        lemma_bounds_of_one_place(self.samples(), place);
    }
}

/// Samples a trace: asks `tip_at` for the position at each time step from 1
/// up to, but not including, `sample_count`, in that order, and keeps the
/// positions with the smallest box around them.
pub fn sample_epicycles_in_time<F: Fn(u32) -> Point>(sample_count: u32, tip_at: F) -> (trace: (
    Vec<Point>,
    BoundingBox,
))
    requires
        forall|time: u32| 1 <= time < sample_count ==> call_requires(tip_at, (time,)),
    ensures
        trace.0.len() == samples_in_trace(sample_count as nat),
        forall|i: int|
            0 <= i < trace.0.len() ==> call_ensures(tip_at, ((i + 1) as u32,), #[trigger] trace.0[i]),
        trace.1 == bounds_of(trace.0@),
        is_tight_box(trace.1, trace.0@),
        forall|i: int| 0 <= i < trace.0.len() ==> trace.1.contains(#[trigger] trace.0[i]),
{
    let mut sampler = Sampler::new(sample_count);
    loop
        invariant
            sampler.wf(),
            sampler.sample_count() == sample_count,
            forall|time: u32| 1 <= time < sample_count ==> call_requires(tip_at, (time,)),
            forall|i: int|
                0 <= i < sampler.samples().len() ==> call_ensures(
                    tip_at,
                    ((i + 1) as u32,),
                    #[trigger] sampler.samples()[i],
                ),
        ensures
            sampler.due() is None,
        decreases sample_count - sampler.samples().len(),
    {
        match sampler.next_time() {
            Some(time) => {
                let sampled_point = tip_at(time);
                sampler.record(sampled_point);
            },
            None => {
                break ;
            },
        }
    }
    sampler.finish()
}

} // verus!
