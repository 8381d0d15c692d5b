//! Font scales on a grid of sixty-fourths of a pixel.

use vstd::prelude::*;

verus! {

/// Number of scale steps in one pixel.
pub const STEPS_PER_PIXEL: u32 = 64;

/// A strictly positive font size, counted in steps of 1/64 pixel.
///
/// The view of a scale is its number of steps.
#[derive(Clone, Copy, Debug, PartialEq, Eq, Structural)]
pub struct Scale {
    steps: u32,
}

impl View for Scale {
    type V = u32;

    closed spec fn view(&self) -> u32 {
        self.steps
    }
}

/// The scale on the grid that is nearest to `q` steps: `q` itself where it
/// lies between the smallest and the largest scale, else the nearer of the two.
pub open spec fn nearest_steps(q: int) -> u32 {
    if q < 1 {
        1u32
    } else if q > u32::MAX {
        u32::MAX
    } else {
        q as u32
    }
}

impl Scale {
    /// A scale is well formed when it is strictly positive.
    #[verifier::type_invariant]
    pub open spec fn wf(self) -> bool {
        self@ >= 1
    }

    /// The scale of `steps` sixty-fourths of a pixel, if that is positive.
    pub fn from_steps(steps: u32) -> (r: Option<Scale>)
        ensures
            steps == 0 <==> r is None,
            r matches Some(s) ==> s@ == steps && s.wf(),
    {
        if steps == 0 {
            None
        } else {
            Some(Scale { steps })
        }
    }

    /// The scale of `pixels` whole pixels, if that is positive and on the grid.
    pub fn from_pixels(pixels: u32) -> (r: Option<Scale>)
        ensures
            (pixels == 0 || pixels * STEPS_PER_PIXEL > u32::MAX) <==> r is None,
            r matches Some(s) ==> s@ == pixels * STEPS_PER_PIXEL && s.wf(),
    {
        if pixels == 0 || pixels > u32::MAX / STEPS_PER_PIXEL {
            None
        } else {
            Some(Scale { steps: pixels * STEPS_PER_PIXEL })
        }
    }

    /// The scale nearest to a quotient of `q` steps.
    pub fn nearest(q: u128) -> (r: Scale)
        ensures
            r@ == nearest_steps(q as int),
            r.wf(),
    {
        if q < 1 {
            Scale { steps: 1 }
        } else if q > u32::MAX as u128 {
            Scale { steps: u32::MAX }
        } else {
            Scale { steps: q as u32 }
        }
    }

    /// The number of steps of this scale.
    pub fn steps(&self) -> (r: u32)
        ensures
            r == self@,
            r >= 1,
    {
        proof {
            use_type_invariant(self);
        }
        self.steps
    }

    /// The smaller of two scales.
    pub fn min(self, other: Scale) -> (r: Scale)
        ensures
            r@ == if self@ <= other@ { self@ } else { other@ },
            r.wf(),
    {
        proof {
            use_type_invariant(&self);
            use_type_invariant(&other);
        }
        if self.steps <= other.steps {
            self
        } else {
            other
        }
    }
}

} // verus!
