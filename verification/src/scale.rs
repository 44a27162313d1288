use vstd::prelude::*;

verus! {

/// The geometry of a decoded frame as it leaves the decoder: pixel format
/// identifier, width and height.  It may change from frame to frame.
#[derive(Clone, Copy, Debug, PartialEq, Eq, Structural)]
pub struct SrcGeometry {
    pub format: i32,
    pub width: u32,
    pub height: u32,
}

/// The fixed output raster geometry of the run.  Its pixel format is always
/// the planar 4:2:0 layout, which requires both axes to be even.
#[derive(Clone, Copy, Debug, PartialEq, Eq, Structural)]
pub struct OutGeometry {
    pub width: u32,
    pub height: u32,
}

impl OutGeometry {
    pub open spec fn wf(self) -> bool {
        &&& self.width % 2 == 0
        &&& self.height % 2 == 0
    }
}

/// `n` rounded up to the next even number.
pub open spec fn padded(n: int) -> int {
    n + n % 2
}

/// Rounds a dimension up to even, as the 4:2:0 chroma layout requires.
pub fn pad_even(n: u32) -> (r: u32)
    requires
        n < u32::MAX,
    ensures
        r == padded(n as int),
        r % 2 == 0,
        n <= r <= n + 1,
{
    n + n % 2
}

/// The scale stage's cached resampling plan, keyed by the source geometry it
/// was built for, together with the run's fixed output geometry.  The plan
/// is rebuilt exactly when a frame arrives whose geometry differs from the
/// cached key; the output geometry never changes after the first frame.
#[derive(Clone, Copy, Debug, PartialEq, Eq, Structural)]
pub struct ScalerState {
    pub cached: SrcGeometry,
    pub out: OutGeometry,
}

impl ScalerState {
    pub open spec fn wf(self) -> bool {
        self.out.wf()
    }

    /// Fixes the output geometry of the whole run from the first decoded
    /// frame: each axis padded up to even, held constant afterwards.
    pub fn configure(first: SrcGeometry) -> (s: ScalerState)
        requires
            first.width < u32::MAX,
            first.height < u32::MAX,
        ensures
            s.cached == first,
            s.out.width == padded(first.width as int),
            s.out.height == padded(first.height as int),
            s.wf(),
    {
        ScalerState {
            cached: first,
            out: OutGeometry { width: pad_even(first.width), height: pad_even(first.height) },
        }
    }

    /// Decides whether the resampling plan must be rebuilt for an incoming
    /// frame: exactly when the frame's geometry differs from the cached
    /// key.  The key is updated; the output geometry is untouched.
    pub fn prepare(&mut self, src: SrcGeometry) -> (rebuild: bool)
        ensures
            rebuild == (old(self).cached != src),
            final(self).cached == src,
            final(self).out == old(self).out,
    {
        let rebuild: bool = !(self.cached == src);
        self.cached = src;
        rebuild
    }
}

} // verus!
