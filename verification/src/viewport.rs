//! The viewport: which region of data space the canvas shows, and how finely
//! an equation is sampled across it.
//!
//! The numbers are values of the host's type `N`. The library stores and
//! replaces them and never computes with them.

use vstd::prelude::*;

verus! {

/// The number of samples across the canvas that a new viewport starts with.
pub const DEFAULT_RESOLUTION: u32 = 1000;

/// A pair of coordinates, in data space or on the screen.
#[derive(Debug, Clone, Copy)]
pub struct Point<N> {
    pub x: N,
    pub y: N,
}

/// Scale, centre and resolution.
#[derive(Debug)]
pub struct Viewport<N> {
    /// Screen units per data unit.
    pub scale: N,
    /// The data point shown at the centre of the canvas.
    pub mid: Point<N>,
    /// The number of samples taken across the canvas.
    pub resolution: u32,
}

impl<N> Viewport<N> {
    /// A viewport takes at least two samples.
    pub open spec fn wf(&self) -> bool {
        self.resolution >= 2
    }

    /// What `zoom` leaves behind.
    pub open spec fn zoomed(self, new_scale: N, new_mid: Option<Point<N>>) -> Self {
        Viewport {
            scale: new_scale,
            mid: match new_mid {
                Some(mid) => mid,
                None => self.mid,
            },
            resolution: self.resolution,
        }
    }

    /// What `pan` leaves behind.
    pub open spec fn panned(self, new_mid: Point<N>) -> Self {
        Viewport { scale: self.scale, mid: new_mid, resolution: self.resolution }
    }

    /// A viewport of the given scale, centre and resolution, unless the
    /// resolution is below two.
    pub fn new(scale: N, mid: Point<N>, resolution: u32) -> (viewport: Option<Self>)
        ensures
            viewport == if resolution >= 2 {
                Some(Viewport { scale, mid, resolution })
            } else {
                None
            },
    {
        if resolution >= 2 {
            Some(Viewport { scale, mid, resolution })
        } else {
            None
        }
    }

    /// Takes a new scale and, where one is given, a new centre.
    pub fn zoom(&mut self, new_scale: N, new_mid: Option<Point<N>>)
        ensures
            *final(self) == old(self).zoomed(new_scale, new_mid),
    {
        self.scale = new_scale;
        if let Some(mid) = new_mid {
            self.mid = mid;
        }
    }

    /// Moves the centre to `new_mid`.
    pub fn pan(&mut self, new_mid: Point<N>)
        ensures
            *final(self) == old(self).panned(new_mid),
    {
        self.mid = new_mid;
    }
}

} // verus!
