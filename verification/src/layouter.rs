//! The interface of a tiling algorithm.

use vstd::prelude::*;
use crate::types::{GapSize, Geometry, Screen};

verus! {

/// The signed screen coordinate that stands for the unsigned offset `v`.
/// An offset beyond `i32::MAX` wraps around, as the coordinate type does.
pub open spec fn coordinate(v: int) -> i32 {
    if v <= i32::MAX {
        v as i32
    } else {
        (v - 0x1_0000_0000) as i32
    }
}

/// Turns an unsigned offset into a coordinate.
pub fn to_coordinate(v: u32) -> (c: i32)
    ensures
        c == coordinate(v as int),
{
    0i32.wrapping_add_unsigned(v)
}

/// A tiling algorithm: it places tile `i` of `nb_windows` tiles on a screen.
/// The rectangle depends on nothing but the arguments and the layouter's own
/// settings.
pub trait Layouter: Sized {
    /// The rectangle of tile `i` among `n` tiles.
    spec fn geom(&self, i: int, screen: Screen, n: int) -> Geometry;

    /// The layouter that `new` creates.
    spec fn initial() -> Self;

    /// Return the geometry for the window at position `i` on the given
    /// screen and with the given number of windows.
    fn get_geom(&self, i: usize, screen: Screen, nb_windows: usize) -> (g: Geometry)
        requires
            i < nb_windows,
        ensures
            g == self.geom(i as int, screen, nb_windows as int),
    ;

    /// Create a new instance of the layouter.
    fn new() -> (layouter: Self)
        ensures
            layouter == Self::initial(),
    ;
}

/// A layouter that leaves a gap around every tile.
pub trait GapSupport: Sized {
    /// The current gap size.
    spec fn gap(&self) -> GapSize;

    /// The same layouter with another gap size.
    spec fn with_gap(&self, gapsize: GapSize) -> Self;

    /// Setting the gap is what reading it gives back.
    proof fn gap_with_gap(&self, gapsize: GapSize)
        ensures
            self.with_gap(gapsize).gap() == gapsize,
    ;

    /// Return the current gap size.
    fn get_gap(&self) -> (g: GapSize)
        ensures
            g == self.gap(),
    ;

    /// Set the gap size.
    fn set_gap(&mut self, gapsize: GapSize)
        ensures
            *final(self) == old(self).with_gap(gapsize),
    ;
}

} // verus!
