//! A layouter that wraps another one and leaves a gap around every tile.

use vstd::prelude::*;
use crate::layouter::{GapSupport, Layouter};
use crate::types::{GapSize, Geometry, Screen};

verus! {

/// What is left of `geom` when `gap` is taken off each of its four sides.
/// The arithmetic wraps around where the gap does not fit.
pub open spec fn inset(geom: Geometry, gap: GapSize) -> Geometry {
    Geometry {
        x: geom.x.wrapping_add_unsigned(gap),
        y: geom.y.wrapping_add_unsigned(gap),
        width: geom.width.wrapping_sub(gap.wrapping_mul(2)),
        height: geom.height.wrapping_sub(gap.wrapping_mul(2)),
    }
}

/// A gap of 0 leaves a rectangle as it is.
pub proof fn lemma_inset_zero(geom: Geometry)
    ensures
        inset(geom, 0) == geom,
{
}

/// Where the gap fits, the rectangle shrinks by the gap on every side.
pub proof fn lemma_inset_fits(geom: Geometry, gap: GapSize)
    requires
        2 * gap <= geom.width,
        2 * gap <= geom.height,
        geom.x + gap <= i32::MAX,
        geom.y + gap <= i32::MAX,
    ensures
        inset(geom, gap).x == geom.x + gap,
        inset(geom, gap).y == geom.y + gap,
        inset(geom, gap).width == geom.width - 2 * gap,
        inset(geom, gap).height == geom.height - 2 * gap,
{
}

/// The gap decorator of a layouter.
#[derive(Clone, Copy, Debug)]
pub struct GappedLayouter<WrappedLayouter: Layouter> {
    pub gap_size: GapSize,
    pub wrapped_layouter: WrappedLayouter,
}

impl<WrappedLayouter: Layouter> Layouter for GappedLayouter<WrappedLayouter> {
    open spec fn geom(&self, i: int, screen: Screen, n: int) -> Geometry {
        inset(self.wrapped_layouter.geom(i, screen, n), self.gap_size)
    }

    open spec fn initial() -> Self {
        GappedLayouter { gap_size: 0, wrapped_layouter: WrappedLayouter::initial() }
    }

    fn get_geom(&self, i: usize, screen: Screen, nb_windows: usize) -> (g: Geometry) {
        let geom = self.wrapped_layouter.get_geom(i, screen, nb_windows);
        let twice: u32 = self.gap_size.wrapping_mul(2);
        Geometry {
            x: geom.x.wrapping_add_unsigned(self.gap_size),
            y: geom.y.wrapping_add_unsigned(self.gap_size),
            width: geom.width.wrapping_sub(twice),
            height: geom.height.wrapping_sub(twice),
        }
    }

    fn new() -> (layouter: Self) {
        GappedLayouter { gap_size: 0, wrapped_layouter: WrappedLayouter::new() }
    }
}

/// With a gap of 0 the decorator places every tile where the wrapped layouter
/// does.
pub proof fn lemma_no_gap_keeps_tiles<WrappedLayouter: Layouter>(
    layouter: GappedLayouter<WrappedLayouter>,
    i: int,
    screen: Screen,
    n: int,
)
    requires
        layouter.gap_size == 0,
    ensures
        layouter.geom(i, screen, n) == layouter.wrapped_layouter.geom(i, screen, n),
{
    lemma_inset_zero(layouter.wrapped_layouter.geom(i, screen, n));
}

impl<WrappedLayouter: Layouter> GapSupport for GappedLayouter<WrappedLayouter> {
    open spec fn gap(&self) -> GapSize {
        self.gap_size
    }

    open spec fn with_gap(&self, gapsize: GapSize) -> Self {
        GappedLayouter { gap_size: gapsize, wrapped_layouter: self.wrapped_layouter }
    }

    proof fn gap_with_gap(&self, gapsize: GapSize) {
    }

    fn get_gap(&self) -> (g: GapSize) {
        self.gap_size
    }

    fn set_gap(&mut self, gapsize: GapSize) {
        self.gap_size = gapsize;
    }
}

} // verus!
