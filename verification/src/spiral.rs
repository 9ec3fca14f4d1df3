//! The spiral layout: every tile takes half of what the tiles before it
//! left over, turning clockwise.

use vstd::prelude::*;
use crate::layouter::Layouter;
use crate::types::{Geometry, Screen};

verus! {

/// The left and the right half of a rectangle.
pub open spec fn halves_side_by_side(geom: Geometry) -> (Geometry, Geometry) {
    (
        Geometry { x: geom.x, y: geom.y, width: geom.width / 2, height: geom.height },
        Geometry {
            x: geom.x.wrapping_add_unsigned(geom.width / 2),
            y: geom.y,
            width: geom.width / 2,
            height: geom.height,
        },
    )
}

/// The upper and the lower half of a rectangle.
pub open spec fn halves_stacked(geom: Geometry) -> (Geometry, Geometry) {
    (
        Geometry { x: geom.x, y: geom.y, width: geom.width, height: geom.height / 2 },
        Geometry {
            x: geom.x,
            y: geom.y.wrapping_add_unsigned(geom.height / 2),
            width: geom.width,
            height: geom.height / 2,
        },
    )
}

/// One turn of the spiral at depth `depth`: the half that the next tile
/// takes, then the half that is left. The taken half is in turn the left,
/// the upper, the right and the lower one.
pub open spec fn spiral_step(rest: Geometry, depth: int) -> (Geometry, Geometry) {
    let turn = depth % 4;
    if turn == 0 {
        halves_side_by_side(rest)
    } else if turn == 1 {
        halves_stacked(rest)
    } else if turn == 2 {
        (halves_side_by_side(rest).1, halves_side_by_side(rest).0)
    } else {
        (halves_stacked(rest).1, halves_stacked(rest).0)
    }
}

/// The rectangle of tile `i` among `n`, when `depth` tiles have been placed
/// and `rest` is what they left over. The last tile takes all that is left.
pub open spec fn spiral_tile(rest: Geometry, depth: int, i: int, n: int) -> Geometry
    decreases n - depth,
{
    if depth + 1 >= n {
        rest
    } else if depth == i {
        spiral_step(rest, depth).0
    } else {
        spiral_tile(spiral_step(rest, depth).1, depth + 1, i, n)
    }
}

/// Whether the right and the lower edge of a rectangle are coordinates, so
/// that halving it does not wrap around.
pub open spec fn fits(geom: Geometry) -> bool {
    geom.x + geom.width <= i32::MAX && geom.y + geom.height <= i32::MAX
}

/// Whether `inner` lies within `outer`.
pub open spec fn inside(inner: Geometry, outer: Geometry) -> bool {
    &&& outer.x <= inner.x
    &&& inner.x + inner.width <= outer.x + outer.width
    &&& outer.y <= inner.y
    &&& inner.y + inner.height <= outer.y + outer.height
}

/// Whether two rectangles share no point.
pub open spec fn apart(a: Geometry, b: Geometry) -> bool {
    forall|px: int, py: int| !(a.covers(px, py) && b.covers(px, py))
}

/// One turn of the spiral splits what is left into two rectangles within it
/// that share no point.
pub proof fn lemma_spiral_step(rest: Geometry, depth: int)
    requires
        fits(rest),
    ensures
        inside(spiral_step(rest, depth).0, rest),
        inside(spiral_step(rest, depth).1, rest),
        fits(spiral_step(rest, depth).0),
        fits(spiral_step(rest, depth).1),
        apart(spiral_step(rest, depth).0, spiral_step(rest, depth).1),
{
}

/// Every tile lies within what the tiles before it left over.
pub proof fn lemma_spiral_inside(rest: Geometry, depth: int, i: int, n: int)
    requires
        fits(rest),
        depth <= i < n,
    ensures
        inside(spiral_tile(rest, depth, i, n), rest),
        fits(spiral_tile(rest, depth, i, n)),
    decreases n - depth,
{
    lemma_spiral_step(rest, depth);
    if depth + 1 < n && depth != i {
        lemma_spiral_inside(spiral_step(rest, depth).1, depth + 1, i, n);
    }
}

/// Two tiles share no point.
pub proof fn lemma_spiral_apart(rest: Geometry, depth: int, i: int, j: int, n: int)
    requires
        fits(rest),
        depth <= i < j < n,
    ensures
        apart(spiral_tile(rest, depth, i, n), spiral_tile(rest, depth, j, n)),
    decreases n - depth,
{
    lemma_spiral_step(rest, depth);
    let left_over = spiral_step(rest, depth).1;
    if depth == i {
        lemma_spiral_inside(left_over, depth + 1, j, n);
    } else {
        lemma_spiral_apart(left_over, depth + 1, i, j, n);
    }
}

/// On a screen whose size is a coordinate the tiles of the spiral layout lie
/// on the screen, and no two of them overlap.
pub proof fn lemma_spiral_tiles_never_overlap(screen: Screen, n: int)
    requires
        screen.width <= i32::MAX,
        screen.height <= i32::MAX,
    ensures
        forall|i: int|
            0 <= i < n ==> inside(#[trigger] spiral_tile(screen.geometry(), 0, i, n), screen.geometry()),
        forall|i: int, j: int|
            0 <= i < j < n ==> apart(
                #[trigger] spiral_tile(screen.geometry(), 0, i, n),
                #[trigger] spiral_tile(screen.geometry(), 0, j, n),
            ),
{
    assert forall|i: int| 0 <= i < n implies inside(
        #[trigger] spiral_tile(screen.geometry(), 0, i, n),
        screen.geometry(),
    ) by {
        lemma_spiral_inside(screen.geometry(), 0, i, n);
    }
    assert forall|i: int, j: int| 0 <= i < j < n implies apart(
        #[trigger] spiral_tile(screen.geometry(), 0, i, n),
        #[trigger] spiral_tile(screen.geometry(), 0, j, n),
    ) by {
        lemma_spiral_apart(screen.geometry(), 0, i, j, n);
    }
}

/// The spiral tiling algorithm.
#[derive(Clone, Copy, Debug, PartialEq, Eq, Structural)]
pub struct SpiralLayouter {}

impl SpiralLayouter {
    /// Get the geometry for the window with index `i` of `nb_windows`, where
    /// `rest_screen` is what is left of the screen after tiling
    /// `nb_windows_tiled` windows.
    pub fn get_geom_for_window(
        &self,
        rest_screen: Geometry,
        nb_windows_tiled: usize,
        i: usize,
        nb_windows: usize,
    ) -> (g: Geometry)
        requires
            nb_windows_tiled <= i < nb_windows,
        ensures
            g == spiral_tile(rest_screen, nb_windows_tiled as int, i as int, nb_windows as int),
        decreases nb_windows - nb_windows_tiled,
    {
        // The last window to be tiled takes what is left.
        if nb_windows_tiled + 1 == nb_windows {
            return rest_screen;
        }
        let turn: usize = nb_windows_tiled % 4;
        let (geom_for_next_tile, new_rest_screen) = if turn == 0 {
            self.split_vertically(rest_screen)
        } else if turn == 1 {
            self.split_horizontally(rest_screen)
        } else if turn == 2 {
            let (a, b) = self.split_vertically(rest_screen);
            (b, a)
        } else {
            let (a, b) = self.split_horizontally(rest_screen);
            (b, a)
        };
        if nb_windows_tiled == i {
            geom_for_next_tile
        } else {
            self.get_geom_for_window(new_rest_screen, nb_windows_tiled + 1, i, nb_windows)
        }
    }

    /// Split a rectangle into its left and its right half.
    pub fn split_vertically(&self, geom: Geometry) -> (halves: (Geometry, Geometry))
        ensures
            halves == halves_side_by_side(geom),
    {
        (
            Geometry { x: geom.x, y: geom.y, width: geom.width / 2, height: geom.height },
            Geometry {
                x: geom.x.wrapping_add_unsigned(geom.width / 2),
                y: geom.y,
                width: geom.width / 2,
                height: geom.height,
            },
        )
    }

    /// Split a rectangle into its upper and its lower half.
    pub fn split_horizontally(&self, geom: Geometry) -> (halves: (Geometry, Geometry))
        ensures
            halves == halves_stacked(geom),
    {
        (
            Geometry { x: geom.x, y: geom.y, width: geom.width, height: geom.height / 2 },
            Geometry {
                x: geom.x,
                y: geom.y.wrapping_add_unsigned(geom.height / 2),
                width: geom.width,
                height: geom.height / 2,
            },
        )
    }
}

impl Layouter for SpiralLayouter {
    open spec fn geom(&self, i: int, screen: Screen, n: int) -> Geometry {
        spiral_tile(screen.geometry(), 0, i, n)
    }

    open spec fn initial() -> Self {
        SpiralLayouter {  }
    }

    fn get_geom(&self, i: usize, screen: Screen, nb_windows: usize) -> (g: Geometry) {
        self.get_geom_for_window(screen.to_geometry(), 0, i, nb_windows)
    }

    fn new() -> (layouter: Self) {
        SpiralLayouter {  }
    }
}

} // verus!
