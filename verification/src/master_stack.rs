//! The master-stack layout: one master tile on the left half of the screen,
//! the other tiles stacked on the right half.

use vstd::prelude::*;
use crate::gaps::{lemma_no_gap_keeps_tiles, GappedLayouter};
use crate::layouter::{coordinate, to_coordinate, Layouter};
use crate::types::{Geometry, Screen};

verus! {

/// The master-stack tiling algorithm.
#[derive(Clone, Copy, Debug, PartialEq, Eq, Structural)]
pub struct SimpleLayouter;

impl SimpleLayouter {
    /// The master tile: the whole screen for a single window, else the left
    /// half.
    pub open spec fn master_geom(screen: Screen, n: int) -> Geometry {
        if n > 1 {
            Geometry { x: 0, y: 0, width: screen.width / 2, height: screen.height }
        } else {
            screen.geometry()
        }
    }

    /// The height of one slave tile among `n` windows.
    pub open spec fn slave_height(screen: Screen, n: int) -> int {
        screen.height as int / (n - 1)
    }

    /// The `i`-th slave tile (counted from 0) among `n` windows: the slaves
    /// share the right half of the screen, each as high as the screen
    /// divided by their number, one below the other.
    pub open spec fn slave_geom(i: int, screen: Screen, n: int) -> Geometry {
        Geometry {
            x: (screen.width / 2) as i32,
            y: coordinate(Self::slave_height(screen, n) * i),
            width: screen.width / 2,
            height: Self::slave_height(screen, n) as u32,
        }
    }

    /// The rectangle of tile `i` among `n`.
    pub open spec fn tile(i: int, screen: Screen, n: int) -> Geometry {
        if i == 0 {
            Self::master_geom(screen, n)
        } else {
            Self::slave_geom(i - 1, screen, n)
        }
    }

    /// Return the geometry for the master window.
    pub fn get_master_geom(&self, screen: Screen, nb_windows: usize) -> (g: Geometry)
        ensures
            g == Self::master_geom(screen, nb_windows as int),
    {
        if nb_windows > 1 {
            Geometry { x: 0, y: 0, width: screen.width / 2, height: screen.height }
        } else {
            screen.to_geometry()
        }
    }

    /// Return the geometry for the `i`-th slave.
    pub fn get_slave_geom(&self, i: usize, screen: Screen, nb_windows: usize) -> (g: Geometry)
        requires
            i + 1 < nb_windows,
        ensures
            g == Self::slave_geom(i as int, screen, nb_windows as int),
    {
        let slaves: usize = nb_windows - 1;
        let half: u32 = screen.width / 2;
        if slaves > screen.height as usize {
            proof {
                vstd::arithmetic::div_mod::lemma_basic_div(screen.height as int, slaves as int);
                assert(Self::slave_height(screen, nb_windows as int) == 0);
                assert(Self::slave_height(screen, nb_windows as int) * (i as int) == 0);
            }
            Geometry { x: half as i32, y: 0, width: half, height: 0 }
        } else {
            let nn: u32 = slaves as u32;
            let ii: u32 = i as u32;
            let each: u32 = screen.height / nn;
            proof {
                lemma_stack_fits(screen.height as int, nn as int, ii as int);
            }
            Geometry { x: half as i32, y: to_coordinate(each * ii), width: half, height: each }
        }
    }
}

/// The top edge of slave `i` of `nn` lies on a screen of height `h`.
pub proof fn lemma_stack_fits(h: int, nn: int, i: int)
    requires
        0 <= h,
        0 <= i < nn,
    ensures
        0 <= (h / nn) * i,
        (h / nn) * i + h / nn <= h,
{
    let each = h / nn;
    vstd::arithmetic::div_mod::lemma_fundamental_div_mod(h, nn);
    vstd::arithmetic::div_mod::lemma_div_pos_is_pos(h, nn);
    assert(each * (i + 1) <= each * nn) by (nonlinear_arith)
        requires
            0 <= each,
            i + 1 <= nn,
    ;
    assert(each * (i + 1) == each * i + each) by (nonlinear_arith);
    assert(0 <= each * i) by (nonlinear_arith)
        requires
            0 <= each,
            0 <= i,
    ;
    assert(nn * each == each * nn) by (nonlinear_arith);
}

/// Whether the master-stack tiles of `n` windows can fill `screen` without a
/// remainder: a single tile always does, and so do tiles on a screen without
/// points; otherwise the width must halve, the height must divide by the
/// number of slaves, and the top edge of the last slave must be a
/// coordinate.
pub open spec fn divides_evenly(screen: Screen, n: int) -> bool {
    ||| n == 1
    ||| screen.width == 0
    ||| screen.height == 0
    ||| {
        &&& screen.width % 2 == 0
        &&& screen.height as int % (n - 1) == 0
        &&& SimpleLayouter::slave_height(screen, n) * (n - 2) <= i32::MAX
    }
}

/// The master-stack tiles of `n >= 1` windows partition the screen: every
/// point of the screen lies in a tile, every point of a tile lies on the
/// screen, and no point lies in two tiles. This holds wherever the screen
/// divides evenly among the tiles.
pub proof fn lemma_master_stack_partitions_screen(screen: Screen, n: int)
    requires
        n >= 1,
        divides_evenly(screen, n),
    ensures
        forall|px: int, py: int|
            screen.covers(px, py) <==> exists|i: int|
                0 <= i < n && #[trigger] SimpleLayouter::tile(i, screen, n).covers(px, py),
        forall|i: int, j: int, px: int, py: int|
            0 <= i < j < n ==> !(#[trigger] SimpleLayouter::tile(i, screen, n).covers(px, py)
                && #[trigger] SimpleLayouter::tile(j, screen, n).covers(px, py)),
{
    let w = screen.width as int;
    let h = screen.height as int;
    if n == 1 {
        assert forall|px: int, py: int| screen.covers(px, py) implies exists|i: int|
            0 <= i < n && #[trigger] SimpleLayouter::tile(i, screen, n).covers(px, py) by {
            assert(SimpleLayouter::tile(0, screen, n).covers(px, py));
        }
    } else {
        let nn = n - 1;
        let each = SimpleLayouter::slave_height(screen, n);
        vstd::arithmetic::div_mod::lemma_fundamental_div_mod(h, nn);
        vstd::arithmetic::div_mod::lemma_div_pos_is_pos(h, nn);
        assert(nn * each == each * nn) by (nonlinear_arith);
        if w == 0 || h == 0 {
            assert(h == 0 ==> each == 0);
            assert forall|i: int, px: int, py: int| 0 <= i < n implies !(
            #[trigger] SimpleLayouter::tile(i, screen, n).covers(px, py)) by {}
        } else {
            assert(h == each * nn);
            assert(each > 0) by (nonlinear_arith)
                requires
                    h == each * nn,
                    h > 0,
                    each >= 0,
            ;
            // Slave `k` covers the right half between `each * k` and `each * (k + 1)`.
            assert forall|k: int, px: int, py: int| 0 <= k < nn implies (
            #[trigger] SimpleLayouter::tile(k + 1, screen, n).covers(px, py) <==> w / 2 <= px < w
                && each * k <= py < each * k + each) by {
                assert(each * k <= each * (nn - 1)) by (nonlinear_arith)
                    requires
                        0 <= k <= nn - 1,
                        each >= 0,
                ;
                assert(each * (nn - 1) == each * (n - 2));
                assert(0 <= each * k) by (nonlinear_arith)
                    requires
                        0 <= k,
                        0 <= each,
                ;
                lemma_stack_fits(h, nn, k);
            }
            assert forall|px: int, py: int| screen.covers(px, py) implies exists|i: int|
                0 <= i < n && #[trigger] SimpleLayouter::tile(i, screen, n).covers(px, py) by {
                if px < w / 2 {
                    assert(SimpleLayouter::tile(0, screen, n).covers(px, py));
                } else {
                    let k = py / each;
                    vstd::arithmetic::div_mod::lemma_fundamental_div_mod(py, each);
                    vstd::arithmetic::div_mod::lemma_div_pos_is_pos(py, each);
                    assert(k < nn) by (nonlinear_arith)
                        requires
                            py < each * nn,
                            py == each * k + py % each,
                            0 <= py % each,
                            each > 0,
                    ;
                    assert(SimpleLayouter::tile(k + 1, screen, n).covers(px, py));
                }
            }
            assert forall|px: int, py: int|
                (exists|i: int|
                    0 <= i < n && #[trigger] SimpleLayouter::tile(i, screen, n).covers(
                        px,
                        py,
                    )) implies screen.covers(px, py) by {
                let i = choose|i: int|
                    0 <= i < n && #[trigger] SimpleLayouter::tile(i, screen, n).covers(px, py);
                if i > 0 {
                    let k = i - 1;
                    assert(SimpleLayouter::tile(k + 1, screen, n).covers(px, py));
                    lemma_stack_fits(h, nn, k);
                }
            }
            assert forall|i: int, j: int, px: int, py: int| 0 <= i < j < n implies !(
            #[trigger] SimpleLayouter::tile(i, screen, n).covers(px, py)
                && #[trigger] SimpleLayouter::tile(j, screen, n).covers(px, py)) by {
                let b = j - 1;
                assert(SimpleLayouter::tile(b + 1, screen, n).covers(px, py) ==> w / 2 <= px);
                if i > 0 {
                    let a = i - 1;
                    assert(SimpleLayouter::tile(a + 1, screen, n).covers(px, py) ==> py < each * a
                        + each);
                    assert(SimpleLayouter::tile(b + 1, screen, n).covers(px, py) ==> each * b
                        <= py);
                    assert(each * a + each <= each * b) by (nonlinear_arith)
                        requires
                            a + 1 <= b,
                            each >= 0,
                    ;
                }
            }
        }
    }
}

/// With a gap of 0 the tiles of the master-stack layout behind the gap
/// decorator partition the screen, as they do without the decorator.
pub proof fn lemma_gapless_master_stack_partitions_screen(
    layouter: GappedLayouter<SimpleLayouter>,
    screen: Screen,
    n: int,
)
    requires
        layouter.gap_size == 0,
        n >= 1,
        divides_evenly(screen, n),
    ensures
        forall|px: int, py: int|
            screen.covers(px, py) <==> exists|i: int|
                0 <= i < n && #[trigger] layouter.geom(i, screen, n).covers(px, py),
        forall|i: int, j: int, px: int, py: int|
            0 <= i < j < n ==> !(#[trigger] layouter.geom(i, screen, n).covers(px, py)
                && #[trigger] layouter.geom(j, screen, n).covers(px, py)),
{
    lemma_master_stack_partitions_screen(screen, n);
    assert forall|i: int| #[trigger]
        layouter.geom(i, screen, n) == SimpleLayouter::tile(i, screen, n) by {
        lemma_no_gap_keeps_tiles(layouter, i, screen, n);
    }
    assert forall|px: int, py: int| screen.covers(px, py) implies exists|i: int|
        0 <= i < n && #[trigger] layouter.geom(i, screen, n).covers(px, py) by {
        let i = choose|i: int|
            0 <= i < n && #[trigger] SimpleLayouter::tile(i, screen, n).covers(px, py);
        assert(layouter.geom(i, screen, n).covers(px, py));
    }
    assert forall|px: int, py: int|
        (exists|i: int|
            0 <= i < n && #[trigger] layouter.geom(i, screen, n).covers(
                px,
                py,
            )) implies screen.covers(px, py) by {
        let i = choose|i: int| 0 <= i < n && #[trigger] layouter.geom(i, screen, n).covers(px, py);
        assert(SimpleLayouter::tile(i, screen, n).covers(px, py));
    }
}

impl Layouter for SimpleLayouter {
    open spec fn geom(&self, i: int, screen: Screen, n: int) -> Geometry {
        Self::tile(i, screen, n)
    }

    open spec fn initial() -> Self {
        SimpleLayouter
    }

    fn get_geom(&self, i: usize, screen: Screen, nb_windows: usize) -> (g: Geometry) {
        if i == 0 {
            self.get_master_geom(screen, nb_windows)
        } else {
            self.get_slave_geom(i - 1, screen, nb_windows)
        }
    }

    fn new() -> (layouter: Self) {
        SimpleLayouter
    }
}

} // verus!
