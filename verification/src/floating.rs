//! The float layer: a tiling core, and above its tiles the floating windows,
//! each with a rectangle of its own. The floating windows are kept twice: in
//! the order in which they came, which is the order of the focus ring, and in
//! stacking order, which is the order in which they are drawn. A floating
//! window that has the focus is always on top.
//!
//! The focus ring runs through the floating windows in the order in which
//! they came and then through the tiles in tile order.
//!
//! A window has a rectangle of its own once it floats or once its rectangle
//! was set. A tile without one floats, when it is toggled, where its tile
//! was.

use vstd::prelude::*;
use std::collections::HashMap;
use crate::error::WMError;
use crate::gaps::GappedLayouter;
use crate::layouter::GapSupport;
use crate::master_stack::SimpleLayouter;
use crate::real_window_info::RealWindowInfo;
use crate::seqs::{
    at_edge, entry, lemma_index_of, lemma_index_of_contained, lemma_push, lemma_raised,
    lemma_remove, lemma_without, position, raised, step, without,
};
use crate::tiling::{TilingState, TilingWM};
use crate::types::{
    FloatOrTile, GapSize, Geometry, LayoutView, PrevOrNext, Screen, Window, WindowLayout,
    WindowWithInfo,
};

verus! {

broadcast use vstd::std_specs::hash::group_hash_axioms;

/// The tiling core under the float layer.
pub type Tiles = TilingState<GappedLayouter<SimpleLayouter>>;

/// The state of the float layer as a mathematical value.
pub struct FloatState {
    /// The tiled windows.
    pub tiling: Tiles,
    /// The floating windows in the order in which they came.
    pub floating: Seq<Window>,
    /// The floating windows in stacking order, the topmost last.
    pub stack: Seq<Window>,
    /// The position in `floating` of the focused window, if a floating
    /// window has the focus.
    pub focus: Option<int>,
    /// What each managed window came with.
    pub infos: Map<Window, WindowWithInfo>,
    /// The rectangle of its own of each window that has one: of every
    /// floating window, and of every tile that floated before or whose
    /// rectangle was set.
    pub own: Map<Window, Geometry>,
}

impl FloatState {
    /// Every managed window is either tiled or floating and has its entry in
    /// `infos`; `stack` holds the floating windows; every floating window has
    /// a rectangle of its own; one window at most has the focus, and a
    /// floating window that has it is on top of the stack.
    pub open spec fn wf(self) -> bool {
        &&& self.tiling.wf()
        &&& self.floating.no_duplicates()
        &&& self.stack.no_duplicates()
        &&& self.stack.to_set() == self.floating.to_set()
        &&& self.tiling.managed().disjoint(self.floating.to_set())
        &&& self.infos.dom() == self.managed()
        &&& forall|w: Window| self.infos.contains_key(w) ==> (#[trigger] self.infos[w]).window == w
        &&& self.own.dom().subset_of(self.managed())
        &&& self.floating.to_set().subset_of(self.own.dom())
        &&& match self.focus {
            Some(i) => {
                &&& 0 <= i < self.floating.len()
                &&& self.tiling.focus is None
                &&& self.stack.len() > 0
                &&& self.stack.last() == self.floating[i]
            },
            None => true,
        }
    }

    pub open spec fn manages(self, w: Window) -> bool {
        self.tiling.manages(w) || self.floating.contains(w)
    }

    /// The set of the managed windows.
    pub open spec fn managed(self) -> Set<Window> {
        self.tiling.managed() + self.floating.to_set()
    }

    pub open spec fn is_floating(self, w: Window) -> bool {
        self.floating.contains(w)
    }

    /// The managed windows: the tiles, then the floating windows.
    pub open spec fn windows(self) -> Seq<Window> {
        self.tiling.tiles + self.floating
    }

    /// The window that has the focus.
    pub open spec fn focused(self) -> Option<Window> {
        match self.focus {
            Some(i) => Some(self.floating[i]),
            None => self.tiling.focused(),
        }
    }

    /// The floating windows with their rectangles, in stacking order.
    pub open spec fn floating_entries(self) -> Seq<(Window, Geometry)> {
        Seq::new(self.stack.len(), |i: int| (self.stack[i], self.own[self.stack[i]]))
    }

    /// The tiles, and above them the floating windows in stacking order.
    pub open spec fn layout(self) -> LayoutView {
        LayoutView {
            focused: self.focused(),
            entries: self.tiling.entries() + self.floating_entries(),
        }
    }

    /// What the manager reports of a managed window: a tile with the
    /// rectangle of its tile, a floating window with its own rectangle.
    pub open spec fn info(self, w: Window) -> WindowWithInfo {
        if self.tiling.manages(w) {
            self.tiling.info(w)
        } else {
            WindowWithInfo {
                window: w,
                geometry: self.own[w],
                float_or_tile: FloatOrTile::Float,
                fullscreen: false,
            }
        }
    }

    /// The rectangle at which a managed window floats, or would float if it
    /// were toggled now: its own rectangle if it has one, else the rectangle
    /// of its tile.
    pub open spec fn floating_geometry(self, w: Window) -> Geometry {
        if self.own.contains_key(w) {
            self.own[w]
        } else {
            self.tiling.info(w).geometry
        }
    }

    /// The rectangle of its own of `w`, if it has one.
    pub open spec fn own_geometry(self, w: Window) -> Option<Geometry> {
        if self.own.contains_key(w) {
            Some(self.own[w])
        } else {
            None
        }
    }

    /// What is needed to add a managed window again as it is: a tile is
    /// reported with the rectangle at which it would float.
    pub open spec fn real_info(self, w: Window) -> WindowWithInfo {
        WindowWithInfo {
            window: w,
            geometry: self.floating_geometry(w),
            float_or_tile: if self.floating.contains(w) {
                FloatOrTile::Float
            } else {
                FloatOrTile::Tile
            },
            fullscreen: self.infos[w].fullscreen,
        }
    }

    pub open spec fn init(screen: Screen) -> FloatState {
        FloatState {
            tiling: Tiles::init(screen),
            floating: Seq::empty(),
            stack: Seq::empty(),
            focus: None,
            infos: Map::empty(),
            own: Map::empty(),
        }
    }

    /// With the focus on `target`, or on no window. A floating window that
    /// takes the focus rises to the top of the stack.
    pub open spec fn focus_on(self, target: Option<Window>) -> FloatState {
        match target {
            None => FloatState { focus: None, tiling: self.tiling.focus_on(None), ..self },
            Some(w) => if self.tiling.manages(w) {
                FloatState { focus: None, tiling: self.tiling.focus_on(Some(w)), ..self }
            } else if self.floating.contains(w) {
                FloatState {
                    stack: raised(self.stack, w),
                    focus: Some(self.floating.index_of(w)),
                    tiling: self.tiling.focus_on(None),
                    ..self
                }
            } else {
                self
            },
        }
    }

    /// A new window joins the tiles or the floating windows, as its mode
    /// says, and takes the focus; a floating one comes on top of the stack,
    /// with the rectangle it came with as its own. A window that is already
    /// managed changes nothing.
    pub open spec fn add(self, info: WindowWithInfo) -> FloatState {
        let w = info.window;
        if self.manages(w) {
            self
        } else {
            let placed = match info.float_or_tile {
                FloatOrTile::Float => FloatState {
                    floating: self.floating.push(w),
                    stack: self.stack.push(w),
                    focus: None,
                    infos: self.infos.insert(w, info),
                    own: self.own.insert(w, info.geometry),
                    ..self
                },
                FloatOrTile::Tile => FloatState {
                    tiling: self.tiling.add(w),
                    focus: None,
                    infos: self.infos.insert(w, info),
                    ..self
                },
            };
            placed.focus_on(Some(w))
        }
    }

    /// Without the floating window `w`, and with no floating window focused.
    pub open spec fn without_floating(self, w: Window) -> FloatState {
        FloatState {
            floating: self.floating.remove(self.floating.index_of(w)),
            stack: without(self.stack, w),
            infos: self.infos.remove(w),
            own: self.own.remove(w),
            focus: None,
            ..self
        }
    }

    /// Without the window `w`. Removing a tile leaves the focus to the
    /// tiling core. Removing a floating window that stands at or before the
    /// focused one moves the focus to the window that came just before the
    /// removed one, which rises to the top; if none came before it, no
    /// window is focused.
    pub open spec fn remove(self, w: Window) -> FloatState {
        if self.tiling.manages(w) {
            FloatState {
                tiling: self.tiling.remove(w),
                infos: self.infos.remove(w),
                own: self.own.remove(w),
                ..self
            }
        } else if self.floating.contains(w) {
            let i = self.floating.index_of(w);
            let rest = self.without_floating(w);
            match self.focus {
                Some(j) => if j < i {
                    FloatState { focus: Some(j), ..rest }
                } else if i > 0 {
                    rest.focus_on(Some(self.floating[i - 1]))
                } else {
                    rest
                },
                None => rest,
            }
        } else {
            self
        }
    }

    /// The window that the focus moves to by one step along the ring.
    /// Without a focused window the ring is entered at the first floating
    /// window going forward, at the last one going backward; without
    /// floating windows, at the first or the last tile.
    pub open spec fn cycle_target(self, dir: PrevOrNext) -> Option<Window> {
        let n = self.floating.len() as int;
        let m = self.tiling.tiles.len() as int;
        match self.focus {
            Some(i) => if !at_edge(i, dir, n) {
                Some(self.floating[step(i, dir, n)])
            } else if m > 0 {
                Some(self.tiling.tiles[entry(dir, m)])
            } else {
                Some(self.floating[entry(dir, n)])
            },
            None => match self.tiling.focus {
                Some(t) if !at_edge(t, dir, m) => Some(self.tiling.tiles[step(t, dir, m)]),
                _ => if n > 0 {
                    Some(self.floating[entry(dir, n)])
                } else if m > 0 {
                    Some(self.tiling.tiles[entry(dir, m)])
                } else {
                    None
                },
            },
        }
    }

    /// With the focus moved one step along the ring.
    pub open spec fn cycle(self, dir: PrevOrNext) -> FloatState {
        self.focus_on(self.cycle_target(dir))
    }

    /// What is kept of `w` when it changes to the given mode: the rectangle
    /// at which it floats, which is its own rectangle or, for a tile without
    /// one, the rectangle of its tile at this moment.
    pub open spec fn moved_info(self, w: Window, mode: FloatOrTile) -> WindowWithInfo {
        WindowWithInfo {
            geometry: self.floating_geometry(w),
            float_or_tile: mode,
            ..self.infos[w]
        }
    }

    /// With `w` taken out and added again in the given mode. A rectangle of
    /// its own stays its own; a tile without one takes the rectangle of its
    /// tile, captured before it is taken out.
    pub open spec fn float_or_tile(self, w: Window, mode: FloatOrTile) -> FloatState {
        let again = self.remove(w).add(self.moved_info(w, mode));
        if self.own.contains_key(w) {
            FloatState { own: again.own.insert(w, self.own[w]), ..again }
        } else {
            again
        }
    }

    /// With the mode of `w` flipped: a tile floats at its own rectangle or,
    /// without one, where its tile was; a floating window becomes the last
    /// tile. The focus goes back to the window that had it, which rises to
    /// the top of the stack if it floats.
    pub open spec fn toggle_floating(self, w: Window) -> FloatState {
        if self.manages(w) {
            let mode = if self.floating.contains(w) {
                FloatOrTile::Tile
            } else {
                FloatOrTile::Float
            };
            self.float_or_tile(w, mode).focus_on(self.focused())
        } else {
            self
        }
    }

    /// With the own rectangle of `w` set. A floating window shows it at
    /// once, a tile when it floats.
    pub open spec fn set_geometry(self, w: Window, geometry: Geometry) -> FloatState {
        if self.manages(w) {
            FloatState { own: self.own.insert(w, geometry), ..self }
        } else {
            self
        }
    }

    /// With `w` as the focused master tile; a floating `w` is tiled first.
    pub open spec fn swap_with_master(self, w: Window) -> FloatState {
        if self.manages(w) {
            let tiled = if self.floating.contains(w) {
                self.float_or_tile(w, FloatOrTile::Tile)
            } else {
                self
            };
            FloatState { tiling: tiled.tiling.swap_with_master(w), focus: None, ..tiled }
        } else {
            self
        }
    }

    /// With the focused tile and its neighbour exchanged; a focused floating
    /// window is tiled first.
    pub open spec fn swap_neighbor(self, dir: PrevOrNext) -> FloatState {
        let tiled = match self.focus {
            Some(i) => self.toggle_floating(self.floating[i]),
            None => self,
        };
        FloatState { tiling: tiled.tiling.swap_neighbor(dir), ..tiled }
    }

    pub open spec fn resize(self, screen: Screen) -> FloatState {
        FloatState { tiling: self.tiling.resize(screen), ..self }
    }

    pub open spec fn set_gap(self, gapsize: GapSize) -> FloatState {
        FloatState {
            tiling: TilingState { layouter: self.tiling.layouter.with_gap(gapsize), ..self.tiling },
            ..self
        }
    }

    /// Focusing keeps the state well formed and changes neither the windows
    /// nor what is known of them.
    pub proof fn lemma_focus_on(self, target: Option<Window>)
        requires
            self.wf(),
        ensures
            self.focus_on(target).wf(),
            self.focus_on(target).tiling.tiles == self.tiling.tiles,
            self.focus_on(target).tiling.screen == self.tiling.screen,
            self.focus_on(target).tiling.layouter == self.tiling.layouter,
            self.focus_on(target).floating == self.floating,
            self.focus_on(target).infos == self.infos,
            self.focus_on(target).own == self.own,
            target is None || !self.floating.contains(target->0) ==> self.focus_on(target).stack
                == self.stack,
            target is None ==> self.focus_on(target).focused() is None,
            target is Some && self.manages(target->0) ==> self.focus_on(target).focused()
                == target,
            target is Some && self.floating.contains(target->0) ==> self.focus_on(
                target,
            ).stack.last() == target->0,
    {
        self.tiling.lemma_focus(target, PrevOrNext::Next);
        self.tiling.lemma_focus(None, PrevOrNext::Next);
        if let Some(w) = target {
            if self.tiling.manages(w) {
                assert(self.tiling.managed().contains(w));
            } else if self.floating.contains(w) {
                assert(self.floating.to_set().contains(w));
                lemma_raised(self.stack, w);
                lemma_index_of_contained(self.floating, w);
            }
        }
    }

    /// Adding keeps the state well formed. A new window is managed
    /// afterwards, in the mode it came with, and has the focus; the others
    /// stay as they were.
    pub proof fn lemma_add(self, info: WindowWithInfo)
        requires
            self.wf(),
        ensures
            self.add(info).wf(),
            self.add(info).managed() == self.managed().insert(info.window),
            self.add(info).tiling.screen == self.tiling.screen,
            self.add(info).tiling.layouter == self.tiling.layouter,
            self.manages(info.window) ==> self.add(info) == self,
            !self.manages(info.window) ==> {
                &&& self.add(info).focused() == Some(info.window)
                &&& self.add(info).infos == self.infos.insert(info.window, info)
                &&& self.add(info).own == (if info.float_or_tile == FloatOrTile::Float {
                    self.own.insert(info.window, info.geometry)
                } else {
                    self.own
                })
                &&& info.float_or_tile == FloatOrTile::Float ==> {
                    &&& self.add(info).floating == self.floating.push(info.window)
                    &&& self.add(info).floating.to_set() == self.floating.to_set().insert(
                        info.window,
                    )
                    &&& self.add(info).stack == self.stack.push(info.window)
                    &&& self.add(info).tiling.tiles == self.tiling.tiles
                }
                &&& info.float_or_tile == FloatOrTile::Tile ==> {
                    &&& self.add(info).floating == self.floating
                    &&& self.add(info).stack == self.stack
                    &&& self.add(info).tiling.tiles == self.tiling.tiles.push(info.window)
                }
            },
    {
        let w = info.window;
        self.lemma_manages(w);
        if !self.manages(w) {
            match info.float_or_tile {
                FloatOrTile::Float => {
                    let placed = FloatState {
                        floating: self.floating.push(w),
                        stack: self.stack.push(w),
                        focus: None,
                        infos: self.infos.insert(w, info),
                        own: self.own.insert(w, info.geometry),
                        ..self
                    };
                    lemma_push(self.floating, w);
                    lemma_push(self.stack, w);
                    assert(placed.managed() =~= self.managed().insert(w));
                    assert(placed.wf());
                    placed.lemma_focus_on(Some(w));
                    lemma_raised(placed.stack, w);
                },
                FloatOrTile::Tile => {
                    let placed = FloatState {
                        tiling: self.tiling.add(w),
                        focus: None,
                        infos: self.infos.insert(w, info),
                        ..self
                    };
                    self.tiling.lemma_add(w);
                    assert(placed.managed() =~= self.managed().insert(w));
                    assert(placed.wf());
                    placed.lemma_focus_on(Some(w));
                },
            }
        } else {
            assert(self.managed().insert(w) =~= self.managed());
        }
    }

    /// A window is managed where the set of the managed windows holds it.
    pub proof fn lemma_manages(self, w: Window)
        ensures
            self.manages(w) <==> self.managed().contains(w),
            self.is_floating(w) <==> self.floating.to_set().contains(w),
            self.tiling.manages(w) <==> self.tiling.managed().contains(w),
            self.wf() ==> (self.manages(w) <==> self.infos.contains_key(w)),
            self.wf() ==> !(self.tiling.manages(w) && self.is_floating(w)),
            self.wf() ==> (self.stack.contains(w) <==> self.is_floating(w)),
            self.wf() && self.is_floating(w) ==> self.own.contains_key(w),
            self.wf() && self.own.contains_key(w) ==> self.manages(w),
    {
        if self.wf() {
            assert(self.stack.to_set().contains(w) <==> self.floating.to_set().contains(w));
            assert(self.own.dom().contains(w) ==> self.managed().contains(w));
        }
    }

    /// Taking a floating window out, with no floating window focused, keeps
    /// the state well formed, the tiles and the other floating windows in
    /// their order; the stack keeps its top unless the window was the top.
    pub proof fn lemma_without_floating(self, w: Window)
        requires
            self.wf(),
            self.floating.contains(w),
        ensures
            self.without_floating(w).wf(),
            self.without_floating(w).managed() == self.managed().remove(w),
            self.without_floating(w).floating.to_set() == self.floating.to_set().remove(w),
            self.without_floating(w).tiling == self.tiling,
            0 <= self.floating.index_of(w) < self.floating.len(),
            self.floating[self.floating.index_of(w)] == w,
            forall|k: int|
                0 <= k < self.floating.index_of(w) ==> #[trigger] self.without_floating(
                    w,
                ).floating[k] == self.floating[k] && self.without_floating(w).floating.contains(
                    self.floating[k],
                ),
            self.stack.last() != w ==> self.without_floating(w).stack.len() > 0
                && self.without_floating(w).stack.last() == self.stack.last(),
    {
        let i = self.floating.index_of(w);
        let rest = self.without_floating(w);
        self.lemma_manages(w);
        lemma_index_of_contained(self.floating, w);
        lemma_remove(self.floating, i);
        lemma_without(self.stack, w);
        assert(self.tiling.managed().remove(w) =~= self.tiling.managed());
        assert(rest.managed() =~= self.managed().remove(w));
        assert forall|k: int| 0 <= k < i implies #[trigger] rest.floating[k] == self.floating[k]
            && rest.floating.contains(self.floating[k]) by {
            assert(rest.floating[k] == self.floating[k]);
        }
        if self.stack.last() != w {
            let k = self.stack.index_of(w);
            lemma_index_of_contained(self.stack, w);
            lemma_remove(self.stack, k);
            assert(rest.stack[self.stack.len() - 2] == self.stack[self.stack.len() - 1]);
        }
    }

    /// Removing keeps the state well formed. The window is gone afterwards,
    /// and no other; the others stay in their modes.
    pub proof fn lemma_remove(self, w: Window)
        requires
            self.wf(),
        ensures
            self.remove(w).wf(),
            self.remove(w).managed() == self.managed().remove(w),
            self.remove(w).floating.to_set() == self.floating.to_set().remove(w),
            self.remove(w).tiling.managed() == self.tiling.managed().remove(w),
            self.remove(w).infos == self.infos.remove(w),
            self.remove(w).own == self.own.remove(w),
            self.remove(w).tiling.screen == self.tiling.screen,
            self.remove(w).tiling.layouter == self.tiling.layouter,
            self.tiling.manages(w) ==> self.remove(w).tiling.tiles == without(
                self.tiling.tiles,
                w,
            ) && self.remove(w).tiling.tiles.len() == self.tiling.tiles.len() - 1,
            !self.tiling.manages(w) ==> self.remove(w).tiling.tiles == self.tiling.tiles,
            !self.manages(w) ==> self.remove(w) == self,
    {
        self.lemma_manages(w);
        if self.tiling.manages(w) {
            self.tiling.lemma_remove(w);
            lemma_without(self.tiling.tiles, w);
            assert(self.floating.to_set().remove(w) =~= self.floating.to_set());
            assert(self.remove(w).managed() =~= self.managed().remove(w));
        } else if self.floating.contains(w) {
            let i = self.floating.index_of(w);
            let rest = self.without_floating(w);
            self.lemma_without_floating(w);
            if let Some(j) = self.focus {
                if j < i {
                    lemma_index_of(self.floating, w, i);
                } else if i > 0 {
                    rest.lemma_focus_on(Some(self.floating[i - 1]));
                }
            }
        } else {
            assert(self.infos.remove(w) =~= self.infos);
            assert(self.own.remove(w) =~= self.own);
            assert(self.managed().remove(w) =~= self.managed());
            assert(self.floating.to_set().remove(w) =~= self.floating.to_set());
            assert(self.tiling.managed().remove(w) =~= self.tiling.managed());
        }
    }

    /// The target of a step along the ring is a managed window; there is
    /// one as soon as a window is managed.
    pub proof fn lemma_cycle_target(self, dir: PrevOrNext)
        requires
            self.wf(),
        ensures
            match self.cycle_target(dir) {
                Some(w) => self.manages(w),
                None => self.windows().len() == 0,
            },
    {
        let n = self.floating.len() as int;
        let m = self.tiling.tiles.len() as int;
        if let Some(w) = self.cycle_target(dir) {
            assert(forall|k: int| 0 <= k < n ==> self.floating.contains(self.floating[k]));
            assert(forall|k: int| 0 <= k < m ==> self.tiling.tiles.contains(self.tiling.tiles[k]));
        }
    }

    /// Cycling keeps the state well formed and the windows; it lands on a
    /// window whenever there is one.
    pub proof fn lemma_cycle(self, dir: PrevOrNext)
        requires
            self.wf(),
        ensures
            self.cycle(dir).wf(),
            self.cycle(dir).focused() == self.cycle_target(dir),
            self.windows().len() > 0 ==> self.cycle(dir).focused() is Some,
            self.cycle(dir).tiling.tiles == self.tiling.tiles,
            self.cycle(dir).floating == self.floating,
            self.cycle(dir).infos == self.infos,
            self.cycle(dir).own == self.own,
            self.cycle(dir).managed() == self.managed(),
    {
        self.lemma_cycle_target(dir);
        self.lemma_focus_on(self.cycle_target(dir));
    }

    /// Changing the mode of a managed window keeps the state well formed and
    /// the windows; the window is in the new mode afterwards, with the
    /// rectangle at which it floats kept, and has the focus.
    pub proof fn lemma_float_or_tile(self, w: Window, mode: FloatOrTile)
        requires
            self.wf(),
            self.manages(w),
        ensures
            self.float_or_tile(w, mode).wf(),
            self.float_or_tile(w, mode).managed() == self.managed(),
            self.float_or_tile(w, mode).floating.to_set() == (if mode == FloatOrTile::Float {
                self.floating.to_set().insert(w)
            } else {
                self.floating.to_set().remove(w)
            }),
            self.float_or_tile(w, mode).infos == self.infos.insert(w, self.moved_info(w, mode)),
            self.float_or_tile(w, mode).own == (if mode == FloatOrTile::Float {
                self.own.insert(w, self.floating_geometry(w))
            } else {
                self.own
            }),
            self.float_or_tile(w, mode).tiling.tiles == (if mode == FloatOrTile::Float {
                without(self.tiling.tiles, w)
            } else {
                without(self.tiling.tiles, w).push(w)
            }),
            self.float_or_tile(w, mode).focused() == Some(w),
            self.float_or_tile(w, mode).tiling.screen == self.tiling.screen,
            self.float_or_tile(w, mode).tiling.layouter == self.tiling.layouter,
    {
        let info = self.moved_info(w, mode);
        let again = self.remove(w).add(info);
        self.lemma_manages(w);
        self.lemma_remove(w);
        self.remove(w).lemma_manages(w);
        self.remove(w).lemma_add(info);
        lemma_without(self.tiling.tiles, w);
        assert(self.infos.remove(w).insert(w, info) =~= self.infos.insert(w, info));
        assert(self.managed().remove(w).insert(w) =~= self.managed());
        assert(self.floating.to_set().remove(w).remove(w) =~= self.floating.to_set().remove(w));
        assert(self.floating.to_set().remove(w).insert(w) =~= self.floating.to_set().insert(w));
        let g = self.floating_geometry(w);
        assert(self.own.remove(w).insert(w, g) =~= self.own.insert(w, g));
        if self.own.contains_key(w) {
            assert(self.own.insert(w, self.own[w]) =~= self.own);
            assert(self.own.remove(w).insert(w, self.own[w]) =~= self.own);
            assert(self.own.insert(w, g).insert(w, self.own[w]) =~= self.own);
        } else {
            assert(self.own.remove(w) =~= self.own);
        }
        let after = self.float_or_tile(w, mode);
        assert(after.managed() == again.managed());
    }

    /// Toggling keeps the state well formed, the windows and the focus; the
    /// mode of the window is flipped, and no other; the rectangle at which
    /// the window floats stays, and is its own from then on.
    pub proof fn lemma_toggle_floating(self, w: Window)
        requires
            self.wf(),
        ensures
            self.toggle_floating(w).wf(),
            self.toggle_floating(w).managed() == self.managed(),
            self.toggle_floating(w).floating.to_set() == (if !self.manages(w) {
                self.floating.to_set()
            } else if self.is_floating(w) {
                self.floating.to_set().remove(w)
            } else {
                self.floating.to_set().insert(w)
            }),
            self.manages(w) ==> self.toggle_floating(w).focused() == self.focused(),
            self.manages(w) ==> self.toggle_floating(w).floating_geometry(w)
                == self.floating_geometry(w),
            self.manages(w) ==> self.toggle_floating(w).own == self.own.insert(
                w,
                self.floating_geometry(w),
            ),
            self.manages(w) ==> self.toggle_floating(w).infos == self.infos.insert(
                w,
                self.moved_info(
                    w,
                    if self.is_floating(w) {
                        FloatOrTile::Tile
                    } else {
                        FloatOrTile::Float
                    },
                ),
            ),
            self.manages(w) ==> self.toggle_floating(w).tiling.tiles == (if self.is_floating(w) {
                without(self.tiling.tiles, w).push(w)
            } else {
                without(self.tiling.tiles, w)
            }),
            self.manages(w) && !self.is_floating(w) ==> self.toggle_floating(w).info(w).geometry
                == self.floating_geometry(w),
            self.toggle_floating(w).tiling.screen == self.tiling.screen,
            self.toggle_floating(w).tiling.layouter == self.tiling.layouter,
    {
        if self.manages(w) {
            let mode = if self.floating.contains(w) {
                FloatOrTile::Tile
            } else {
                FloatOrTile::Float
            };
            self.lemma_float_or_tile(w, mode);
            self.lemma_focused_is_managed();
            let moved = self.float_or_tile(w, mode);
            if let Some(f) = self.focused() {
                self.lemma_manages(f);
                moved.lemma_manages(f);
            }
            moved.lemma_focus_on(self.focused());
            let after = self.toggle_floating(w);
            self.lemma_manages(w);
            moved.lemma_manages(w);
            after.lemma_manages(w);
            if self.is_floating(w) {
                assert(self.own.insert(w, self.own[w]) =~= self.own);
            }
        }
    }

    /// The focused window is a managed window.
    pub proof fn lemma_focused_is_managed(self)
        requires
            self.wf(),
        ensures
            self.focused() is Some ==> self.manages(self.focused()->0),
            self.focus is Some ==> self.is_floating(self.focused()->0),
            self.focus is None && self.focused() is Some ==> self.tiling.manages(
                self.focused()->0,
            ),
    {
        if let Some(i) = self.focus {
            assert(self.floating.contains(self.floating[i]));
        } else if let Some(t) = self.tiling.focus {
            assert(self.tiling.tiles.contains(self.tiling.tiles[t]));
        }
    }

    /// Setting a rectangle keeps the state well formed and changes nothing
    /// but that rectangle.
    pub proof fn lemma_set_geometry(self, w: Window, geometry: Geometry)
        requires
            self.wf(),
        ensures
            self.set_geometry(w, geometry).wf(),
            self.set_geometry(w, geometry).managed() == self.managed(),
            self.set_geometry(w, geometry).tiling == self.tiling,
            self.set_geometry(w, geometry).floating == self.floating,
            self.set_geometry(w, geometry).focused() == self.focused(),
            forall|x: Window|
                x != w || !self.is_floating(w) ==> #[trigger] self.set_geometry(w, geometry).info(x)
                    == self.info(x),
            self.is_floating(w) ==> self.set_geometry(w, geometry).info(w) == self.info(
                w,
            ).with_geometry(geometry),
            self.manages(w) ==> self.set_geometry(w, geometry).floating_geometry(w) == geometry,
            self.manages(w) ==> self.set_geometry(w, geometry).real_info(w).geometry == geometry,
            self.is_floating(w) ==> self.set_geometry(w, geometry).info(w).geometry == geometry,
    {
        self.lemma_manages(w);
        if self.manages(w) {
            assert(self.own.insert(w, geometry).dom() =~= self.own.dom().insert(w));
        }
    }

    /// Swapping with the master keeps the state well formed and the windows;
    /// the window is the master afterwards and has the focus.
    pub proof fn lemma_swap_with_master(self, w: Window)
        requires
            self.wf(),
        ensures
            self.swap_with_master(w).wf(),
            self.swap_with_master(w).managed() == self.managed(),
            self.manages(w) ==> self.swap_with_master(w).tiling.master() == Some(w),
            self.manages(w) ==> self.swap_with_master(w).focused() == Some(w),
            self.swap_with_master(w).tiling.screen == self.tiling.screen,
            self.swap_with_master(w).tiling.layouter == self.tiling.layouter,
    {
        if self.manages(w) {
            let tiled = if self.floating.contains(w) {
                self.float_or_tile(w, FloatOrTile::Tile)
            } else {
                self
            };
            self.lemma_manages(w);
            if self.floating.contains(w) {
                self.lemma_float_or_tile(w, FloatOrTile::Tile);
            }
            tiled.lemma_manages(w);
            tiled.tiling.lemma_swap(w, PrevOrNext::Next);
        }
    }

    /// Swapping neighbours keeps the state well formed, the windows and the
    /// focus.
    pub proof fn lemma_swap_neighbor(self, dir: PrevOrNext)
        requires
            self.wf(),
        ensures
            self.swap_neighbor(dir).wf(),
            self.swap_neighbor(dir).managed() == self.managed(),
            self.swap_neighbor(dir).focused() == self.focused(),
            self.swap_neighbor(dir).tiling.screen == self.tiling.screen,
            self.swap_neighbor(dir).tiling.layouter == self.tiling.layouter,
    {
        let tiled = match self.focus {
            Some(i) => self.toggle_floating(self.floating[i]),
            None => self,
        };
        if let Some(i) = self.focus {
            let f = self.floating[i];
            assert(self.floating.contains(f));
            self.lemma_toggle_floating(f);
            // The window that had the focus is a tile now, and still has it.
            tiled.lemma_manages(f);
            tiled.lemma_focused_is_managed();
            assert(tiled.focus is None);
        }
        tiled.tiling.lemma_swap(0, dir);
    }

    /// No window is listed twice among the managed windows.
    pub proof fn lemma_windows_distinct(self)
        requires
            self.wf(),
        ensures
            self.windows().no_duplicates(),
            self.windows().to_set() == self.managed(),
    {
        assert forall|i: int, j: int|
            0 <= i < self.tiling.tiles.len() && 0 <= j < self.floating.len() implies self.tiling.tiles[i]
            != self.floating[j] by {
            assert(self.tiling.tiles.contains(self.tiling.tiles[i]));
            assert(self.floating.contains(self.floating[j]));
            self.lemma_manages(self.floating[j]);
        }
        vstd::seq_lib::lemma_no_dup_in_concat(self.tiling.tiles, self.floating);
        vstd::seq_lib::seq_to_set_distributes_over_add(self.tiling.tiles, self.floating);
    }

    /// A floating window that has the focus is the topmost entry of the
    /// layout.
    pub proof fn lemma_focused_float_on_top(self)
        requires
            self.wf(),
            self.focus is Some,
        ensures
            self.layout().entries.len() > 0,
            self.layout().entries.last() == (self.focused()->0, self.own[self.focused()->0]),
            self.layout().focused == self.focused(),
    {
        let top = self.stack.len() - 1;
        assert(self.floating_entries()[top] == (self.stack[top], self.own[self.stack[top]]));
    }

    /// The layout shows the managed windows, and each of them once: the
    /// tiles, and above them the floating windows.
    pub proof fn lemma_layout_shows_managed(self)
        requires
            self.wf(),
        ensures
            self.layout().shown() == self.tiling.tiles + self.stack,
            self.layout().shown().no_duplicates(),
            self.layout().shown().to_set() == self.managed(),
    {
        let shown = self.layout().shown();
        let both = self.tiling.tiles + self.stack;
        assert(shown =~= both);
        assert forall|i: int, j: int|
            0 <= i < self.tiling.tiles.len() && 0 <= j < self.stack.len() implies self.tiling.tiles[i]
            != self.stack[j] by {
            assert(self.tiling.tiles.contains(self.tiling.tiles[i]));
            assert(self.stack.contains(self.stack[j]));
            self.lemma_manages(self.stack[j]);
        }
        vstd::seq_lib::lemma_no_dup_in_concat(self.tiling.tiles, self.stack);
        vstd::seq_lib::seq_to_set_distributes_over_add(self.tiling.tiles, self.stack);
    }
}

impl FloatState {
    /// Whether a step in direction `dir` and a step back leave the stack as
    /// it is. Without windows they do. With windows, a window has the focus,
    /// and the window that the first step visits, if it floats, lies where
    /// the two steps put it, which is just below the focused floating
    /// window, or on top where a tile has the focus.
    pub open spec fn stack_survives(self, dir: PrevOrNext) -> bool {
        let home = self.focused();
        let via = self.cycle_target(dir);
        let top = self.stack.len() - 1;
        self.windows().len() == 0 || {
            &&& home is Some
            &&& via is Some && self.is_floating(via->0) && via != home ==> if self.focus
                is Some {
                top >= 1 && self.stack[top - 1] == via->0
            } else {
                self.stack[top] == via->0
            }
        }
    }

    /// Toggling the floating mode of a window twice restores what the
    /// manager reports of it, mode and rectangle, and keeps the focus. This
    /// holds of a floating window, and of a tile whose rectangle is that of
    /// the last tile: a window that is tiled again becomes the last tile.
    pub proof fn lemma_toggle_floating_twice(self, w: Window)
        requires
            self.wf(),
            self.manages(w),
            self.is_floating(w) || self.info(w).geometry == self.tiling.tile_geometry(
                self.tiling.tiles.len() - 1,
            ),
        ensures
            self.toggle_floating(w).toggle_floating(w).info(w) == self.info(w),
            self.toggle_floating(w).toggle_floating(w).real_info(w) == self.real_info(w),
            self.toggle_floating(w).toggle_floating(w).focused() == self.focused(),
            self.toggle_floating(w).toggle_floating(w).managed() == self.managed(),
    {
        let once = self.toggle_floating(w);
        let twice = once.toggle_floating(w);
        self.lemma_manages(w);
        self.lemma_toggle_floating(w);
        once.lemma_manages(w);
        once.lemma_toggle_floating(w);
        twice.lemma_manages(w);
        lemma_without(self.tiling.tiles, w);
        if !self.is_floating(w) {
            lemma_push(without(self.tiling.tiles, w), w);
            lemma_index_of(twice.tiling.tiles, w, twice.tiling.tiles.len() - 1);
        }
    }

    /// A tile that never floated and whose rectangle was never set floats,
    /// once toggled, where its tile was.
    pub proof fn lemma_tile_floats_where_it_was(self, w: Window)
        requires
            self.wf(),
            self.tiling.manages(w),
            !self.own.contains_key(w),
        ensures
            self.toggle_floating(w).is_floating(w),
            self.toggle_floating(w).info(w).geometry == self.info(w).geometry,
    {
        self.lemma_manages(w);
        self.lemma_toggle_floating(w);
        self.toggle_floating(w).lemma_manages(w);
    }

    /// From a state in which a window has the focus, or in which there is no
    /// window, a step along the ring and a step back restore the focus.
    pub proof fn lemma_cycle_restores_focus(self, dir: PrevOrNext)
        requires
            self.wf(),
            self.focused() is Some || self.windows().len() == 0,
        ensures
            self.cycle(dir).cycle(dir.reverse()).focused() == self.focused(),
    {
        if self.windows().len() == 0 {
            assert(self.cycle_target(dir) is None);
            assert(self.cycle(dir).windows() =~= self.windows());
            assert(self.cycle(dir).cycle_target(dir.reverse()) is None);
        } else {
            self.lemma_step_and_back(dir);
        }
    }

    /// The step back from where a step along the ring leads goes to the
    /// window that had the focus.
    proof fn lemma_step_and_back(self, dir: PrevOrNext)
        requires
            self.wf(),
            self.focused() is Some,
        ensures
            self.cycle(dir).cycle(dir.reverse()).focused() == self.focused(),
    {
        let there = self.cycle(dir);
        let via = self.cycle_target(dir);
        self.lemma_cycle(dir);
        self.lemma_cycle_target(dir);
        there.lemma_cycle(dir.reverse());
        self.lemma_manages(via->0);
        let n = self.floating.len() as int;
        let m = self.tiling.tiles.len() as int;
        match self.focus {
            Some(i) => {
                if !at_edge(i, dir, n) {
                    lemma_index_of(self.floating, via->0, step(i, dir, n));
                } else if m > 0 {
                    lemma_index_of(self.tiling.tiles, via->0, entry(dir, m));
                } else {
                    lemma_index_of(self.floating, via->0, entry(dir, n));
                }
            },
            None => {
                let t = self.tiling.focus->0;
                if !at_edge(t, dir, m) {
                    lemma_index_of(self.tiling.tiles, via->0, step(t, dir, m));
                } else if n > 0 {
                    lemma_index_of(self.floating, via->0, entry(dir, n));
                } else {
                    lemma_index_of(self.tiling.tiles, via->0, entry(dir, m));
                }
            },
        }
    }

    /// Where the stack survives the two steps, a step along the ring and a
    /// step back restore the focus and the layout, and so the order in which
    /// the windows are drawn.
    pub proof fn lemma_cycle_there_and_back(self, dir: PrevOrNext)
        requires
            self.wf(),
            self.stack_survives(dir),
        ensures
            self.cycle(dir).cycle(dir.reverse()).focused() == self.focused(),
            self.cycle(dir).cycle(dir.reverse()).layout() == self.layout(),
    {
        let there = self.cycle(dir);
        let back = there.cycle(dir.reverse());
        if self.windows().len() == 0 {
            assert(self.cycle_target(dir) is None);
            assert(there.windows() =~= self.windows());
            assert(there.cycle_target(dir.reverse()) is None);
            assert(self.tiling.focus is None);
            assert(self.focus is None);
            assert(back.tiling.entries() =~= self.tiling.entries());
            assert(back.floating_entries() =~= self.floating_entries());
        } else {
            self.lemma_steps_keep_stack(dir);
        }
    }

    /// Where the stack survives them, the two steps leave the layout as it
    /// is.
    proof fn lemma_steps_keep_stack(self, dir: PrevOrNext)
        requires
            self.wf(),
            self.windows().len() > 0,
            self.stack_survives(dir),
        ensures
            self.cycle(dir).cycle(dir.reverse()).focused() == self.focused(),
            self.cycle(dir).cycle(dir.reverse()).layout() == self.layout(),
    {
        let there = self.cycle(dir);
        let back = there.cycle(dir.reverse());
        let via = self.cycle_target(dir)->0;
        let home = self.focused()->0;
        self.lemma_cycle_restores_focus(dir);
        self.lemma_cycle(dir);
        self.lemma_cycle_target(dir);
        there.lemma_cycle(dir.reverse());
        there.lemma_cycle_target(dir.reverse());
        self.lemma_focused_is_managed();
        self.lemma_manages(via);
        self.lemma_manages(home);
        there.lemma_manages(home);
        self.lemma_focus_on(Some(via));
        there.lemma_focus_on(Some(home));
        if let Some(i) = self.focus {
            assert(self.stack.last() == home);
        }
        if self.is_floating(via) {
            lemma_raised(self.stack, via);
        }
        if self.is_floating(home) {
            lemma_raised(there.stack, home);
            if self.is_floating(via) && via != home {
                let top = self.stack.len() - 1;
                lemma_index_of(self.stack, via, top - 1);
                lemma_remove(self.stack, top - 1);
                let lifted = raised(self.stack, via);
                assert(lifted[top - 1] == home);
                lemma_index_of(lifted, home, top - 1);
                lemma_remove(lifted, top - 1);
                assert(raised(lifted, home) =~= self.stack);
            }
        }
        assert(back.stack == self.stack);
        assert(back.floating_entries() =~= self.floating_entries());
        assert(back.tiling.entries() =~= self.tiling.entries());
    }

    /// Where a tile has the focus, or no window, swapping the focused
    /// window with its neighbour one way and then the other way restores the
    /// state, and so the order of the tiles.
    pub proof fn lemma_swap_there_and_back(self, dir: PrevOrNext)
        requires
            self.wf(),
            self.focus is None,
        ensures
            self.swap_neighbor(dir).swap_neighbor(dir.reverse()) == self,
    {
        self.tiling.lemma_swap_there_and_back(dir);
    }
}

/// A window manager that tiles windows or lets them float above the tiles.
#[derive(Clone, Debug)]
pub struct FloatingWM {
    /// The floating windows, in the order in which they were added.
    pub floating_windows: Vec<Window>,
    /// The floating windows, in the order in which they are drawn.
    pub stack_order_floating_windows: Vec<Window>,
    /// The index of the focused window in `floating_windows`. `None` if no
    /// window is focused or the focused window is tiled.
    pub focused_index: Option<usize>,
    /// The wrapped window manager that takes care of the tiled windows.
    pub tiling_wm: TilingWM<GappedLayouter<SimpleLayouter>>,
    /// The `WindowWithInfo` of each managed window.
    pub infos: HashMap<Window, WindowWithInfo>,
    /// The geometry of its own of each window that has one.
    pub own_geometry: HashMap<Window, Geometry>,
}

impl View for FloatingWM {
    type V = FloatState;

    open spec fn view(&self) -> FloatState {
        FloatState {
            tiling: self.tiling_wm@,
            floating: self.floating_windows@,
            stack: self.stack_order_floating_windows@,
            focus: match self.focused_index {
                Some(i) => Some(i as int),
                None => None,
            },
            infos: self.infos@,
            own: self.own_geometry@,
        }
    }
}

impl FloatingWM {
    /// Whether the manager is in a valid state.
    pub open spec fn wf(&self) -> bool {
        self@.wf()
    }

    pub fn new(screen: Screen) -> (wm: FloatingWM)
        ensures
            wm@ == FloatState::init(screen),
            wm.wf(),
    {
        let wm = FloatingWM {
            floating_windows: Vec::new(),
            stack_order_floating_windows: Vec::new(),
            focused_index: None,
            tiling_wm: TilingWM::new(screen),
            infos: HashMap::new(),
            own_geometry: HashMap::new(),
        };
        proof {
            assert(wm@.managed() =~= wm@.infos.dom());
            assert(wm@.stack.to_set() =~= wm@.floating.to_set());
        }
        wm
    }

    pub fn get_windows(&self) -> (windows: Vec<Window>)
        ensures
            windows@ == self@.windows(),
            self.wf() ==> windows@.no_duplicates(),
    {
        proof {
            if self.wf() {
                self@.lemma_windows_distinct();
            }
        }
        let mut windows = self.tiling_wm.get_windows();
        let mut floating = self.floating_windows.clone();
        windows.append(&mut floating);
        windows
    }

    pub fn is_managed(&self, window: Window) -> (managed: bool)
        ensures
            managed == self@.manages(window),
    {
        self.is_floating(window) || self.tiling_wm.is_managed(window)
    }

    pub fn is_floating(&self, window: Window) -> (floating: bool)
        ensures
            floating == self@.is_floating(window),
    {
        position(&self.floating_windows, window).is_some()
    }

    pub fn add_window(&mut self, window_with_info: WindowWithInfo) -> (result: Result<(), WMError>)
        requires
            old(self).wf(),
        ensures
            result == Ok::<(), WMError>(()),
            final(self)@ == old(self)@.add(window_with_info),
            final(self).wf(),
    {
        let window = window_with_info.window;
        proof {
            self@.lemma_add(window_with_info);
            self@.lemma_manages(window);
        }
        if !self.is_managed(window) {
            match window_with_info.float_or_tile {
                FloatOrTile::Float => {
                    proof {
                        lemma_push(self@.floating, window);
                        lemma_push(self@.stack, window);
                    }
                    self.floating_windows.push(window);
                    self.stack_order_floating_windows.push(window);
                    self.own_geometry.insert(window, window_with_info.geometry);
                    self.focused_index = None;
                },
                FloatOrTile::Tile => {
                    proof {
                        self@.tiling.lemma_add(window);
                    }
                    self.focused_index = None;
                    let _ = self.tiling_wm.add_window(window_with_info);
                },
            }
            // Add the window info to the wm
            self.infos.insert(window, window_with_info);
            proof {
                assert(self@.managed() =~= old(self)@.managed().insert(window));
            }
            // Focus on this new window
            return self.focus_window(Some(window));
        }
        Ok(())
    }

    pub fn remove_window(&mut self, window: Window) -> (result: Result<(), WMError>)
        requires
            old(self).wf(),
        ensures
            result == (if old(self)@.manages(window) {
                Ok::<(), WMError>(())
            } else {
                Err(WMError::UnknownWindow(window))
            }),
            final(self)@ == old(self)@.remove(window),
            final(self).wf(),
    {
        proof {
            self@.lemma_remove(window);
            self@.lemma_manages(window);
        }
        // Remove the window info from the wm
        self.infos.remove(&window);
        self.own_geometry.remove(&window);
        if self.tiling_wm.is_managed(window) {
            self.tiling_wm.remove_window(window)
        } else {
            match position(&self.stack_order_floating_windows, window) {
                Some(k) => {
                    proof {
                        lemma_index_of(self@.stack, window, k as int);
                    }
                    self.stack_order_floating_windows.remove(k);
                },
                None => {},
            }
            match position(&self.floating_windows, window) {
                None => {
                    proof {
                        assert(self@.infos =~= old(self)@.infos);
                    }
                    Err(WMError::UnknownWindow(window))
                },
                Some(i) => {
                    proof {
                        lemma_index_of(self@.floating, window, i as int);
                        old(self)@.lemma_without_floating(window);
                    }
                    self.floating_windows.remove(i);
                    let focused_index = self.focused_index;
                    self.focused_index = None;
                    proof {
                        assert(self@ == old(self)@.without_floating(window));
                    }
                    match focused_index {
                        Some(j) => {
                            if j < i {
                                // The focused window stands before the removed one
                                self.focused_index = Some(j);
                                Ok(())
                            } else if i > 0 {
                                // Focus the window before the removed one
                                let previous = self.floating_windows[i - 1];
                                proof {
                                    assert(previous == old(self)@.floating[i - 1]);
                                    self@.lemma_manages(previous);
                                }
                                self.focus_window(Some(previous))
                            } else {
                                Ok(())
                            }
                        },
                        None => Ok(()),
                    }
                },
            }
        }
    }

    pub fn get_window_layout(&self) -> (layout: WindowLayout)
        requires
            self.wf(),
        ensures
            layout@ == self@.layout(),
    {
        let focused_window = self.get_focused_window();
        let mut windows: Vec<(Window, Geometry)> = self.tiling_wm.get_window_layout().windows;
        let mut i: usize = 0;
        while i < self.stack_order_floating_windows.len()
            invariant
                self.wf(),
                i <= self.stack_order_floating_windows.len(),
                windows@ == self@.tiling.entries() + self@.floating_entries().take(i as int),
            decreases self.stack_order_floating_windows.len() - i,
        {
            let w = self.stack_order_floating_windows[i];
            proof {
                assert(self@.stack.contains(w));
                self@.lemma_manages(w);
                assert(self@.floating_entries().take(i + 1) =~= self@.floating_entries().take(
                    i as int,
                ).push(self@.floating_entries()[i as int]));
            }
            windows.push((w, self.get_geom(&w)));
            i += 1;
        }
        proof {
            assert(self@.floating_entries().take(i as int) =~= self@.floating_entries());
        }
        WindowLayout { focused_window: focused_window, windows: windows }
    }

    pub fn focus_window(&mut self, window: Option<Window>) -> (result: Result<(), WMError>)
        requires
            old(self).wf(),
        ensures
            result == (match window {
                Some(w) if !old(self)@.manages(w) => Err(WMError::UnknownWindow(w)),
                _ => Ok::<(), WMError>(()),
            }),
            final(self)@ == old(self)@.focus_on(window),
            final(self).wf(),
    {
        proof {
            self@.lemma_focus_on(window);
        }
        match window {
            None => {
                self.focused_index = None;
                self.tiling_wm.focus_window(None)
            },
            Some(w) => {
                if self.tiling_wm.is_managed(w) {
                    self.focused_index = None;
                    self.tiling_wm.focus_window(Some(w))
                } else {
                    match position(&self.floating_windows, w) {
                        Some(i) => {
                            proof {
                                self@.lemma_manages(w);
                                lemma_index_of(self@.floating, w, i as int);
                            }
                            // w is floating, so the stack holds it
                            let index = position(&self.stack_order_floating_windows, w).unwrap();
                            proof {
                                lemma_index_of(self@.stack, w, index as int);
                            }
                            self.stack_order_floating_windows.remove(index);
                            self.stack_order_floating_windows.push(w);
                            self.focused_index = Some(i);
                            self.tiling_wm.focus_window(None)
                        },
                        None => Err(WMError::UnknownWindow(w)),
                    }
                }
            },
        }
    }

    /// Moves the focus one step along the ring of the floating windows, in
    /// the order in which they came, followed by the tiles.
    pub fn cycle_focus(&mut self, dir: PrevOrNext)
        requires
            old(self).wf(),
        ensures
            final(self)@ == old(self)@.cycle(dir),
            final(self).wf(),
    {
        proof {
            self@.lemma_cycle(dir);
            self@.lemma_cycle_target(dir);
        }
        let target = match self.focused_index {
            Some(i) => {
                match self.cycle_index_helper(i, dir) {
                    Some(k) => Some(self.floating_windows[k]),
                    None => {
                        // the focus leaves the floating windows
                        self.focused_index = None;
                        self.tiling_wm.cycle_focus(dir);
                        match self.tiling_wm.get_focused_window() {
                            Some(w) => Some(w),
                            // there is no tile to go to
                            None => self.ring_entry(dir),
                        }
                    },
                }
            },
            None => {
                if self.tiling_wm.get_focused_window().is_none() {
                    self.ring_entry(dir)
                } else {
                    // focus is in the tiling_wm
                    self.tiling_wm.cycle_focus_helper(dir);
                    match self.tiling_wm.get_focused_window() {
                        Some(w) => Some(w),
                        // the focus has left the tiles
                        None => self.ring_entry(dir),
                    }
                }
            },
        };
        proof {
            assert(target == old(self)@.cycle_target(dir));
            assert(self@.focus_on(target) == old(self)@.focus_on(target));
        }
        // focus_window() restacks the windows if necessary
        let _ = self.focus_window(target);
    }

    pub fn get_window_info(&self, window: Window) -> (result: Result<WindowWithInfo, WMError>)
        requires
            self.wf(),
        ensures
            result == (if self@.manages(window) {
                Ok::<WindowWithInfo, WMError>(self@.info(window))
            } else {
                Err(WMError::UnknownWindow(window))
            }),
    {
        proof {
            self@.lemma_manages(window);
        }
        match self.tiling_wm.get_window_info(window) {
            Ok(info) => Ok(info),
            Err(_) => match self.infos.get(&window) {
                None => Err(WMError::UnknownWindow(window)),
                Some(wi) => Ok(
                    WindowWithInfo {
                        window: wi.window,
                        geometry: self.get_geom(&window),
                        float_or_tile: FloatOrTile::Float,
                        fullscreen: false,
                    },
                ),
            },
        }
    }

    pub fn get_screen(&self) -> (screen: Screen)
        ensures
            screen == self@.tiling.screen,
    {
        self.tiling_wm.get_screen()
    }

    pub fn resize_screen(&mut self, screen: Screen)
        ensures
            final(self)@ == old(self)@.resize(screen),
            old(self).wf() ==> final(self).wf(),
    {
        self.tiling_wm.resize_screen(screen)
    }

    pub fn get_focused_window(&self) -> (focused: Option<Window>)
        requires
            self.wf(),
        ensures
            focused == self@.focused(),
    {
        match self.focused_index {
            Some(i) => Some(self.floating_windows[i]),
            None => self.tiling_wm.get_focused_window(),
        }
    }

    pub fn get_master_window(&self) -> (master: Option<Window>)
        ensures
            master == self@.tiling.master(),
    {
        self.tiling_wm.get_master_window()
    }

    /// If the passed window is a floating window, it will first be tiled
    /// before the swap happens.
    pub fn swap_with_master(&mut self, window: Window) -> (result: Result<(), WMError>)
        requires
            old(self).wf(),
        ensures
            result == (if old(self)@.manages(window) {
                Ok::<(), WMError>(())
            } else {
                Err(WMError::UnknownWindow(window))
            }),
            final(self)@ == old(self)@.swap_with_master(window),
            final(self).wf(),
    {
        proof {
            self@.lemma_swap_with_master(window);
            self@.lemma_manages(window);
        }
        if !self.is_managed(window) {
            return Err(WMError::UnknownWindow(window));
        }
        if self.is_floating(window) {
            proof {
                self@.lemma_float_or_tile(window, FloatOrTile::Tile);
            }
            let _ = self.float_or_tile_window(&window, FloatOrTile::Tile);
        }
        proof {
            self@.lemma_manages(window);
        }
        // The master takes the focus, whichever window had it
        self.focused_index = None;
        self.tiling_wm.swap_with_master(window)
    }

    /// If the focused window is a floating window, it will first be tiled.
    pub fn swap_windows(&mut self, dir: PrevOrNext)
        requires
            old(self).wf(),
        ensures
            final(self)@ == old(self)@.swap_neighbor(dir),
            final(self).wf(),
    {
        proof {
            self@.lemma_swap_neighbor(dir);
        }
        if let Some(i) = self.focused_index {
            let focused_window = self.floating_windows[i];
            proof {
                self@.lemma_toggle_floating(focused_window);
            }
            let _ = self.toggle_floating(focused_window);
        }
        self.tiling_wm.swap_windows(dir)
    }

    pub fn get_floating_windows(&self) -> (windows: Vec<Window>)
        ensures
            windows@ == self@.floating,
    {
        self.floating_windows.clone()
    }

    pub fn toggle_floating(&mut self, window: Window) -> (result: Result<(), WMError>)
        requires
            old(self).wf(),
        ensures
            result == (if old(self)@.manages(window) {
                Ok::<(), WMError>(())
            } else {
                Err(WMError::UnknownWindow(window))
            }),
            final(self)@ == old(self)@.toggle_floating(window),
            final(self).wf(),
    {
        proof {
            self@.lemma_toggle_floating(window);
            self@.lemma_focused_is_managed();
        }
        if !self.is_managed(window) {
            return Err(WMError::UnknownWindow(window));
        }
        let current_focused_window = self.get_focused_window();
        let float_or_tile = if self.is_floating(window) {
            FloatOrTile::Tile
        } else {
            FloatOrTile::Float
        };
        proof {
            self@.lemma_float_or_tile(window, float_or_tile);
        }
        let _ = self.float_or_tile_window(&window, float_or_tile);
        // Refocus the window that had the focus
        self.focus_window(current_focused_window)
    }

    pub fn set_window_geometry(&mut self, window: Window, new_geometry: Geometry) -> (result:
        Result<(), WMError>)
        requires
            old(self).wf(),
        ensures
            result == (if old(self)@.manages(window) {
                Ok::<(), WMError>(())
            } else {
                Err(WMError::UnknownWindow(window))
            }),
            final(self)@ == old(self)@.set_geometry(window, new_geometry),
            final(self).wf(),
    {
        proof {
            self@.lemma_set_geometry(window, new_geometry);
            self@.lemma_manages(window);
        }
        if !self.infos.contains_key(&window) {
            return Err(WMError::UnknownWindow(window));
        }
        self.own_geometry.insert(window, new_geometry);
        Ok(())
    }

    pub fn get_gap(&self) -> (g: GapSize)
        ensures
            g == self@.tiling.layouter.gap(),
    {
        self.tiling_wm.get_gap()
    }

    pub fn set_gap(&mut self, gapsize: GapSize)
        ensures
            final(self)@ == old(self)@.set_gap(gapsize),
            old(self).wf() ==> final(self).wf(),
    {
        self.tiling_wm.set_gap(gapsize)
    }

    /// Get the geometry of its own of this window, if it has one.
    pub fn get_own_geometry(&self, window: Window) -> (own: Option<Geometry>)
        ensures
            own == self@.own_geometry(window),
    {
        match self.own_geometry.get(&window) {
            Some(g) => Some(*g),
            None => None,
        }
    }

    /// Get the geometry of its own of this window.
    pub fn get_geom(&self, window: &Window) -> (g: Geometry)
        requires
            self@.own.contains_key(*window),
        ensures
            g == self@.own[*window],
    {
        *self.own_geometry.get(window).unwrap()
    }

    /// Return the next index in the direction of `dir`, or `None` where the
    /// step leaves the floating windows.
    pub fn cycle_index_helper(&self, i: usize, dir: PrevOrNext) -> (next: Option<usize>)
        requires
            i < self.floating_windows.len(),
        ensures
            match next {
                Some(k) => !at_edge(i as int, dir, self@.floating.len() as int) && k == step(
                    i as int,
                    dir,
                    self@.floating.len() as int,
                ),
                None => at_edge(i as int, dir, self@.floating.len() as int),
            },
    {
        let nb_windows = self.floating_windows.len();
        let is_going_to_wrap = match dir {
            PrevOrNext::Prev => i == 0,
            PrevOrNext::Next => i == nb_windows - 1,
        };
        if is_going_to_wrap {
            None
        } else {
            Some(
                match dir {
                    PrevOrNext::Prev => i - 1,
                    PrevOrNext::Next => i + 1,
                },
            )
        }
    }

    /// Float or tile the window.
    pub fn float_or_tile_window(&mut self, window: &Window, float_or_tile: FloatOrTile) -> (result:
        Result<(), WMError>)
        requires
            old(self).wf(),
        ensures
            result == (if old(self)@.manages(*window) {
                Ok::<(), WMError>(())
            } else {
                Err(WMError::UnknownWindow(*window))
            }),
            final(self)@ == (if old(self)@.manages(*window) {
                old(self)@.float_or_tile(*window, float_or_tile)
            } else {
                old(self)@
            }),
            final(self).wf(),
    {
        proof {
            self@.lemma_manages(*window);
            self@.lemma_remove(*window);
        }
        let kept = match self.infos.get(window) {
            None => {
                return Err(WMError::UnknownWindow(*window));
            },
            Some(info) => *info,
        };
        let own_geometry = self.get_own_geometry(*window);
        let wi = WindowWithInfo {
            window: kept.window,
            geometry: self.floating_geometry(*window),
            float_or_tile: float_or_tile,
            fullscreen: kept.fullscreen,
        };
        proof {
            self@.lemma_float_or_tile(*window, float_or_tile);
        }
        match self.remove_window(*window) {
            Err(e) => Err(e),
            Ok(()) => {
                let result = self.add_window(wi);
                if let Some(g) = own_geometry {
                    self.own_geometry.insert(*window, g);
                }
                result
            },
        }
    }

    /// The geometry at which a managed window floats, or would float: its
    /// own geometry if it has one, else the geometry of its tile.
    pub fn floating_geometry(&self, window: Window) -> (g: Geometry)
        requires
            self.wf(),
            self@.manages(window),
        ensures
            g == self@.floating_geometry(window),
    {
        proof {
            self@.lemma_manages(window);
        }
        match self.own_geometry.get(&window) {
            Some(g) => *g,
            None => self.tiling_wm.get_window_info(window).unwrap().geometry,
        }
    }

    /// The window at which the ring is entered in the direction of `dir`:
    /// a floating window if there is one, else a tile.
    fn ring_entry(&self, dir: PrevOrNext) -> (target: Option<Window>)
        ensures
            target == (if self@.floating.len() > 0 {
                Some(self@.floating[entry(dir, self@.floating.len() as int)])
            } else if self@.tiling.tiles.len() > 0 {
                Some(self@.tiling.tiles[entry(dir, self@.tiling.tiles.len() as int)])
            } else {
                None
            }),
    {
        let n = self.floating_windows.len();
        let m = self.tiling_wm.windows.len();
        if n >= 1 {
            match dir {
                PrevOrNext::Next => Some(self.floating_windows[0]),
                PrevOrNext::Prev => Some(self.floating_windows[n - 1]),
            }
        } else if m >= 1 {
            match dir {
                PrevOrNext::Next => Some(self.tiling_wm.windows[0]),
                PrevOrNext::Prev => Some(self.tiling_wm.windows[m - 1]),
            }
        } else {
            None
        }
    }
}

impl RealWindowInfo for FloatingWM {
    open spec fn valid(&self) -> bool {
        self.wf()
    }

    open spec fn knows(&self, window: Window) -> bool {
        self@.manages(window)
    }

    open spec fn real_window_info(&self, window: Window) -> WindowWithInfo {
        self@.real_info(window)
    }

    /// A tile is reported with the geometry that it has after
    /// `toggle_floating`.
    fn get_real_window_info(&self, window: Window) -> (result: Result<WindowWithInfo, WMError>) {
        proof {
            self@.lemma_manages(window);
        }
        let kept = match self.infos.get(&window) {
            None => {
                return Err(WMError::UnknownWindow(window));
            },
            Some(wi) => *wi,
        };
        Ok(
            WindowWithInfo {
                window: kept.window,
                geometry: self.floating_geometry(window),
                float_or_tile: if self.is_floating(window) {
                    FloatOrTile::Float
                } else {
                    FloatOrTile::Tile
                },
                fullscreen: kept.fullscreen,
            },
        )
    }
}

} // verus!
