//! The minimise layer: a float layer, and beside it the minimised windows.
//! A minimised window is managed but not shown; what was last known of it
//! is kept so that it can be shown again.

use vstd::prelude::*;
use std::collections::HashMap;
use crate::error::WMError;
use crate::floating::{FloatState, FloatingWM};
use crate::layouter::{GapSupport, Layouter};
use crate::real_window_info::RealWindowInfo;
use crate::seqs::{lemma_index_of, lemma_push, lemma_without, position, without};
use crate::types::{
    FloatOrTile, GapSize, Geometry, LayoutView, PrevOrNext, Screen, Window, WindowLayout,
    WindowWithInfo,
};

verus! {

broadcast use vstd::std_specs::hash::group_hash_axioms;

/// The state of the minimise layer as a mathematical value.
pub struct MinState {
    /// The windows that are not minimised.
    pub wrapped: FloatState,
    /// The minimised windows, in the order in which they were minimised.
    pub minimised: Seq<Window>,
    /// What the manager reported of each minimised window when it was
    /// minimised.
    pub infos: Map<Window, WindowWithInfo>,
    /// The rectangle of its own of each minimised window that has one.
    pub own: Map<Window, Geometry>,
}

impl MinState {
    /// No window is minimised twice or minimised and shown; `infos` holds the
    /// minimised windows, none of them as a fullscreen window; a minimised
    /// floating window is reported at its own rectangle.
    pub open spec fn wf(self) -> bool {
        &&& self.wrapped.wf()
        &&& self.minimised.no_duplicates()
        &&& self.infos.dom() == self.minimised.to_set()
        &&& self.wrapped.managed().disjoint(self.minimised.to_set())
        &&& forall|w: Window|
            self.infos.contains_key(w) ==> (#[trigger] self.infos[w]).window == w
                && !self.infos[w].fullscreen
        &&& self.own.dom().subset_of(self.infos.dom())
        &&& forall|w: Window|
            self.own.contains_key(w) && self.infos[w].float_or_tile == FloatOrTile::Float ==> (
            #[trigger] self.own[w]) == self.infos[w].geometry
    }

    pub open spec fn is_minimised(self, w: Window) -> bool {
        self.infos.contains_key(w)
    }

    pub open spec fn manages(self, w: Window) -> bool {
        self.is_minimised(w) || self.wrapped.manages(w)
    }

    /// The set of the managed windows.
    pub open spec fn managed(self) -> Set<Window> {
        self.wrapped.managed() + self.minimised.to_set()
    }

    /// The managed windows: those that are shown, then the minimised ones.
    pub open spec fn windows(self) -> Seq<Window> {
        self.wrapped.windows() + self.minimised
    }

    pub open spec fn focused(self) -> Option<Window> {
        self.wrapped.focused()
    }

    pub open spec fn layout(self) -> LayoutView {
        self.wrapped.layout()
    }

    /// What the manager reports of a managed window; of a minimised one,
    /// what it reported when the window was minimised.
    pub open spec fn info(self, w: Window) -> WindowWithInfo {
        if self.is_minimised(w) {
            self.infos[w]
        } else {
            self.wrapped.info(w)
        }
    }

    /// What is needed to add a managed window again as it is: a minimised
    /// window as it was reported, at the rectangle of its own if it has one.
    pub open spec fn real_info(self, w: Window) -> WindowWithInfo {
        if self.is_minimised(w) {
            match self.own_geometry(w) {
                Some(g) => self.infos[w].with_geometry(g),
                None => self.infos[w],
            }
        } else {
            self.wrapped.real_info(w)
        }
    }

    pub open spec fn init(screen: Screen) -> MinState {
        MinState {
            wrapped: FloatState::init(screen),
            minimised: Seq::empty(),
            infos: Map::empty(),
            own: Map::empty(),
        }
    }

    /// A window that is minimised already changes nothing; any other goes to
    /// the float layer.
    pub open spec fn add(self, info: WindowWithInfo) -> MinState {
        if self.is_minimised(info.window) {
            self
        } else {
            MinState { wrapped: self.wrapped.add(info), ..self }
        }
    }

    pub open spec fn remove(self, w: Window) -> MinState {
        if self.is_minimised(w) {
            MinState {
                minimised: without(self.minimised, w),
                infos: self.infos.remove(w),
                own: self.own.remove(w),
                ..self
            }
        } else {
            MinState { wrapped: self.wrapped.remove(w), ..self }
        }
    }

    /// The rectangle of its own of `w`, if it has one.
    pub open spec fn own_geometry(self, w: Window) -> Option<Geometry> {
        if self.is_minimised(w) {
            if self.own.contains_key(w) {
                Some(self.own[w])
            } else {
                None
            }
        } else {
            self.wrapped.own_geometry(w)
        }
    }

    /// The float layer with the window of `info` added again, and with the
    /// rectangle of its own that the window had.
    pub open spec fn readmitted(
        below: FloatState,
        info: WindowWithInfo,
        own: Option<Geometry>,
    ) -> FloatState {
        match own {
            Some(g) => below.add(info).set_geometry(info.window, g),
            None => below.add(info),
        }
    }

    /// With the minimised window `w` shown again: it is added to the float
    /// layer as it was reported when it was minimised, with the rectangle of
    /// its own if it has one, and takes the focus.
    pub open spec fn restore(self, w: Window) -> MinState {
        MinState {
            wrapped: Self::readmitted(self.wrapped, self.infos[w], self.own_geometry(w)),
            minimised: without(self.minimised, w),
            infos: self.infos.remove(w),
            own: self.own.remove(w),
        }
    }

    /// With the shown window `w` minimised: it leaves the float layer; what
    /// the float layer reported of it is kept, and so is the rectangle of
    /// its own if it has one.
    pub open spec fn minimise(self, w: Window) -> MinState {
        MinState {
            wrapped: self.wrapped.remove(w),
            minimised: self.minimised.push(w),
            infos: self.infos.insert(w, self.wrapped.info(w)),
            own: match self.wrapped.own_geometry(w) {
                Some(g) => self.own.insert(w, g),
                None => self.own,
            },
        }
    }

    pub open spec fn toggle_minimised(self, w: Window) -> MinState {
        if self.is_minimised(w) {
            self.restore(w)
        } else if self.wrapped.manages(w) {
            self.minimise(w)
        } else {
            self
        }
    }

    /// With `w` shown, if it was minimised.
    pub open spec fn shown(self, w: Window) -> MinState {
        if self.is_minimised(w) {
            self.restore(w)
        } else {
            self
        }
    }

    /// With the focus on `target`; a minimised target is shown first.
    pub open spec fn focus_on(self, target: Option<Window>) -> MinState {
        match target {
            Some(w) => MinState { wrapped: self.shown(w).wrapped.focus_on(target), ..self.shown(w) },
            None => MinState { wrapped: self.wrapped.focus_on(None), ..self },
        }
    }

    pub open spec fn cycle(self, dir: PrevOrNext) -> MinState {
        MinState { wrapped: self.wrapped.cycle(dir), ..self }
    }

    /// With `w` as the focused master tile; a minimised `w` is shown first.
    pub open spec fn swap_with_master(self, w: Window) -> MinState {
        MinState { wrapped: self.shown(w).wrapped.swap_with_master(w), ..self.shown(w) }
    }

    pub open spec fn swap_neighbor(self, dir: PrevOrNext) -> MinState {
        MinState { wrapped: self.wrapped.swap_neighbor(dir), ..self }
    }

    /// With the mode of `w` flipped; a minimised `w` is shown first.
    pub open spec fn toggle_floating(self, w: Window) -> MinState {
        MinState { wrapped: self.shown(w).wrapped.toggle_floating(w), ..self.shown(w) }
    }

    /// With the own rectangle of `w` set; of a minimised window it is kept
    /// for when the window is shown again.
    pub open spec fn set_geometry(self, w: Window, geometry: Geometry) -> MinState {
        if self.is_minimised(w) {
            MinState {
                infos: self.infos.insert(w, self.infos[w].with_geometry(geometry)),
                own: self.own.insert(w, geometry),
                ..self
            }
        } else {
            MinState { wrapped: self.wrapped.set_geometry(w, geometry), ..self }
        }
    }

    pub open spec fn resize(self, screen: Screen) -> MinState {
        MinState { wrapped: self.wrapped.resize(screen), ..self }
    }

    pub open spec fn set_gap(self, gapsize: GapSize) -> MinState {
        MinState { wrapped: self.wrapped.set_gap(gapsize), ..self }
    }

    /// A window is managed where the set of the managed windows holds it,
    /// and it is not both minimised and shown.
    pub proof fn lemma_manages(self, w: Window)
        ensures
            self.wf() ==> (self.manages(w) <==> self.managed().contains(w)),
            self.wf() ==> (self.is_minimised(w) <==> self.minimised.contains(w)),
            self.wf() ==> !(self.is_minimised(w) && self.wrapped.manages(w)),
    {
        self.wrapped.lemma_manages(w);
        if self.wf() {
            assert(self.minimised.to_set().contains(w) <==> self.minimised.contains(w));
            assert(self.infos.dom().contains(w) <==> self.minimised.to_set().contains(w));
        }
    }

    /// Adding keeps the state well formed; the window is managed afterwards,
    /// next to those that were.
    pub proof fn lemma_add(self, info: WindowWithInfo)
        requires
            self.wf(),
        ensures
            self.add(info).wf(),
            self.add(info).managed() == self.managed().insert(info.window),
            self.add(info).minimised == self.minimised,
            !self.manages(info.window) ==> self.add(info).focused() == Some(info.window),
    {
        self.lemma_manages(info.window);
        self.wrapped.lemma_manages(info.window);
        if !self.is_minimised(info.window) {
            self.wrapped.lemma_add(info);
            assert(self.add(info).managed() =~= self.managed().insert(info.window));
        } else {
            assert(self.managed().insert(info.window) =~= self.managed());
        }
    }

    /// Removing keeps the state well formed; the window is gone afterwards,
    /// and no other.
    pub proof fn lemma_remove(self, w: Window)
        requires
            self.wf(),
        ensures
            self.remove(w).wf(),
            self.remove(w).managed() == self.managed().remove(w),
            !self.manages(w) ==> self.remove(w) == self,
    {
        self.lemma_manages(w);
        self.wrapped.lemma_manages(w);
        if self.is_minimised(w) {
            lemma_without(self.minimised, w);
            assert(self.remove(w).managed() =~= self.managed().remove(w));
        } else {
            self.wrapped.lemma_remove(w);
            assert(self.remove(w).managed() =~= self.managed().remove(w));
        }
    }

    /// Showing a minimised window again keeps the state well formed and the
    /// windows; the window is no longer minimised and has the focus.
    pub proof fn lemma_restore(self, w: Window)
        requires
            self.wf(),
            self.is_minimised(w),
        ensures
            self.restore(w).wf(),
            self.restore(w).managed() == self.managed(),
            self.restore(w).minimised == without(self.minimised, w),
            !self.restore(w).is_minimised(w),
            self.restore(w).wrapped.manages(w),
            self.restore(w).focused() == Some(w),
    {
        self.lemma_manages(w);
        self.wrapped.lemma_manages(w);
        self.wrapped.lemma_add(self.infos[w]);
        let added = self.wrapped.add(self.infos[w]);
        added.lemma_manages(w);
        if let Some(g) = self.own_geometry(w) {
            added.lemma_set_geometry(w, g);
        }
        lemma_without(self.minimised, w);
        self.restore(w).wrapped.lemma_manages(w);
        assert(self.restore(w).managed() =~= self.managed());
    }

    /// Minimising a shown window keeps the state well formed and the
    /// windows; the window is minimised afterwards, the last one to be.
    pub proof fn lemma_minimise(self, w: Window)
        requires
            self.wf(),
            self.wrapped.manages(w),
        ensures
            self.minimise(w).wf(),
            self.minimise(w).managed() == self.managed(),
            self.minimise(w).is_minimised(w),
            !self.minimise(w).wrapped.manages(w),
    {
        self.lemma_manages(w);
        self.wrapped.lemma_manages(w);
        self.wrapped.lemma_remove(w);
        lemma_push(self.minimised, w);
        self.minimise(w).wrapped.lemma_manages(w);
        assert(self.minimise(w).managed() =~= self.managed());
        assert(self.minimise(w).infos.dom() =~= self.infos.dom().insert(w));
    }

    /// Toggling keeps the state well formed and the windows, and flips
    /// whether the window is minimised.
    pub proof fn lemma_toggle_minimised(self, w: Window)
        requires
            self.wf(),
        ensures
            self.toggle_minimised(w).wf(),
            self.toggle_minimised(w).managed() == self.managed(),
            self.manages(w) ==> (self.toggle_minimised(w).is_minimised(w) <==> !self.is_minimised(
                w,
            )),
            !self.manages(w) ==> self.toggle_minimised(w) == self,
    {
        if self.is_minimised(w) {
            self.lemma_restore(w);
        } else if self.wrapped.manages(w) {
            self.lemma_minimise(w);
        }
    }

    /// Showing a window keeps the state well formed and the windows; the
    /// window is not minimised afterwards.
    pub proof fn lemma_shown(self, w: Window)
        requires
            self.wf(),
        ensures
            self.shown(w).wf(),
            self.shown(w).managed() == self.managed(),
            !self.shown(w).is_minimised(w),
            self.manages(w) <==> self.shown(w).wrapped.manages(w),
    {
        self.lemma_manages(w);
        if self.is_minimised(w) {
            self.lemma_restore(w);
        }
    }

    /// Focusing, cycling and swapping keep the state well formed and the
    /// windows.
    pub proof fn lemma_focus(self, target: Option<Window>, dir: PrevOrNext)
        requires
            self.wf(),
        ensures
            self.focus_on(target).wf(),
            self.focus_on(target).managed() == self.managed(),
            target is Some && self.manages(target->0) ==> self.focus_on(target).focused()
                == target,
            target is None ==> self.focus_on(target).focused() is None,
            self.cycle(dir).wf(),
            self.cycle(dir).managed() == self.managed(),
            self.swap_neighbor(dir).wf(),
            self.swap_neighbor(dir).managed() == self.managed(),
    {
        match target {
            Some(w) => {
                self.lemma_shown(w);
                self.shown(w).wrapped.lemma_focus_on(target);
                assert(self.focus_on(target).managed() =~= self.shown(w).managed());
            },
            None => {
                self.wrapped.lemma_focus_on(None);
                assert(self.focus_on(target).managed() =~= self.managed());
            },
        }
        self.wrapped.lemma_cycle(dir);
        self.wrapped.lemma_swap_neighbor(dir);
    }

    /// Swapping with the master, toggling the floating mode and setting a
    /// rectangle keep the state well formed and the windows.
    pub proof fn lemma_named(self, w: Window, geometry: Geometry)
        requires
            self.wf(),
        ensures
            self.swap_with_master(w).wf(),
            self.swap_with_master(w).managed() == self.managed(),
            self.manages(w) ==> self.swap_with_master(w).focused() == Some(w),
            self.toggle_floating(w).wf(),
            self.toggle_floating(w).managed() == self.managed(),
            self.set_geometry(w, geometry).wf(),
            self.set_geometry(w, geometry).managed() == self.managed(),
            self.set_geometry(w, geometry).focused() == self.focused(),
    {
        self.lemma_shown(w);
        self.shown(w).wrapped.lemma_swap_with_master(w);
        self.shown(w).wrapped.lemma_toggle_floating(w);
        self.lemma_manages(w);
        if self.is_minimised(w) {
            assert(self.infos.insert(w, self.infos[w].with_geometry(geometry)).dom()
                =~= self.infos.dom());
            assert(self.own.insert(w, geometry).dom() =~= self.own.dom().insert(w));
        } else {
            self.wrapped.lemma_set_geometry(w, geometry);
        }
    }

    /// No window is listed twice among the managed windows.
    pub proof fn lemma_windows_distinct(self)
        requires
            self.wf(),
        ensures
            self.windows().no_duplicates(),
            self.windows().to_set() == self.managed(),
    {
        let shown = self.wrapped.windows();
        self.wrapped.lemma_windows_distinct();
        assert forall|i: int, j: int|
            0 <= i < shown.len() && 0 <= j < self.minimised.len() implies shown[i]
            != self.minimised[j] by {
            assert(shown.to_set().contains(shown[i]));
            assert(self.minimised.to_set().contains(self.minimised[j]));
        }
        vstd::seq_lib::lemma_no_dup_in_concat(shown, self.minimised);
        vstd::seq_lib::seq_to_set_distributes_over_add(shown, self.minimised);
    }

    /// Where the stack of the float layer survives them, a step of the focus
    /// along the ring and a step back restore the focus and the layout.
    pub proof fn lemma_cycle_there_and_back(self, dir: PrevOrNext)
        requires
            self.wf(),
            self.wrapped.stack_survives(dir),
        ensures
            self.cycle(dir).cycle(dir.reverse()).focused() == self.focused(),
            self.cycle(dir).cycle(dir.reverse()).layout() == self.layout(),
    {
        self.wrapped.lemma_cycle_there_and_back(dir);
    }

    /// Where a tile has the focus, or no window, swapping the focused
    /// window with its neighbour one way and then the other way restores the
    /// state.
    pub proof fn lemma_swap_there_and_back(self, dir: PrevOrNext)
        requires
            self.wf(),
            self.wrapped.focus is None,
        ensures
            self.swap_neighbor(dir).swap_neighbor(dir.reverse()) == self,
    {
        self.wrapped.lemma_swap_there_and_back(dir);
    }

    /// The layout shows the managed windows that are not minimised, and each
    /// of them once.
    pub proof fn lemma_layout_shows_unminimised(self)
        requires
            self.wf(),
        ensures
            self.layout().shown().no_duplicates(),
            self.layout().shown().to_set() == self.managed().difference(self.minimised.to_set()),
            forall|w: Window|
                self.layout().shown().contains(w) <==> self.manages(w) && !self.is_minimised(w),
    {
        self.wrapped.lemma_layout_shows_managed();
        assert(self.wrapped.managed() =~= self.managed().difference(self.minimised.to_set()));
        assert forall|w: Window|
            self.layout().shown().contains(w) <==> self.manages(w) && !self.is_minimised(
                w,
            ) by {
            self.lemma_manages(w);
            self.wrapped.lemma_manages(w);
            assert(self.layout().shown().to_set().contains(w) <==> self.layout().shown().contains(
                w,
            ));
        }
    }

    /// The rectangle of the last tile once `w` is a tile: the place that a
    /// window takes which is tiled again.
    pub open spec fn place_when_tiled_again(self, w: Window) -> Geometry {
        let tiling = self.wrapped.tiling;
        let n: int = if self.is_minimised(w) {
            tiling.tiles.len() as int + 1
        } else {
            tiling.tiles.len() as int
        };
        tiling.layouter.geom(n - 1, tiling.screen, n)
    }

    /// Toggling the minimised state of a window twice restores what the
    /// manager reports of it, mode and rectangle. This holds of a floating
    /// window, and of a tile whose rectangle is that of the last tile: a
    /// window that is tiled again becomes the last tile.
    pub proof fn lemma_toggle_minimised_twice(self, w: Window)
        requires
            self.wf(),
            self.manages(w),
            self.info(w).float_or_tile == FloatOrTile::Float || self.info(w).geometry
                == self.place_when_tiled_again(w),
        ensures
            self.toggle_minimised(w).toggle_minimised(w).info(w) == self.info(w),
            self.toggle_minimised(w).toggle_minimised(w).managed() == self.managed(),
            self.toggle_minimised(w).toggle_minimised(w).is_minimised(w) == self.is_minimised(w),
    {
        let once = self.toggle_minimised(w);
        let twice = once.toggle_minimised(w);
        self.lemma_manages(w);
        self.lemma_toggle_minimised(w);
        once.lemma_manages(w);
        once.lemma_toggle_minimised(w);
        twice.lemma_manages(w);
        self.wrapped.lemma_manages(w);
        once.wrapped.lemma_manages(w);
        twice.wrapped.lemma_manages(w);
        if self.is_minimised(w) {
            // shown again, then minimised: what is kept is what the float layer reports
            self.wrapped.lemma_add(self.infos[w]);
            self.lemma_reported_after_add(self.infos[w]);
            let added = self.wrapped.add(self.infos[w]);
            added.lemma_manages(w);
            if let Some(g) = self.own_geometry(w) {
                added.lemma_set_geometry(w, g);
            }
        } else {
            // minimised, then shown again with what the float layer reported
            self.wrapped.lemma_remove(w);
            once.lemma_reported_after_add(once.infos[w]);
            let added = once.wrapped.add(once.infos[w]);
            added.lemma_manages(w);
            once.wrapped.lemma_add(once.infos[w]);
            if let Some(g) = once.own_geometry(w) {
                added.lemma_set_geometry(w, g);
            }
        }
    }

    /// Toggling the floating mode of a window that is shown twice restores
    /// what the manager reports of it, mode and rectangle. This holds of a
    /// floating window, and of a tile whose rectangle is that of the last
    /// tile.
    pub proof fn lemma_toggle_floating_twice(self, w: Window)
        requires
            self.wf(),
            self.wrapped.manages(w),
            self.wrapped.is_floating(w) || self.info(w).geometry
                == self.wrapped.tiling.tile_geometry(self.wrapped.tiling.tiles.len() - 1),
        ensures
            self.toggle_floating(w).toggle_floating(w).info(w) == self.info(w),
            self.toggle_floating(w).toggle_floating(w).focused() == self.focused(),
    {
        let once = self.toggle_floating(w);
        self.lemma_manages(w);
        self.lemma_named(w, Geometry { x: 0, y: 0, width: 0, height: 0 });
        self.wrapped.lemma_toggle_floating(w);
        self.wrapped.lemma_manages(w);
        once.wrapped.lemma_manages(w);
        once.lemma_manages(w);
        self.wrapped.lemma_toggle_floating_twice(w);
    }

    /// What the float layer reports of a window that was just added: a
    /// floating window with the rectangle it came with, a tile with the
    /// rectangle of the last tile.
    pub proof fn lemma_reported_after_add(self, info: WindowWithInfo)
        requires
            self.wf(),
            !self.wrapped.manages(info.window),
        ensures
            self.wrapped.add(info).info(info.window) == (WindowWithInfo {
                window: info.window,
                geometry: if info.float_or_tile == FloatOrTile::Float {
                    info.geometry
                } else {
                    self.wrapped.tiling.layouter.geom(
                        self.wrapped.tiling.tiles.len() as int,
                        self.wrapped.tiling.screen,
                        self.wrapped.tiling.tiles.len() as int + 1,
                    )
                },
                float_or_tile: info.float_or_tile,
                fullscreen: false,
            }),
    {
        let w = info.window;
        let added = self.wrapped.add(info);
        self.wrapped.lemma_add(info);
        self.wrapped.lemma_manages(w);
        added.lemma_manages(w);
        if info.float_or_tile == FloatOrTile::Float {
            lemma_push(self.wrapped.floating, w);
            assert(added.floating.contains(w));
        } else {
            lemma_push(self.wrapped.tiling.tiles, w);
            lemma_index_of(added.tiling.tiles, w, self.wrapped.tiling.tiles.len() as int);
        }
    }
}

/// A window manager that can minimise windows. The float layer under it
/// takes care of the windows that are not minimised.
#[derive(Clone, Debug)]
pub struct MinimisingWM {
    /// The minimised windows, in the order in which they were minimised.
    pub minimised_windows: Vec<Window>,
    /// The wrapped window manager that takes care of the unminimised windows.
    pub wrapped_wm: FloatingWM,
    /// The `WindowWithInfo` of each minimised window.
    pub infos: HashMap<Window, WindowWithInfo>,
    /// The geometry of its own of each minimised window that has one.
    pub own_geometry: HashMap<Window, Geometry>,
}

impl View for MinimisingWM {
    type V = MinState;

    open spec fn view(&self) -> MinState {
        MinState {
            wrapped: self.wrapped_wm@,
            minimised: self.minimised_windows@,
            infos: self.infos@,
            own: self.own_geometry@,
        }
    }
}

impl MinimisingWM {
    /// Whether the manager is in a valid state.
    pub open spec fn wf(&self) -> bool {
        self@.wf()
    }

    pub fn new(screen: Screen) -> (wm: MinimisingWM)
        ensures
            wm@ == MinState::init(screen),
            wm.wf(),
    {
        let wm = MinimisingWM {
            minimised_windows: Vec::new(),
            wrapped_wm: FloatingWM::new(screen),
            infos: HashMap::new(),
            own_geometry: HashMap::new(),
        };
        proof {
            assert(wm@.infos.dom() =~= wm@.minimised.to_set());
        }
        wm
    }

    pub fn get_windows(&self) -> (windows: Vec<Window>)
        ensures
            windows@ == self@.windows(),
            self.wf() ==> windows@.no_duplicates(),
    {
        proof {
            if self.wf() {
                self@.lemma_windows_distinct();
            }
        }
        let mut windows = self.wrapped_wm.get_windows();
        let mut minimised = self.minimised_windows.clone();
        windows.append(&mut minimised);
        windows
    }

    pub fn is_managed(&self, window: Window) -> (managed: bool)
        ensures
            managed == self@.manages(window),
    {
        self.is_minimised(window) || self.wrapped_wm.is_managed(window)
    }

    pub fn add_window(&mut self, window_with_info: WindowWithInfo) -> (result: Result<(), WMError>)
        requires
            old(self).wf(),
        ensures
            result == Ok::<(), WMError>(()),
            final(self)@ == old(self)@.add(window_with_info),
            final(self).wf(),
    {
        proof {
            self@.lemma_add(window_with_info);
        }
        if !self.is_minimised(window_with_info.window) {
            self.wrapped_wm.add_window(window_with_info)
        } else {
            Ok(())
        }
    }

    pub fn remove_window(&mut self, window: Window) -> (result: Result<(), WMError>)
        requires
            old(self).wf(),
        ensures
            result == (if old(self)@.manages(window) {
                Ok::<(), WMError>(())
            } else {
                Err(WMError::UnknownWindow(window))
            }),
            final(self)@ == old(self)@.remove(window),
            final(self).wf(),
    {
        proof {
            self@.lemma_remove(window);
            self@.lemma_manages(window);
        }
        if !self.is_minimised(window) {
            self.wrapped_wm.remove_window(window)
        } else {
            self.infos.remove(&window);
            self.own_geometry.remove(&window);
            match position(&self.minimised_windows, window) {
                Some(i) => {
                    proof {
                        lemma_index_of(self@.minimised, window, i as int);
                    }
                    self.minimised_windows.remove(i);
                },
                None => {},
            }
            Ok(())
        }
    }

    pub fn get_window_layout(&self) -> (layout: WindowLayout)
        requires
            self.wf(),
        ensures
            layout@ == self@.layout(),
    {
        self.wrapped_wm.get_window_layout()
    }

    /// If the window is minimised, it is first unminimised.
    pub fn focus_window(&mut self, window: Option<Window>) -> (result: Result<(), WMError>)
        requires
            old(self).wf(),
        ensures
            result == (match window {
                Some(w) if !old(self)@.manages(w) => Err(WMError::UnknownWindow(w)),
                _ => Ok::<(), WMError>(()),
            }),
            final(self)@ == old(self)@.focus_on(window),
            final(self).wf(),
    {
        proof {
            self@.lemma_focus(window, PrevOrNext::Next);
        }
        if let Some(w) = window {
            proof {
                self@.lemma_shown(w);
            }
            self.show(w);
        }
        self.wrapped_wm.focus_window(window)
    }

    pub fn cycle_focus(&mut self, dir: PrevOrNext)
        requires
            old(self).wf(),
        ensures
            final(self)@ == old(self)@.cycle(dir),
            final(self).wf(),
    {
        proof {
            self@.lemma_focus(None, dir);
        }
        self.wrapped_wm.cycle_focus(dir)
    }

    pub fn get_window_info(&self, window: Window) -> (result: Result<WindowWithInfo, WMError>)
        requires
            self.wf(),
        ensures
            result == (if self@.manages(window) {
                Ok::<WindowWithInfo, WMError>(self@.info(window))
            } else {
                Err(WMError::UnknownWindow(window))
            }),
    {
        match self.infos.get(&window) {
            Some(info) => Ok(*info),
            None => self.wrapped_wm.get_window_info(window),
        }
    }

    pub fn get_screen(&self) -> (screen: Screen)
        ensures
            screen == self@.wrapped.tiling.screen,
    {
        self.wrapped_wm.get_screen()
    }

    pub fn resize_screen(&mut self, screen: Screen)
        ensures
            final(self)@ == old(self)@.resize(screen),
            old(self).wf() ==> final(self).wf(),
    {
        self.wrapped_wm.resize_screen(screen)
    }

    pub fn get_focused_window(&self) -> (focused: Option<Window>)
        requires
            self.wf(),
        ensures
            focused == self@.focused(),
    {
        self.wrapped_wm.get_focused_window()
    }

    pub fn get_master_window(&self) -> (master: Option<Window>)
        ensures
            master == self@.wrapped.tiling.master(),
    {
        self.wrapped_wm.get_master_window()
    }

    /// If the passed window is a minimised window, it will first be
    /// unminimised.
    pub fn swap_with_master(&mut self, window: Window) -> (result: Result<(), WMError>)
        requires
            old(self).wf(),
        ensures
            result == (if old(self)@.manages(window) {
                Ok::<(), WMError>(())
            } else {
                Err(WMError::UnknownWindow(window))
            }),
            final(self)@ == old(self)@.swap_with_master(window),
            final(self).wf(),
    {
        proof {
            self@.lemma_named(window, Geometry { x: 0, y: 0, width: 0, height: 0 });
            self@.lemma_shown(window);
        }
        self.show(window);
        self.wrapped_wm.swap_with_master(window)
    }

    pub fn swap_windows(&mut self, dir: PrevOrNext)
        requires
            old(self).wf(),
        ensures
            final(self)@ == old(self)@.swap_neighbor(dir),
            final(self).wf(),
    {
        proof {
            self@.lemma_focus(None, dir);
        }
        self.wrapped_wm.swap_windows(dir)
    }

    pub fn get_floating_windows(&self) -> (windows: Vec<Window>)
        ensures
            windows@ == self@.wrapped.floating,
    {
        self.wrapped_wm.get_floating_windows()
    }

    /// If the passed window is a minimised window, it will first be
    /// unminimised.
    pub fn toggle_floating(&mut self, window: Window) -> (result: Result<(), WMError>)
        requires
            old(self).wf(),
        ensures
            result == (if old(self)@.manages(window) {
                Ok::<(), WMError>(())
            } else {
                Err(WMError::UnknownWindow(window))
            }),
            final(self)@ == old(self)@.toggle_floating(window),
            final(self).wf(),
    {
        proof {
            self@.lemma_named(window, Geometry { x: 0, y: 0, width: 0, height: 0 });
            self@.lemma_shown(window);
        }
        self.show(window);
        self.wrapped_wm.toggle_floating(window)
    }

    /// If the passed window is a minimised window, the geometry is kept for
    /// when the window is unminimised again.
    pub fn set_window_geometry(&mut self, window: Window, new_geometry: Geometry) -> (result:
        Result<(), WMError>)
        requires
            old(self).wf(),
        ensures
            result == (if old(self)@.manages(window) {
                Ok::<(), WMError>(())
            } else {
                Err(WMError::UnknownWindow(window))
            }),
            final(self)@ == old(self)@.set_geometry(window, new_geometry),
            final(self).wf(),
    {
        proof {
            self@.lemma_named(window, new_geometry);
        }
        let kept = match self.infos.get(&window) {
            Some(info) => Some(*info),
            None => None,
        };
        match kept {
            Some(info) => {
                let mut wi = info;
                wi.geometry = new_geometry;
                self.infos.insert(window, wi);
                self.own_geometry.insert(window, new_geometry);
                Ok(())
            },
            None => self.wrapped_wm.set_window_geometry(window, new_geometry),
        }
    }

    pub fn is_floating(&self, window: Window) -> (floating: bool)
        ensures
            floating == self@.wrapped.is_floating(window),
    {
        self.wrapped_wm.is_floating(window)
    }

    pub fn get_minimised_windows(&self) -> (windows: Vec<Window>)
        ensures
            windows@ == self@.minimised,
    {
        self.minimised_windows.clone()
    }

    pub fn toggle_minimised(&mut self, window: Window) -> (result: Result<(), WMError>)
        requires
            old(self).wf(),
        ensures
            result == (if old(self)@.manages(window) {
                Ok::<(), WMError>(())
            } else {
                Err(WMError::UnknownWindow(window))
            }),
            final(self)@ == old(self)@.toggle_minimised(window),
            final(self).wf(),
    {
        proof {
            self@.lemma_toggle_minimised(window);
            self@.lemma_manages(window);
            self@.lemma_remove(window);
        }
        let wi = match self.get_window_info(window) {
            Ok(wi) => wi,
            Err(e) => {
                return Err(e);
            },
        };
        let own = self.get_own_geometry(window);
        if self.is_minimised(window) {
            proof {
                self@.lemma_restore(window);
                self@.wrapped.lemma_add(wi);
                self@.wrapped.add(wi).lemma_manages(window);
            }
            match self.remove_window(window) {
                Err(e) => Err(e),
                Ok(()) => {
                    let result = self.add_window(wi);
                    if let Some(g) = own {
                        let _ = self.wrapped_wm.set_window_geometry(window, g);
                    }
                    result
                },
            }
        } else {
            match self.wrapped_wm.remove_window(window) {
                Err(e) => Err(e),
                Ok(()) => {
                    self.infos.insert(window, wi);
                    self.minimised_windows.push(window);
                    if let Some(g) = own {
                        self.own_geometry.insert(window, g);
                    }
                    Ok(())
                },
            }
        }
    }

    /// Get the geometry of its own of this window, if it has one.
    pub fn get_own_geometry(&self, window: Window) -> (own: Option<Geometry>)
        ensures
            own == self@.own_geometry(window),
    {
        if self.is_minimised(window) {
            match self.own_geometry.get(&window) {
                Some(g) => Some(*g),
                None => None,
            }
        } else {
            self.wrapped_wm.get_own_geometry(window)
        }
    }

    pub fn is_minimised(&self, window: Window) -> (minimised: bool)
        ensures
            minimised == self@.is_minimised(window),
    {
        self.infos.contains_key(&window)
    }

    pub fn get_gap(&self) -> (g: GapSize)
        ensures
            g == self@.wrapped.tiling.layouter.gap(),
    {
        self.wrapped_wm.get_gap()
    }

    pub fn set_gap(&mut self, gapsize: GapSize)
        ensures
            final(self)@ == old(self)@.set_gap(gapsize),
            old(self).wf() ==> final(self).wf(),
    {
        self.wrapped_wm.set_gap(gapsize)
    }

    /// Unminimises the window if it is minimised.
    fn show(&mut self, window: Window)
        requires
            old(self).wf(),
        ensures
            final(self)@ == old(self)@.shown(window),
            final(self).wf(),
    {
        proof {
            self@.lemma_shown(window);
            self@.lemma_toggle_minimised(window);
        }
        if self.is_minimised(window) {
            let _ = self.toggle_minimised(window);
        }
    }
}

impl RealWindowInfo for MinimisingWM {
    open spec fn valid(&self) -> bool {
        self.wf()
    }

    open spec fn knows(&self, window: Window) -> bool {
        self@.manages(window)
    }

    open spec fn real_window_info(&self, window: Window) -> WindowWithInfo {
        self@.real_info(window)
    }

    /// A minimised window is reported as it was when it was minimised.
    fn get_real_window_info(&self, window: Window) -> (result: Result<WindowWithInfo, WMError>) {
        let own = self.get_own_geometry(window);
        match self.infos.get(&window) {
            Some(info) => {
                let mut wi = *info;
                if let Some(g) = own {
                    wi.geometry = g;
                }
                Ok(wi)
            },
            None => self.wrapped_wm.get_real_window_info(window),
        }
    }
}

} // verus!
