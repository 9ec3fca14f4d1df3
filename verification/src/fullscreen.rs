//! The fullscreen layer: a minimise layer, and above it at most one window
//! that fills the screen and hides all others. While a window is held
//! fullscreen it is outside the layers below and has the focus.

use vstd::prelude::*;
use crate::error::WMError;
use crate::layouter::GapSupport;
use crate::minimising::{MinState, MinimisingWM};
use crate::real_window_info::RealWindowInfo;
use crate::types::{
    FloatOrTile, GapSize, Geometry, LayoutView, PrevOrNext, Screen, Window, WindowLayout,
    WindowWithInfo,
};

verus! {

/// The state of the fullscreen layer as a mathematical value.
pub struct FsState {
    /// The windows that are not fullscreen.
    pub wrapped: MinState,
    /// The fullscreen window, as it was reported when it became fullscreen.
    pub held: Option<WindowWithInfo>,
    /// The rectangle of its own of the fullscreen window, if it has one.
    pub held_own: Option<Geometry>,
}

impl FsState {
    /// The fullscreen window is not managed by the layers below.
    pub open spec fn wf(self) -> bool {
        &&& self.wrapped.wf()
        &&& match self.held {
            Some(h) => !self.wrapped.manages(h.window),
            None => self.held_own is None,
        }
    }

    pub open spec fn is_fullscreen(self, w: Window) -> bool {
        self.held is Some && self.held->0.window == w
    }

    pub open spec fn fullscreen_window(self) -> Option<Window> {
        match self.held {
            Some(h) => Some(h.window),
            None => None,
        }
    }

    pub open spec fn manages(self, w: Window) -> bool {
        self.is_fullscreen(w) || self.wrapped.manages(w)
    }

    /// The set of the managed windows.
    pub open spec fn managed(self) -> Set<Window> {
        match self.held {
            Some(h) => self.wrapped.managed().insert(h.window),
            None => self.wrapped.managed(),
        }
    }

    pub open spec fn is_minimised(self, w: Window) -> bool {
        self.wrapped.is_minimised(w)
    }

    /// The managed windows: those of the layers below, then the fullscreen
    /// window.
    pub open spec fn windows(self) -> Seq<Window> {
        match self.held {
            Some(h) => self.wrapped.windows().push(h.window),
            None => self.wrapped.windows(),
        }
    }

    pub open spec fn screen(self) -> Screen {
        self.wrapped.wrapped.tiling.screen
    }

    /// The fullscreen window has the focus if there is one.
    pub open spec fn focused(self) -> Option<Window> {
        match self.held {
            Some(h) => Some(h.window),
            None => self.wrapped.focused(),
        }
    }

    /// The fullscreen window alone, filling the screen, if there is one;
    /// else the layout of the layers below.
    pub open spec fn layout(self) -> LayoutView {
        match self.held {
            Some(h) => LayoutView {
                focused: Some(h.window),
                entries: seq![(h.window, self.screen().geometry())],
            },
            None => self.wrapped.layout(),
        }
    }

    /// What the manager reports of a managed window; of the fullscreen
    /// window, that it fills the screen.
    pub open spec fn info(self, w: Window) -> WindowWithInfo {
        if self.is_fullscreen(w) {
            WindowWithInfo {
                window: self.held->0.window,
                geometry: self.screen().geometry(),
                float_or_tile: self.held->0.float_or_tile,
                fullscreen: true,
            }
        } else {
            self.wrapped.info(w)
        }
    }

    /// What is needed to add a managed window again as it is; for the
    /// fullscreen window, what is held of it, as a fullscreen window.
    pub open spec fn real_info(self, w: Window) -> WindowWithInfo {
        if self.is_fullscreen(w) {
            WindowWithInfo {
                geometry: match self.held_own {
                    Some(g) => g,
                    None => self.held->0.geometry,
                },
                fullscreen: true,
                ..self.held->0
            }
        } else {
            self.wrapped.real_info(w)
        }
    }

    /// The rectangle of its own of `w`, if it has one.
    pub open spec fn own_geometry(self, w: Window) -> Option<Geometry> {
        if self.is_fullscreen(w) {
            self.held_own
        } else {
            self.wrapped.own_geometry(w)
        }
    }

    pub open spec fn init(screen: Screen) -> FsState {
        FsState { wrapped: MinState::init(screen), held: None, held_own: None }
    }

    /// With no window fullscreen: the window that was is added to the layers
    /// below as it is held, with the rectangle of its own if it has one, and
    /// takes the focus there.
    pub open spec fn un_fullscreen(self) -> FsState {
        match self.held {
            Some(h) => FsState {
                wrapped: match self.held_own {
                    Some(g) => self.wrapped.add(h).set_geometry(h.window, g),
                    None => self.wrapped.add(h),
                },
                held: None,
                held_own: None,
            },
            None => self,
        }
    }

    /// With `w` no longer fullscreen, if it was.
    pub open spec fn released(self, w: Window) -> FsState {
        if self.is_fullscreen(w) {
            self.un_fullscreen()
        } else {
            self
        }
    }

    /// A new window ends the fullscreen mode of the window that has it. A
    /// window that asks for fullscreen is held fullscreen; any other goes to
    /// the layers below. A window that is already managed changes nothing.
    pub open spec fn add(self, info: WindowWithInfo) -> FsState {
        if self.manages(info.window) {
            self
        } else if info.fullscreen {
            FsState { held: Some(info), held_own: None, ..self.un_fullscreen() }
        } else {
            FsState { wrapped: self.un_fullscreen().wrapped.add(info), held: None, held_own: None }
        }
    }

    /// Without the window `w`; the others stay as they are, the fullscreen
    /// window too.
    pub open spec fn remove(self, w: Window) -> FsState {
        if self.is_fullscreen(w) {
            FsState { held: None, held_own: None, ..self }
        } else {
            FsState { wrapped: self.wrapped.remove(w), ..self }
        }
    }

    /// With the focus on `target`. Focusing the fullscreen window changes
    /// nothing; any other target ends the fullscreen mode first.
    pub open spec fn focus_on(self, target: Option<Window>) -> FsState {
        if target is Some && self.is_fullscreen(target->0) {
            self
        } else {
            FsState { wrapped: self.un_fullscreen().wrapped.focus_on(target), held: None, held_own: None }
        }
    }

    pub open spec fn cycle(self, dir: PrevOrNext) -> FsState {
        FsState { wrapped: self.un_fullscreen().wrapped.cycle(dir), held: None, held_own: None }
    }

    pub open spec fn swap_with_master(self, w: Window) -> FsState {
        FsState { wrapped: self.un_fullscreen().wrapped.swap_with_master(w), held: None, held_own: None }
    }

    pub open spec fn swap_neighbor(self, dir: PrevOrNext) -> FsState {
        FsState { wrapped: self.un_fullscreen().wrapped.swap_neighbor(dir), held: None, held_own: None }
    }

    /// With the mode of `w` flipped; the fullscreen window is released
    /// first, another fullscreen window stays.
    pub open spec fn toggle_floating(self, w: Window) -> FsState {
        FsState { wrapped: self.released(w).wrapped.toggle_floating(w), ..self.released(w) }
    }

    /// With the own rectangle of `w` set; of the fullscreen window it is
    /// kept for when the window is released.
    pub open spec fn set_geometry(self, w: Window, geometry: Geometry) -> FsState {
        if self.is_fullscreen(w) {
            FsState {
                held: Some(self.held->0.with_geometry(geometry)),
                held_own: Some(geometry),
                ..self
            }
        } else {
            FsState { wrapped: self.wrapped.set_geometry(w, geometry), ..self }
        }
    }

    /// With `w` minimised or shown again; the fullscreen window is released
    /// first and then minimised.
    pub open spec fn toggle_minimised(self, w: Window) -> FsState {
        FsState { wrapped: self.released(w).wrapped.toggle_minimised(w), ..self.released(w) }
    }

    /// The fullscreen window is released. Any other managed window becomes
    /// the fullscreen window: the window that was fullscreen is released
    /// first, then `w` leaves the layers below and is held as they reported
    /// it, with the rectangle of its own if it has one.
    pub open spec fn toggle_fullscreen(self, w: Window) -> FsState {
        if self.is_fullscreen(w) {
            self.un_fullscreen()
        } else if self.wrapped.manages(w) {
            let below = self.un_fullscreen().wrapped;
            FsState {
                wrapped: below.remove(w),
                held: Some(below.info(w)),
                held_own: below.own_geometry(w),
            }
        } else {
            self
        }
    }

    pub open spec fn resize(self, screen: Screen) -> FsState {
        FsState { wrapped: self.wrapped.resize(screen), ..self }
    }

    pub open spec fn set_gap(self, gapsize: GapSize) -> FsState {
        FsState { wrapped: self.wrapped.set_gap(gapsize), ..self }
    }

    /// A window is managed where the set of the managed windows holds it.
    pub proof fn lemma_manages(self, w: Window)
        ensures
            self.wf() ==> (self.manages(w) <==> self.managed().contains(w)),
            self.wf() ==> !(self.is_fullscreen(w) && self.wrapped.manages(w)),
    {
        self.wrapped.lemma_manages(w);
    }

    /// What is reported of a managed window names that window.
    pub proof fn lemma_real_info(self, w: Window)
        requires
            self.wf(),
            self.manages(w),
        ensures
            self.real_info(w).window == w,
            self.info(w).window == w,
    {
        self.wrapped.lemma_manages(w);
        self.wrapped.wrapped.lemma_manages(w);
    }

    /// A new screen or a new gap keeps the state well formed and the
    /// windows.
    pub proof fn lemma_settings(self, screen: Screen, gapsize: GapSize)
        requires
            self.wf(),
        ensures
            self.resize(screen).wf(),
            self.resize(screen).managed() == self.managed(),
            forall|w: Window| self.resize(screen).manages(w) == self.manages(w),
            self.set_gap(gapsize).wf(),
            self.set_gap(gapsize).managed() == self.managed(),
            forall|w: Window| self.set_gap(gapsize).manages(w) == self.manages(w),
    {
    }

    /// Releasing the fullscreen window keeps the state well formed and the
    /// windows; no window is fullscreen afterwards.
    pub proof fn lemma_un_fullscreen(self)
        requires
            self.wf(),
        ensures
            self.un_fullscreen().wf(),
            self.un_fullscreen().managed() == self.managed(),
            self.un_fullscreen().held is None,
            self.held is Some ==> self.un_fullscreen().focused() == self.focused(),
            forall|w: Window| self.released(w).wf(),
            forall|w: Window| self.released(w).managed() == self.managed(),
            forall|w: Window| !(#[trigger] self.released(w)).is_fullscreen(w),
    {
        if let Some(h) = self.held {
            self.wrapped.lemma_add(h);
            self.wrapped.lemma_manages(h.window);
            if let Some(g) = self.held_own {
                self.wrapped.add(h).lemma_named(h.window, g);
            }
        }
    }

    /// Adding keeps the state well formed; the window is managed afterwards,
    /// next to those that were, and a new window has the focus.
    pub proof fn lemma_add(self, info: WindowWithInfo)
        requires
            self.wf(),
        ensures
            self.add(info).wf(),
            self.add(info).managed() == self.managed().insert(info.window),
            !self.manages(info.window) ==> self.add(info).focused() == Some(info.window),
            !self.manages(info.window) ==> (self.add(info).is_fullscreen(info.window)
                <==> info.fullscreen),
    {
        self.lemma_manages(info.window);
        self.lemma_un_fullscreen();
        let released = self.un_fullscreen();
        released.lemma_manages(info.window);
        released.wrapped.lemma_manages(info.window);
        if self.manages(info.window) {
            assert(self.managed().insert(info.window) =~= self.managed());
        } else if !info.fullscreen {
            released.wrapped.lemma_add(info);
        }
    }

    /// Removing keeps the state well formed; the window is gone afterwards,
    /// and no other.
    pub proof fn lemma_remove(self, w: Window)
        requires
            self.wf(),
        ensures
            self.remove(w).wf(),
            self.remove(w).managed() == self.managed().remove(w),
            !self.is_fullscreen(w) ==> self.remove(w).held == self.held,
    {
        self.lemma_manages(w);
        self.wrapped.lemma_manages(w);
        if self.is_fullscreen(w) {
            assert(self.wrapped.managed().insert(w).remove(w) =~= self.wrapped.managed());
        } else {
            self.wrapped.lemma_remove(w);
            if let Some(h) = self.held {
                self.wrapped.lemma_manages(h.window);
                self.remove(w).wrapped.lemma_manages(h.window);
                assert(self.remove(w).managed() =~= self.managed().remove(w));
            }
        }
    }

    /// Focusing, cycling and swapping keep the state well formed and the
    /// windows. But for focusing the fullscreen window, they end the
    /// fullscreen mode.
    pub proof fn lemma_focus(self, target: Option<Window>, dir: PrevOrNext)
        requires
            self.wf(),
        ensures
            self.focus_on(target).wf(),
            self.focus_on(target).managed() == self.managed(),
            target is Some && self.manages(target->0) ==> self.focus_on(target).focused()
                == target,
            target is None ==> self.focus_on(target).focused() is None,
            self.cycle(dir).wf(),
            self.cycle(dir).managed() == self.managed(),
            self.cycle(dir).held is None,
            self.swap_neighbor(dir).wf(),
            self.swap_neighbor(dir).managed() == self.managed(),
            self.swap_neighbor(dir).held is None,
    {
        self.lemma_un_fullscreen();
        let released = self.un_fullscreen();
        released.wrapped.lemma_focus(target, dir);
        if let Some(w) = target {
            self.lemma_manages(w);
            released.lemma_manages(w);
        }
    }

    /// The operations that name a window keep the state well formed and the
    /// windows.
    pub proof fn lemma_named(self, w: Window, geometry: Geometry)
        requires
            self.wf(),
        ensures
            self.swap_with_master(w).wf(),
            self.swap_with_master(w).managed() == self.managed(),
            self.swap_with_master(w).held is None,
            self.manages(w) ==> self.swap_with_master(w).focused() == Some(w),
            self.toggle_floating(w).wf(),
            self.toggle_floating(w).managed() == self.managed(),
            self.set_geometry(w, geometry).wf(),
            self.set_geometry(w, geometry).managed() == self.managed(),
            self.toggle_minimised(w).wf(),
            self.toggle_minimised(w).managed() == self.managed(),
            self.toggle_fullscreen(w).wf(),
            self.toggle_fullscreen(w).managed() == self.managed(),
            self.manages(w) ==> (self.toggle_fullscreen(w).is_fullscreen(w)
                <==> !self.is_fullscreen(w)),
            !self.manages(w) ==> self.toggle_fullscreen(w) == self,
    {
        self.lemma_un_fullscreen();
        self.lemma_manages(w);
        let released = self.un_fullscreen();
        released.lemma_manages(w);
        released.wrapped.lemma_named(w, geometry);
        released.wrapped.lemma_manages(w);
        let freed = self.released(w);
        freed.lemma_manages(w);
        freed.wrapped.lemma_named(w, geometry);
        freed.wrapped.lemma_toggle_minimised(w);
        self.wrapped.lemma_named(w, geometry);
        self.wrapped.lemma_manages(w);
        if let Some(h) = freed.held {
            freed.wrapped.lemma_manages(h.window);
            freed.wrapped.toggle_floating(w).lemma_manages(h.window);
            freed.wrapped.toggle_minimised(w).lemma_manages(h.window);
        }
        if let Some(h) = self.held {
            self.wrapped.lemma_manages(h.window);
            self.wrapped.set_geometry(w, geometry).lemma_manages(h.window);
        }
        if !self.is_fullscreen(w) && self.wrapped.manages(w) {
            released.wrapped.lemma_remove(w);
            released.wrapped.remove(w).lemma_manages(w);
            assert(self.toggle_fullscreen(w).managed() =~= self.managed());
        }
    }

    /// No window is listed twice among the managed windows.
    pub proof fn lemma_windows_distinct(self)
        requires
            self.wf(),
        ensures
            self.windows().no_duplicates(),
            self.windows().to_set() == self.managed(),
    {
        self.wrapped.lemma_windows_distinct();
        if let Some(h) = self.held {
            self.wrapped.lemma_manages(h.window);
            assert(self.wrapped.windows().to_set().contains(h.window)
                <==> self.wrapped.windows().contains(h.window));
            crate::seqs::lemma_push(self.wrapped.windows(), h.window);
        }
    }

    /// Whether a step of the focus in direction `dir` and a step back leave
    /// the layout as it is: no window is fullscreen, and the stack of the
    /// float layer survives the two steps.
    pub open spec fn stack_survives(self, dir: PrevOrNext) -> bool {
        self.held is None && self.wrapped.wrapped.stack_survives(dir)
    }

    /// Where the stack survives them, a step of the focus along the ring and
    /// a step back restore the focus and the layout.
    pub proof fn lemma_cycle_there_and_back(self, dir: PrevOrNext)
        requires
            self.wf(),
            self.stack_survives(dir),
        ensures
            self.cycle(dir).cycle(dir.reverse()).focused() == self.focused(),
            self.cycle(dir).cycle(dir.reverse()).layout() == self.layout(),
    {
        self.wrapped.lemma_cycle_there_and_back(dir);
    }

    /// Where no window is fullscreen and a tile has the focus, or no window,
    /// swapping the focused window with its neighbour one way and then the
    /// other way restores the state.
    pub proof fn lemma_swap_there_and_back(self, dir: PrevOrNext)
        requires
            self.wf(),
            self.held is None,
            self.wrapped.wrapped.focus is None,
        ensures
            self.swap_neighbor(dir).swap_neighbor(dir.reverse()) == self,
    {
        self.wrapped.lemma_swap_there_and_back(dir);
    }

    /// Toggling the floating mode of a window that is shown twice restores
    /// what the manager reports of it, mode and rectangle. This holds of a
    /// floating window, and of a tile whose rectangle is that of the last
    /// tile.
    pub proof fn lemma_toggle_floating_twice(self, w: Window)
        requires
            self.wf(),
            self.wrapped.wrapped.manages(w),
            self.wrapped.wrapped.is_floating(w) || self.info(w).geometry
                == self.wrapped.wrapped.tiling.tile_geometry(
                self.wrapped.wrapped.tiling.tiles.len() - 1,
            ),
        ensures
            self.toggle_floating(w).toggle_floating(w).info(w) == self.info(w),
    {
        let once = self.toggle_floating(w);
        self.lemma_manages(w);
        self.wrapped.lemma_manages(w);
        self.lemma_named(w, Geometry { x: 0, y: 0, width: 0, height: 0 });
        self.wrapped.lemma_named(w, Geometry { x: 0, y: 0, width: 0, height: 0 });
        self.wrapped.wrapped.lemma_toggle_floating(w);
        self.wrapped.wrapped.lemma_manages(w);
        once.wrapped.wrapped.lemma_manages(w);
        once.wrapped.lemma_manages(w);
        once.lemma_manages(w);
        self.wrapped.lemma_toggle_floating_twice(w);
    }

    /// Toggling the minimised state of a window that is not fullscreen twice
    /// restores what the manager reports of it, mode and rectangle. This
    /// holds of a floating window, and of a tile whose rectangle is that of
    /// the last tile once the window is tiled again.
    pub proof fn lemma_toggle_minimised_twice(self, w: Window)
        requires
            self.wf(),
            self.wrapped.manages(w),
            self.info(w).float_or_tile == FloatOrTile::Float || self.info(w).geometry
                == self.wrapped.place_when_tiled_again(w),
        ensures
            self.toggle_minimised(w).toggle_minimised(w).info(w) == self.info(w),
            self.toggle_minimised(w).toggle_minimised(w).is_minimised(w) == self.is_minimised(w),
    {
        let once = self.toggle_minimised(w);
        self.lemma_manages(w);
        self.wrapped.lemma_manages(w);
        self.lemma_named(w, Geometry { x: 0, y: 0, width: 0, height: 0 });
        self.wrapped.lemma_toggle_minimised(w);
        once.wrapped.lemma_manages(w);
        once.lemma_manages(w);
        self.wrapped.lemma_toggle_minimised_twice(w);
    }

    /// Toggling the fullscreen mode of a window twice keeps the windows and
    /// leaves the window as it was: fullscreen if it was, and not if not.
    pub proof fn lemma_toggle_fullscreen_twice(self, w: Window)
        requires
            self.wf(),
            self.manages(w),
        ensures
            self.toggle_fullscreen(w).toggle_fullscreen(w).managed() == self.managed(),
            self.toggle_fullscreen(w).toggle_fullscreen(w).is_fullscreen(w) == self.is_fullscreen(
                w,
            ),
    {
        self.lemma_named(w, Geometry { x: 0, y: 0, width: 0, height: 0 });
        let once = self.toggle_fullscreen(w);
        once.lemma_manages(w);
        self.lemma_manages(w);
        once.lemma_named(w, Geometry { x: 0, y: 0, width: 0, height: 0 });
    }

    /// While a window is fullscreen the layout shows that window and no
    /// other. Otherwise it shows the managed windows that are not
    /// minimised, and each of them once.
    pub proof fn lemma_layout_shows_visible(self)
        requires
            self.wf(),
        ensures
            self.held is Some ==> self.layout().shown() == seq![self.held->0.window]
                && self.layout().entries.len() == 1 && self.layout().focused == Some(
                self.held->0.window,
            ),
            self.layout().shown().no_duplicates(),
            forall|w: Window|
                self.layout().shown().contains(w) <==> self.manages(w) && !self.is_minimised(w)
                    && (self.held is None || self.is_fullscreen(w)),
    {
        match self.held {
            Some(h) => {
                let shown = self.layout().shown();
                assert(shown =~= seq![h.window]);
                assert(shown[0] == h.window);
                self.wrapped.lemma_manages(h.window);
            },
            None => {
                self.wrapped.lemma_layout_shows_unminimised();
            },
        }
    }
}

/// A window manager that can show one window fullscreen. The minimise layer
/// under it takes care of all other windows.
#[derive(Clone, Debug)]
pub struct FullscreenWM {
    /// The `WindowWithInfo` of the fullscreen window.
    pub fullscreen_window: Option<WindowWithInfo>,
    /// The wrapped window manager that takes care of all the other windows.
    pub wrapped_wm: MinimisingWM,
    /// The geometry of its own of the fullscreen window, if it has one.
    pub fullscreen_own_geometry: Option<Geometry>,
}

impl View for FullscreenWM {
    type V = FsState;

    open spec fn view(&self) -> FsState {
        FsState {
            wrapped: self.wrapped_wm@,
            held: self.fullscreen_window,
            held_own: self.fullscreen_own_geometry,
        }
    }
}

impl FullscreenWM {
    /// Whether the manager is in a valid state.
    pub open spec fn wf(&self) -> bool {
        self@.wf()
    }

    /// Ends the fullscreen mode of the window that has it.
    pub fn un_fullscreen(&mut self)
        requires
            old(self).wf(),
        ensures
            final(self)@ == old(self)@.un_fullscreen(),
            final(self).wf(),
    {
        proof {
            self@.lemma_un_fullscreen();
        }
        if let Some(wi) = self.fullscreen_window {
            let own = self.fullscreen_own_geometry;
            self.fullscreen_window = None;
            self.fullscreen_own_geometry = None;
            let _ = self.wrapped_wm.add_window(wi);
            if let Some(g) = own {
                let _ = self.wrapped_wm.set_window_geometry(wi.window, g);
            }
        }
    }

    pub fn is_fullscreen(&self, window: Window) -> (fullscreen: bool)
        ensures
            fullscreen == self@.is_fullscreen(window),
    {
        match self.fullscreen_window {
            Some(info) => info.window == window,
            None => false,
        }
    }

    pub fn new(screen: Screen) -> (wm: FullscreenWM)
        ensures
            wm@ == FsState::init(screen),
            wm.wf(),
    {
        FullscreenWM {
            fullscreen_window: None,
            wrapped_wm: MinimisingWM::new(screen),
            fullscreen_own_geometry: None,
        }
    }

    pub fn get_windows(&self) -> (windows: Vec<Window>)
        ensures
            windows@ == self@.windows(),
            self.wf() ==> windows@.no_duplicates(),
    {
        proof {
            if self.wf() {
                self@.lemma_windows_distinct();
            }
        }
        let mut windows = self.wrapped_wm.get_windows();
        if let Some(w) = self.get_fullscreen_window() {
            windows.push(w);
        }
        windows
    }

    pub fn is_managed(&self, window: Window) -> (managed: bool)
        ensures
            managed == self@.manages(window),
    {
        self.is_fullscreen(window) || self.wrapped_wm.is_managed(window)
    }

    /// Ends the fullscreen mode of the current fullscreen window, if any,
    /// unless the window was already added.
    pub fn add_window(&mut self, window_with_info: WindowWithInfo) -> (result: Result<(), WMError>)
        requires
            old(self).wf(),
        ensures
            result == Ok::<(), WMError>(()),
            final(self)@ == old(self)@.add(window_with_info),
            final(self).wf(),
    {
        proof {
            self@.lemma_add(window_with_info);
        }
        if self.is_managed(window_with_info.window) {
            return Ok(());
        }
        self.un_fullscreen();
        if window_with_info.fullscreen {
            self.fullscreen_window = Some(window_with_info);
            self.fullscreen_own_geometry = None;
            Ok(())
        } else {
            self.wrapped_wm.add_window(window_with_info)
        }
    }

    pub fn remove_window(&mut self, window: Window) -> (result: Result<(), WMError>)
        requires
            old(self).wf(),
        ensures
            result == (if old(self)@.manages(window) {
                Ok::<(), WMError>(())
            } else {
                Err(WMError::UnknownWindow(window))
            }),
            final(self)@ == old(self)@.remove(window),
            final(self).wf(),
    {
        proof {
            self@.lemma_remove(window);
        }
        if self.is_fullscreen(window) {
            self.fullscreen_window = None;
            self.fullscreen_own_geometry = None;
            return Ok(());
        }
        self.wrapped_wm.remove_window(window)
    }

    /// If there is a fullscreen window, it alone is shown and has the focus.
    pub fn get_window_layout(&self) -> (layout: WindowLayout)
        requires
            self.wf(),
        ensures
            layout@ == self@.layout(),
    {
        match self.get_fullscreen_window() {
            Some(w) => {
                let mut windows: Vec<(Window, Geometry)> = Vec::new();
                windows.push((w, self.get_screen().to_geometry()));
                proof {
                    assert(windows@ =~= seq![(w, self@.screen().geometry())]);
                }
                WindowLayout { windows: windows, focused_window: Some(w) }
            },
            None => self.wrapped_wm.get_window_layout(),
        }
    }

    /// If the new focused window is not the fullscreen window, the fullscreen
    /// mode ends.
    pub fn focus_window(&mut self, window: Option<Window>) -> (result: Result<(), WMError>)
        requires
            old(self).wf(),
        ensures
            result == (match window {
                Some(w) if !old(self)@.manages(w) => Err(WMError::UnknownWindow(w)),
                _ => Ok::<(), WMError>(()),
            }),
            final(self)@ == old(self)@.focus_on(window),
            final(self).wf(),
    {
        proof {
            self@.lemma_focus(window, PrevOrNext::Next);
            self@.lemma_un_fullscreen();
            if let Some(w) = window {
                self@.lemma_manages(w);
                self@.un_fullscreen().lemma_manages(w);
            }
        }
        let keeps = match window {
            Some(w) => self.is_fullscreen(w),
            None => false,
        };
        if keeps {
            // Wants to focus the fullscreen window
            Ok(())
        } else {
            self.un_fullscreen();
            self.wrapped_wm.focus_window(window)
        }
    }

    pub fn cycle_focus(&mut self, dir: PrevOrNext)
        requires
            old(self).wf(),
        ensures
            final(self)@ == old(self)@.cycle(dir),
            final(self).wf(),
    {
        proof {
            self@.lemma_focus(None, dir);
        }
        self.un_fullscreen();
        self.wrapped_wm.cycle_focus(dir)
    }

    pub fn get_window_info(&self, window: Window) -> (result: Result<WindowWithInfo, WMError>)
        requires
            self.wf(),
        ensures
            result == (if self@.manages(window) {
                Ok::<WindowWithInfo, WMError>(self@.info(window))
            } else {
                Err(WMError::UnknownWindow(window))
            }),
    {
        match self.fullscreen_window {
            Some(info) if info.window == window => Ok(
                WindowWithInfo {
                    window: info.window,
                    geometry: self.get_screen().to_geometry(),
                    float_or_tile: info.float_or_tile,
                    fullscreen: true,
                },
            ),
            _ => self.wrapped_wm.get_window_info(window),
        }
    }

    pub fn get_screen(&self) -> (screen: Screen)
        ensures
            screen == self@.screen(),
    {
        self.wrapped_wm.get_screen()
    }

    pub fn resize_screen(&mut self, screen: Screen)
        ensures
            final(self)@ == old(self)@.resize(screen),
            old(self).wf() ==> final(self).wf(),
            final(self)@.managed() == old(self)@.managed(),
    {
        self.wrapped_wm.resize_screen(screen)
    }

    pub fn get_focused_window(&self) -> (focused: Option<Window>)
        requires
            self.wf(),
        ensures
            focused == self@.focused(),
    {
        match self.get_fullscreen_window() {
            Some(w) => Some(w),
            None => self.wrapped_wm.get_focused_window(),
        }
    }

    pub fn get_master_window(&self) -> (master: Option<Window>)
        ensures
            master == self@.wrapped.wrapped.tiling.master(),
    {
        self.wrapped_wm.get_master_window()
    }

    /// This ends the fullscreen mode.
    pub fn swap_with_master(&mut self, window: Window) -> (result: Result<(), WMError>)
        requires
            old(self).wf(),
        ensures
            result == (if old(self)@.manages(window) {
                Ok::<(), WMError>(())
            } else {
                Err(WMError::UnknownWindow(window))
            }),
            final(self)@ == old(self)@.swap_with_master(window),
            final(self).wf(),
    {
        proof {
            self@.lemma_named(window, Geometry { x: 0, y: 0, width: 0, height: 0 });
            self@.lemma_un_fullscreen();
            self@.lemma_manages(window);
            self@.un_fullscreen().lemma_manages(window);
        }
        self.un_fullscreen();
        self.wrapped_wm.swap_with_master(window)
    }

    /// This ends the fullscreen mode.
    pub fn swap_windows(&mut self, dir: PrevOrNext)
        requires
            old(self).wf(),
        ensures
            final(self)@ == old(self)@.swap_neighbor(dir),
            final(self).wf(),
    {
        proof {
            self@.lemma_focus(None, dir);
        }
        self.un_fullscreen();
        self.wrapped_wm.swap_windows(dir)
    }

    pub fn get_floating_windows(&self) -> (windows: Vec<Window>)
        ensures
            windows@ == self@.wrapped.wrapped.floating,
    {
        self.wrapped_wm.get_floating_windows()
    }

    /// If the passed window is fullscreen, its fullscreen mode ends first.
    pub fn toggle_floating(&mut self, window: Window) -> (result: Result<(), WMError>)
        requires
            old(self).wf(),
        ensures
            result == (if old(self)@.manages(window) {
                Ok::<(), WMError>(())
            } else {
                Err(WMError::UnknownWindow(window))
            }),
            final(self)@ == old(self)@.toggle_floating(window),
            final(self).wf(),
    {
        proof {
            self@.lemma_named(window, Geometry { x: 0, y: 0, width: 0, height: 0 });
            self@.lemma_un_fullscreen();
            self@.lemma_manages(window);
            self@.released(window).lemma_manages(window);
        }
        if self.is_fullscreen(window) {
            self.un_fullscreen();
        }
        self.wrapped_wm.toggle_floating(window)
    }

    /// If the passed window is a fullscreen window, the geometry is kept for
    /// when its fullscreen mode ends.
    pub fn set_window_geometry(&mut self, window: Window, new_geometry: Geometry) -> (result:
        Result<(), WMError>)
        requires
            old(self).wf(),
        ensures
            result == (if old(self)@.manages(window) {
                Ok::<(), WMError>(())
            } else {
                Err(WMError::UnknownWindow(window))
            }),
            final(self)@ == old(self)@.set_geometry(window, new_geometry),
            final(self).wf(),
    {
        proof {
            self@.lemma_named(window, new_geometry);
        }
        match self.fullscreen_window {
            Some(info) if info.window == window => {
                let mut wi = info;
                wi.geometry = new_geometry;
                self.fullscreen_window = Some(wi);
                self.fullscreen_own_geometry = Some(new_geometry);
                Ok(())
            },
            _ => self.wrapped_wm.set_window_geometry(window, new_geometry),
        }
    }

    pub fn is_floating(&self, window: Window) -> (floating: bool)
        ensures
            floating == self@.wrapped.wrapped.is_floating(window),
    {
        self.wrapped_wm.is_floating(window)
    }

    pub fn get_minimised_windows(&self) -> (windows: Vec<Window>)
        ensures
            windows@ == self@.wrapped.minimised,
    {
        self.wrapped_wm.get_minimised_windows()
    }

    /// If the passed window is fullscreen, its fullscreen mode ends first.
    pub fn toggle_minimised(&mut self, window: Window) -> (result: Result<(), WMError>)
        requires
            old(self).wf(),
        ensures
            result == (if old(self)@.manages(window) {
                Ok::<(), WMError>(())
            } else {
                Err(WMError::UnknownWindow(window))
            }),
            final(self)@ == old(self)@.toggle_minimised(window),
            final(self).wf(),
    {
        proof {
            self@.lemma_named(window, Geometry { x: 0, y: 0, width: 0, height: 0 });
            self@.lemma_un_fullscreen();
            self@.lemma_manages(window);
            self@.released(window).lemma_manages(window);
        }
        if self.is_fullscreen(window) {
            self.un_fullscreen();
        }
        self.wrapped_wm.toggle_minimised(window)
    }

    /// Get the geometry of its own of this window, if it has one.
    pub fn get_own_geometry(&self, window: Window) -> (own: Option<Geometry>)
        ensures
            own == self@.own_geometry(window),
    {
        if self.is_fullscreen(window) {
            self.fullscreen_own_geometry
        } else {
            self.wrapped_wm.get_own_geometry(window)
        }
    }

    pub fn is_minimised(&self, window: Window) -> (minimised: bool)
        ensures
            minimised == self@.is_minimised(window),
    {
        self.wrapped_wm.is_minimised(window)
    }

    pub fn get_fullscreen_window(&self) -> (window: Option<Window>)
        ensures
            window == self@.fullscreen_window(),
    {
        match self.fullscreen_window {
            Some(info) => Some(info.window),
            None => None,
        }
    }

    pub fn toggle_fullscreen(&mut self, window: Window) -> (result: Result<(), WMError>)
        requires
            old(self).wf(),
        ensures
            result == (if old(self)@.manages(window) {
                Ok::<(), WMError>(())
            } else {
                Err(WMError::UnknownWindow(window))
            }),
            final(self)@ == old(self)@.toggle_fullscreen(window),
            final(self).wf(),
    {
        proof {
            self@.lemma_named(window, Geometry { x: 0, y: 0, width: 0, height: 0 });
            self@.lemma_un_fullscreen();
            self@.lemma_manages(window);
            self@.un_fullscreen().lemma_manages(window);
        }
        if self.is_fullscreen(window) {
            self.un_fullscreen();
            Ok(())
        } else if !self.wrapped_wm.is_managed(window) {
            Err(WMError::UnknownWindow(window))
        } else {
            // A window that is fullscreen gives way first
            self.un_fullscreen();
            match self.wrapped_wm.get_window_info(window) {
                Err(e) => Err(e),
                Ok(wi) => {
                    self.fullscreen_own_geometry = self.wrapped_wm.get_own_geometry(window);
                    self.fullscreen_window = Some(wi);
                    self.wrapped_wm.remove_window(window)
                },
            }
        }
    }

    pub fn get_gap(&self) -> (g: GapSize)
        ensures
            g == self@.wrapped.wrapped.tiling.layouter.gap(),
    {
        self.wrapped_wm.get_gap()
    }

    pub fn set_gap(&mut self, gapsize: GapSize)
        ensures
            final(self)@ == old(self)@.set_gap(gapsize),
            old(self).wf() ==> final(self).wf(),
            final(self)@.managed() == old(self)@.managed(),
    {
        self.wrapped_wm.set_gap(gapsize)
    }
}

impl RealWindowInfo for FullscreenWM {
    open spec fn valid(&self) -> bool {
        self.wf()
    }

    open spec fn knows(&self, window: Window) -> bool {
        self@.manages(window)
    }

    open spec fn real_window_info(&self, window: Window) -> WindowWithInfo {
        self@.real_info(window)
    }

    /// The fullscreen window is reported as it is held, as a fullscreen
    /// window.
    fn get_real_window_info(&self, window: Window) -> (result: Result<WindowWithInfo, WMError>) {
        match self.fullscreen_window {
            Some(info) if info.window == window => Ok(
                WindowWithInfo {
                    window: info.window,
                    geometry: match self.fullscreen_own_geometry {
                        Some(g) => g,
                        None => info.geometry,
                    },
                    float_or_tile: info.float_or_tile,
                    fullscreen: true,
                },
            ),
            _ => self.wrapped_wm.get_real_window_info(window),
        }
    }
}

} // verus!
