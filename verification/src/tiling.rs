//! The tiling core: an ordered list of tiled windows, one of which may have
//! the focus. A layouter turns positions in the list into rectangles.

use vstd::prelude::*;
use crate::error::WMError;
use crate::layouter::{GapSupport, Layouter};
use crate::seqs::{
    at_edge, entry, lemma_index_of, lemma_index_of_contained, lemma_push, lemma_remove,
    lemma_step_back, lemma_swapped, position, step, swapped, without,
};
use crate::types::{
    FloatOrTile, GapSize, Geometry, LayoutView, PrevOrNext, Screen, Window, WindowLayout,
    WindowWithInfo,
};

verus! {

/// The state of a tiling window manager as a mathematical value.
pub struct TilingState<L> {
    /// The tiled windows in tile order; the first one is the master.
    pub tiles: Seq<Window>,
    /// The position of the focused window, if a window has the focus.
    pub focus: Option<int>,
    /// The screen that is managed.
    pub screen: Screen,
    /// The layouter that places the tiles.
    pub layouter: L,
}

impl<L: Layouter> TilingState<L> {
    /// No window is listed twice, and the focus is on a listed window.
    pub open spec fn wf(self) -> bool {
        &&& self.tiles.no_duplicates()
        &&& match self.focus {
            Some(i) => 0 <= i < self.tiles.len(),
            None => true,
        }
    }

    pub open spec fn manages(self, w: Window) -> bool {
        self.tiles.contains(w)
    }

    /// The set of the managed windows.
    pub open spec fn managed(self) -> Set<Window> {
        self.tiles.to_set()
    }

    /// The window that has the focus.
    pub open spec fn focused(self) -> Option<Window> {
        match self.focus {
            Some(i) => Some(self.tiles[i]),
            None => None,
        }
    }

    /// The master window: the first tile.
    pub open spec fn master(self) -> Option<Window> {
        if self.tiles.len() > 0 {
            Some(self.tiles[0])
        } else {
            None
        }
    }

    /// The rectangle of the tile at position `i`.
    pub open spec fn tile_geometry(self, i: int) -> Geometry {
        self.layouter.geom(i, self.screen, self.tiles.len() as int)
    }

    /// The tiles with their rectangles, in tile order.
    pub open spec fn entries(self) -> Seq<(Window, Geometry)> {
        Seq::new(self.tiles.len(), |i: int| (self.tiles[i], self.tile_geometry(i)))
    }

    pub open spec fn layout(self) -> LayoutView {
        LayoutView { focused: self.focused(), entries: self.entries() }
    }

    /// What the manager reports of a window that it manages.
    pub open spec fn info(self, w: Window) -> WindowWithInfo {
        WindowWithInfo {
            window: w,
            geometry: self.tile_geometry(self.tiles.index_of(w)),
            float_or_tile: FloatOrTile::Tile,
            fullscreen: false,
        }
    }

    /// The manager of an empty screen.
    pub open spec fn init(screen: Screen) -> Self {
        TilingState { tiles: Seq::empty(), focus: None, screen, layouter: L::initial() }
    }

    /// A new window becomes the last tile and takes the focus; a window that
    /// is already managed changes nothing.
    pub open spec fn add(self, w: Window) -> Self {
        if self.manages(w) {
            self
        } else {
            TilingState { tiles: self.tiles.push(w), focus: Some(self.tiles.len() as int), ..self }
        }
    }

    /// The focus after the tile at position `i` is gone: none without
    /// windows; where the tile stood at or before the focus, the focus moves
    /// one position back, from the first position to the last.
    pub open spec fn focus_after_removal(self, i: int) -> Option<int> {
        if self.tiles.len() <= 1 {
            None
        } else {
            match self.focus {
                Some(j) if i <= j => Some(step(j, PrevOrNext::Prev, self.tiles.len() - 1)),
                _ => self.focus,
            }
        }
    }

    /// Without the window `w`.
    pub open spec fn remove(self, w: Window) -> Self {
        if self.manages(w) {
            TilingState {
                tiles: without(self.tiles, w),
                focus: self.focus_after_removal(self.tiles.index_of(w)),
                ..self
            }
        } else {
            self
        }
    }

    /// With the focus on `target`, or on no window.
    pub open spec fn focus_on(self, target: Option<Window>) -> Self {
        match target {
            None => TilingState { focus: None, ..self },
            Some(w) => if self.manages(w) {
                TilingState { focus: Some(self.tiles.index_of(w)), ..self }
            } else {
                self
            },
        }
    }

    /// With the focus moved one tile along the ring of tiles. Without a
    /// focused window the focus enters the ring at its first tile going
    /// forward, at its last tile going backward.
    pub open spec fn cycle(self, dir: PrevOrNext) -> Self {
        let n = self.tiles.len() as int;
        match self.focus {
            None => if n == 0 {
                self
            } else {
                TilingState { focus: Some(entry(dir, n)), ..self }
            },
            Some(i) => TilingState { focus: Some(step(i, dir, n)), ..self },
        }
    }

    /// As `cycle`, but a step beyond the first or the last tile leaves the
    /// tiles: no window is focused then.
    pub open spec fn cycle_or_leave(self, dir: PrevOrNext) -> Self {
        match self.focus {
            Some(i) if at_edge(i, dir, self.tiles.len() as int) => TilingState {
                focus: None,
                ..self
            },
            _ => self.cycle(dir),
        }
    }

    /// With `w` and the master exchanged, and the focus on the new master.
    pub open spec fn swap_with_master(self, w: Window) -> Self {
        if self.manages(w) {
            TilingState {
                tiles: swapped(self.tiles, self.tiles.index_of(w), 0),
                focus: Some(0),
                ..self
            }
        } else {
            self
        }
    }

    /// With the focused window and its neighbour on the ring exchanged; the
    /// focus stays on the window that moved.
    pub open spec fn swap_neighbor(self, dir: PrevOrNext) -> Self {
        match self.focus {
            Some(p) => {
                let other = step(p, dir, self.tiles.len() as int);
                TilingState { tiles: swapped(self.tiles, p, other), focus: Some(other), ..self }
            },
            None => self,
        }
    }

    pub open spec fn resize(self, screen: Screen) -> Self {
        TilingState { screen, ..self }
    }

    /// Adding keeps the state well formed; the window is managed afterwards,
    /// next to those that were.
    pub proof fn lemma_add(self, w: Window)
        requires
            self.wf(),
        ensures
            self.add(w).wf(),
            self.add(w).managed() == self.managed().insert(w),
            !self.manages(w) ==> self.add(w).focused() == Some(w),
    {
        if !self.manages(w) {
            lemma_push(self.tiles, w);
        } else {
            assert(self.managed().insert(w) =~= self.managed());
        }
    }

    /// Removing keeps the state well formed; the window is gone afterwards,
    /// and no other.
    pub proof fn lemma_remove(self, w: Window)
        requires
            self.wf(),
        ensures
            self.remove(w).wf(),
            self.remove(w).managed() == self.managed().remove(w),
    {
        if self.manages(w) {
            lemma_index_of_contained(self.tiles, w);
            lemma_remove(self.tiles, self.tiles.index_of(w));
        } else {
            assert(self.managed().remove(w) =~= self.managed());
        }
    }

    /// Focusing and cycling keep the state well formed and the windows.
    pub proof fn lemma_focus(self, target: Option<Window>, dir: PrevOrNext)
        requires
            self.wf(),
        ensures
            self.focus_on(target).wf(),
            self.cycle(dir).wf(),
            self.cycle_or_leave(dir).wf(),
            self.focus_on(target).tiles == self.tiles,
            self.cycle(dir).tiles == self.tiles,
            self.cycle_or_leave(dir).tiles == self.tiles,
            target is Some && self.manages(target->0) ==> self.focus_on(target).focused()
                == target,
            self.tiles.len() > 0 ==> self.cycle(dir).focus is Some,
    {
        if let Some(w) = target {
            if self.manages(w) {
                lemma_index_of_contained(self.tiles, w);
            }
        }
    }

    /// Swapping keeps the state well formed and the windows.
    pub proof fn lemma_swap(self, w: Window, dir: PrevOrNext)
        requires
            self.wf(),
        ensures
            self.swap_with_master(w).wf(),
            self.swap_neighbor(dir).wf(),
            self.swap_with_master(w).managed() == self.managed(),
            self.swap_neighbor(dir).managed() == self.managed(),
            self.manages(w) ==> self.swap_with_master(w).master() == Some(w)
                && self.swap_with_master(w).focused() == Some(w),
            self.swap_neighbor(dir).focused() == self.focused(),
    {
        if self.manages(w) {
            lemma_index_of_contained(self.tiles, w);
            lemma_swapped(self.tiles, self.tiles.index_of(w), 0);
        }
        if let Some(p) = self.focus {
            lemma_swapped(self.tiles, p, step(p, dir, self.tiles.len() as int));
        }
    }

    /// From a state in which a window has the focus, or in which there is no
    /// window, cycling the focus one way and then the other way restores the
    /// state, and so the focus and the layout.
    pub proof fn lemma_cycle_there_and_back(self, dir: PrevOrNext)
        requires
            self.wf(),
            self.focus is Some || self.tiles.len() == 0,
        ensures
            self.cycle(dir).cycle(dir.reverse()) == self,
    {
        if let Some(i) = self.focus {
            lemma_step_back(i, dir, self.tiles.len() as int);
        }
    }

    /// Swapping the focused window with its neighbour one way and then the
    /// other way restores the state, and so the order of the tiles.
    pub proof fn lemma_swap_there_and_back(self, dir: PrevOrNext)
        requires
            self.wf(),
        ensures
            self.swap_neighbor(dir).swap_neighbor(dir.reverse()) == self,
    {
        if let Some(p) = self.focus {
            let n = self.tiles.len() as int;
            lemma_step_back(p, dir, n);
            lemma_swapped(self.tiles, p, step(p, dir, n));
        }
    }
}

/// A window manager that tiles its windows.
#[derive(Clone, Debug)]
pub struct TilingWM<MyLayouter: Layouter> {
    /// The tiled windows; the first one is the master window.
    pub windows: Vec<Window>,
    /// The screen that is managed.
    pub screen: Screen,
    /// The index of the focused window (or `None` if no window is focused).
    pub focused_index: Option<usize>,
    /// The layouter to use to tile the windows.
    pub layouter: MyLayouter,
}

impl<MyLayouter: Layouter> View for TilingWM<MyLayouter> {
    type V = TilingState<MyLayouter>;

    open spec fn view(&self) -> TilingState<MyLayouter> {
        TilingState {
            tiles: self.windows@,
            focus: match self.focused_index {
                Some(i) => Some(i as int),
                None => None,
            },
            screen: self.screen,
            layouter: self.layouter,
        }
    }
}

impl<MyLayouter: Layouter> TilingWM<MyLayouter> {
    /// Whether the manager is in a valid state.
    pub open spec fn wf(&self) -> bool {
        self@.wf()
    }

    pub fn new(screen: Screen) -> (wm: Self)
        ensures
            wm@ == TilingState::<MyLayouter>::init(screen),
            wm.wf(),
    {
        TilingWM {
            windows: Vec::new(),
            screen: screen,
            focused_index: None,
            layouter: MyLayouter::new(),
        }
    }

    pub fn get_windows(&self) -> (windows: Vec<Window>)
        ensures
            windows@ == self@.tiles,
    {
        self.windows.clone()
    }

    pub fn is_managed(&self, window: Window) -> (managed: bool)
        ensures
            managed == self@.manages(window),
    {
        position(&self.windows, window).is_some()
    }

    pub fn add_window(&mut self, window_with_info: WindowWithInfo) -> (result: Result<(), WMError>)
        requires
            old(self).wf(),
        ensures
            result == Ok::<(), WMError>(()),
            final(self)@ == old(self)@.add(window_with_info.window),
            final(self).wf(),
    {
        proof {
            self@.lemma_add(window_with_info.window);
        }
        if !self.is_managed(window_with_info.window) {
            self.windows.push(window_with_info.window);
            // Focus on this new window
            self.focused_index = Some(self.windows.len() - 1);
        }
        Ok(())
    }

    pub fn remove_window(&mut self, window: Window) -> (result: Result<(), WMError>)
        requires
            old(self).wf(),
        ensures
            result == (if old(self)@.manages(window) {
                Ok::<(), WMError>(())
            } else {
                Err(WMError::UnknownWindow(window))
            }),
            final(self)@ == old(self)@.remove(window),
            final(self).wf(),
    {
        proof {
            self@.lemma_remove(window);
        }
        match position(&self.windows, window) {
            None => Err(WMError::UnknownWindow(window)),
            Some(i) => {
                proof {
                    lemma_index_of(self.windows@, window, i as int);
                    lemma_remove(self.windows@, i as int);
                }
                self.windows.remove(i);
                // if there is no window left, no window has focus.
                if self.windows.len() == 0 {
                    self.focused_index = None;
                } else if let Some(j) = self.focused_index {
                    if i <= j {
                        // Move the focus one tile back, around the ring
                        self.focused_index = Some(
                            if j == 0 {
                                self.windows.len() - 1
                            } else {
                                j - 1
                            },
                        );
                    }
                }
                Ok(())
            },
        }
    }

    pub fn get_window_layout(&self) -> (layout: WindowLayout)
        requires
            self.wf(),
        ensures
            layout@ == self@.layout(),
    {
        let mut windows: Vec<(Window, Geometry)> = Vec::new();
        let mut i: usize = 0;
        while i < self.windows.len()
            invariant
                i <= self.windows.len(),
                windows@ == self@.entries().take(i as int),
            decreases self.windows.len() - i,
        {
            let entry = (self.windows[i], self.get_geom(i));
            windows.push(entry);
            proof {
                assert(self@.entries().take(i + 1) =~= self@.entries().take(i as int).push(
                    self@.entries()[i as int],
                ));
            }
            i += 1;
        }
        proof {
            assert(self@.entries().take(i as int) =~= self@.entries());
        }
        WindowLayout { focused_window: self.get_focused_window(), windows: windows }
    }

    pub fn focus_window(&mut self, window: Option<Window>) -> (result: Result<(), WMError>)
        requires
            old(self).wf(),
        ensures
            result == (match window {
                Some(w) if !old(self)@.manages(w) => Err(WMError::UnknownWindow(w)),
                _ => Ok::<(), WMError>(()),
            }),
            final(self)@ == old(self)@.focus_on(window),
            final(self).wf(),
    {
        proof {
            self@.lemma_focus(window, PrevOrNext::Next);
        }
        match window {
            None => {
                self.focused_index = None;
            },
            Some(w) => {
                match position(&self.windows, w) {
                    None => {
                        return Err(WMError::UnknownWindow(w));
                    },
                    Some(i) => {
                        proof {
                            lemma_index_of(self.windows@, w, i as int);
                        }
                        // Set focused index to the position of the window passed along
                        self.focused_index = Some(i);
                    },
                }
            },
        }
        Ok(())
    }

    pub fn cycle_focus(&mut self, dir: PrevOrNext)
        requires
            old(self).wf(),
        ensures
            final(self)@ == old(self)@.cycle(dir),
            final(self).wf(),
    {
        self.focused_index = match self.focused_index {
            None => {
                if self.windows.len() == 0 {
                    None
                } else {
                    match dir {
                        PrevOrNext::Next => Some(0),
                        PrevOrNext::Prev => Some(self.windows.len() - 1),
                    }
                }
            },
            Some(i) => Some(self.cycle_index(i, dir)),
        };
    }

    pub fn get_window_info(&self, window: Window) -> (result: Result<WindowWithInfo, WMError>)
        requires
            self.wf(),
        ensures
            result == (if self@.manages(window) {
                Ok::<WindowWithInfo, WMError>(self@.info(window))
            } else {
                Err(WMError::UnknownWindow(window))
            }),
    {
        match position(&self.windows, window) {
            None => Err(WMError::UnknownWindow(window)),
            Some(i) => {
                proof {
                    lemma_index_of(self.windows@, window, i as int);
                }
                Ok(
                    WindowWithInfo {
                        window: window,
                        geometry: self.get_geom(i),
                        float_or_tile: FloatOrTile::Tile,
                        fullscreen: false,
                    },
                )
            },
        }
    }

    pub fn get_screen(&self) -> (screen: Screen)
        ensures
            screen == self@.screen,
    {
        self.screen
    }

    pub fn resize_screen(&mut self, screen: Screen)
        ensures
            final(self)@ == old(self)@.resize(screen),
    {
        self.screen = screen;
    }

    pub fn get_focused_window(&self) -> (focused: Option<Window>)
        requires
            self.wf(),
        ensures
            focused == self@.focused(),
    {
        match self.focused_index {
            Some(i) => Some(self.windows[i]),
            None => None,
        }
    }

    pub fn get_master_window(&self) -> (master: Option<Window>)
        ensures
            master == self@.master(),
    {
        if self.windows.len() > 0 {
            Some(self.windows[0])
        } else {
            None
        }
    }

    pub fn swap_with_master(&mut self, window: Window) -> (result: Result<(), WMError>)
        requires
            old(self).wf(),
        ensures
            result == (if old(self)@.manages(window) {
                Ok::<(), WMError>(())
            } else {
                Err(WMError::UnknownWindow(window))
            }),
            final(self)@ == old(self)@.swap_with_master(window),
            final(self).wf(),
    {
        proof {
            self@.lemma_swap(window, PrevOrNext::Next);
        }
        match position(&self.windows, window) {
            None => Err(WMError::UnknownWindow(window)),
            Some(pos) => {
                proof {
                    lemma_index_of(self.windows@, window, pos as int);
                }
                // Swap the master window with the given window
                let master = self.windows[0];
                self.windows[pos] = master;
                self.windows[0] = window;
                // Set the focus to the new master window
                self.focused_index = Some(0);
                assert(self.windows@ =~= swapped(old(self).windows@, pos as int, 0));
                Ok(())
            },
        }
    }

    pub fn swap_windows(&mut self, dir: PrevOrNext)
        requires
            old(self).wf(),
        ensures
            final(self)@ == old(self)@.swap_neighbor(dir),
            final(self).wf(),
    {
        proof {
            self@.lemma_swap(0, dir);
        }
        if let Some(pos) = self.focused_index {
            // Swap the focused window with the next/prev
            let other_pos = self.cycle_index(pos, dir);
            let window = self.windows[pos];
            let other = self.windows[other_pos];
            self.windows[pos] = other;
            self.windows[other_pos] = window;
            // Set the focus to the same window, but the other tile
            self.focused_index = Some(other_pos);
            assert(self.windows@ =~= swapped(old(self).windows@, pos as int, other_pos as int));
        }
    }

    /// Return the geometry for the window at position `i`.
    pub fn get_geom(&self, i: usize) -> (g: Geometry)
        requires
            i < self.windows.len(),
        ensures
            g == self@.tile_geometry(i as int),
    {
        self.layouter.get_geom(i, self.get_screen(), self.windows.len())
    }

    /// Return the next index in the direction of `dir`.
    pub fn cycle_index(&self, i: usize, dir: PrevOrNext) -> (next: usize)
        requires
            i < self.windows.len(),
        ensures
            next == step(i as int, dir, self.windows.len() as int),
            next < self.windows.len(),
    {
        match dir {
            PrevOrNext::Prev => if i == 0 {
                self.windows.len() - 1
            } else {
                i - 1
            },
            PrevOrNext::Next => if i + 1 == self.windows.len() {
                0
            } else {
                i + 1
            },
        }
    }

    /// Cycle focus, but "no window" is also considered a window: a step
    /// beyond either end of the tiles leaves no window focused.
    pub fn cycle_focus_helper(&mut self, dir: PrevOrNext)
        requires
            old(self).wf(),
        ensures
            final(self)@ == old(self)@.cycle_or_leave(dir),
            final(self).wf(),
    {
        let is_going_to_wrap = match self.focused_index {
            Some(i) => match dir {
                PrevOrNext::Prev => i == 0,
                PrevOrNext::Next => i == self.windows.len() - 1,
            },
            None => false,
        };
        if is_going_to_wrap {
            self.focused_index = None;
        } else {
            self.cycle_focus(dir);
        }
    }
}

impl<MyLayouter: GapSupport + Layouter> TilingWM<MyLayouter> {
    pub fn get_gap(&self) -> (g: GapSize)
        ensures
            g == self@.layouter.gap(),
    {
        self.layouter.get_gap()
    }

    pub fn set_gap(&mut self, gapsize: GapSize)
        ensures
            final(self)@ == (TilingState {
                layouter: old(self)@.layouter.with_gap(gapsize),
                ..old(self)@
            }),
    {
        self.layouter.set_gap(gapsize)
    }
}

} // verus!
