//! The simplest window manager: every window fills the screen, and only the
//! focused window is shown.

use vstd::prelude::*;
use crate::error::WMError;
use crate::seqs::{
    lemma_index_of, lemma_index_of_contained, lemma_push, lemma_remove, lemma_step_back, position,
    step, without,
};
use crate::types::{
    FloatOrTile, Geometry, LayoutView, PrevOrNext, Screen, Window, WindowLayout, WindowWithInfo,
};

verus! {

/// The state of the manager as a mathematical value.
pub struct MonocleState {
    /// The managed windows, in the order in which they came.
    pub windows: Seq<Window>,
    /// The position of the focused window, if a window has the focus.
    pub focus: Option<int>,
    /// The screen that is managed.
    pub screen: Screen,
}

impl MonocleState {
    /// No window is listed twice, and the focus is on a listed window.
    pub open spec fn wf(self) -> bool {
        &&& self.windows.no_duplicates()
        &&& match self.focus {
            Some(i) => 0 <= i < self.windows.len(),
            None => true,
        }
    }

    pub open spec fn manages(self, w: Window) -> bool {
        self.windows.contains(w)
    }

    /// The window that has the focus.
    pub open spec fn focused(self) -> Option<Window> {
        match self.focus {
            Some(i) => Some(self.windows[i]),
            None => None,
        }
    }

    /// The focused window alone, filling the screen.
    pub open spec fn layout(self) -> LayoutView {
        match self.focus {
            Some(i) => LayoutView {
                focused: Some(self.windows[i]),
                entries: seq![(self.windows[i], self.screen.geometry())],
            },
            None => LayoutView::empty(),
        }
    }

    /// What the manager reports of a managed window: a tile that fills the
    /// screen.
    pub open spec fn info(self, w: Window) -> WindowWithInfo {
        WindowWithInfo {
            window: w,
            geometry: self.screen.geometry(),
            float_or_tile: FloatOrTile::Tile,
            fullscreen: false,
        }
    }

    pub open spec fn init(screen: Screen) -> MonocleState {
        MonocleState { windows: Seq::empty(), focus: None, screen }
    }

    /// A new window comes last and takes the focus; a window that is already
    /// managed changes nothing.
    pub open spec fn add(self, w: Window) -> MonocleState {
        if self.manages(w) {
            self
        } else {
            MonocleState {
                windows: self.windows.push(w),
                focus: Some(self.windows.len() as int),
                ..self
            }
        }
    }

    /// Without the window `w`. Where it stood at or before the focused
    /// window, the focus moves one position back, from the first position to
    /// the last.
    pub open spec fn remove(self, w: Window) -> MonocleState {
        if self.manages(w) {
            let i = self.windows.index_of(w);
            MonocleState {
                windows: without(self.windows, w),
                focus: if self.windows.len() <= 1 {
                    None
                } else {
                    match self.focus {
                        Some(j) if i <= j => Some(
                            step(j, PrevOrNext::Prev, self.windows.len() - 1),
                        ),
                        _ => self.focus,
                    }
                },
                ..self
            }
        } else {
            self
        }
    }

    pub open spec fn focus_on(self, target: Option<Window>) -> MonocleState {
        match target {
            None => MonocleState { focus: None, ..self },
            Some(w) => if self.manages(w) {
                MonocleState { focus: Some(self.windows.index_of(w)), ..self }
            } else {
                self
            },
        }
    }

    /// With the focus moved one window along the ring. Without a focused
    /// window the first window takes the focus, whatever the direction.
    pub open spec fn cycle(self, dir: PrevOrNext) -> MonocleState {
        let n = self.windows.len() as int;
        match self.focus {
            None => if n == 0 {
                self
            } else {
                MonocleState { focus: Some(0), ..self }
            },
            Some(i) => MonocleState { focus: Some(step(i, dir, n)), ..self },
        }
    }

    pub open spec fn resize(self, screen: Screen) -> MonocleState {
        MonocleState { screen, ..self }
    }

    /// Every operation keeps the state well formed; adding and removing
    /// change the managed windows by the one window, the others not at all.
    pub proof fn lemma_wf(self, w: Window, target: Option<Window>, dir: PrevOrNext)
        requires
            self.wf(),
        ensures
            self.add(w).wf(),
            self.add(w).windows.to_set() == self.windows.to_set().insert(w),
            !self.manages(w) ==> self.add(w).focused() == Some(w),
            self.remove(w).wf(),
            self.remove(w).windows.to_set() == self.windows.to_set().remove(w),
            self.focus_on(target).wf(),
            target is Some && self.manages(target->0) ==> self.focus_on(target).focused()
                == target,
            self.cycle(dir).wf(),
            self.windows.len() > 0 ==> self.cycle(dir).focus is Some,
    {
        if self.manages(w) {
            lemma_index_of_contained(self.windows, w);
            lemma_remove(self.windows, self.windows.index_of(w));
            assert(self.windows.to_set().insert(w) =~= self.windows.to_set());
        } else {
            lemma_push(self.windows, w);
            assert(self.windows.to_set().remove(w) =~= self.windows.to_set());
        }
        if let Some(t) = target {
            if self.manages(t) {
                lemma_index_of_contained(self.windows, t);
            }
        }
    }

    /// The layout shows the focused window and no other.
    pub proof fn lemma_layout_shows_focused(self)
        requires
            self.wf(),
        ensures
            self.layout().focused == self.focused(),
            self.focused() is Some ==> self.layout().shown() == seq![self.focused()->0],
            self.focused() is None ==> self.layout().shown() == Seq::<Window>::empty(),
    {
        if let Some(i) = self.focus {
            assert(self.layout().shown() =~= seq![self.windows[i]]);
        } else {
            assert(self.layout().shown() =~= Seq::<Window>::empty());
        }
    }

    /// From a state in which a window has the focus, or in which there is no
    /// window, cycling the focus one way and then the other way restores the
    /// state.
    pub proof fn lemma_cycle_there_and_back(self, dir: PrevOrNext)
        requires
            self.wf(),
            self.focus is Some || self.windows.len() == 0,
        ensures
            self.cycle(dir).cycle(dir.reverse()) == self,
    {
        if let Some(i) = self.focus {
            lemma_step_back(i, dir, self.windows.len() as int);
        }
    }
}

/// A window manager that shows every window fullscreen, one at a time.
#[derive(Clone, Debug)]
pub struct FullscreenWM {
    /// The managed windows: the first one is on the bottom, the last one on
    /// top.
    pub windows: Vec<Window>,
    /// The screen that is managed.
    pub screen: Screen,
    /// The index of the focused window (or `None` if no window is focused).
    pub focused_index: Option<usize>,
}

impl View for FullscreenWM {
    type V = MonocleState;

    open spec fn view(&self) -> MonocleState {
        MonocleState {
            windows: self.windows@,
            focus: match self.focused_index {
                Some(i) => Some(i as int),
                None => None,
            },
            screen: self.screen,
        }
    }
}

impl FullscreenWM {
    /// Whether the manager is in a valid state.
    pub open spec fn wf(&self) -> bool {
        self@.wf()
    }

    pub fn new(screen: Screen) -> (wm: FullscreenWM)
        ensures
            wm@ == MonocleState::init(screen),
            wm.wf(),
    {
        FullscreenWM { windows: Vec::new(), screen: screen, focused_index: None }
    }

    pub fn get_windows(&self) -> (windows: Vec<Window>)
        ensures
            windows@ == self@.windows,
    {
        self.windows.clone()
    }

    pub fn is_managed(&self, window: Window) -> (managed: bool)
        ensures
            managed == self@.manages(window),
    {
        position(&self.windows, window).is_some()
    }

    pub fn add_window(&mut self, window_with_info: WindowWithInfo) -> (result: Result<(), WMError>)
        requires
            old(self).wf(),
        ensures
            result == Ok::<(), WMError>(()),
            final(self)@ == old(self)@.add(window_with_info.window),
            final(self).wf(),
    {
        proof {
            self@.lemma_wf(window_with_info.window, None, PrevOrNext::Next);
        }
        if !self.is_managed(window_with_info.window) {
            self.windows.push(window_with_info.window);
            // Focus on this new window
            self.focused_index = Some(self.windows.len() - 1);
        }
        Ok(())
    }

    pub fn remove_window(&mut self, window: Window) -> (result: Result<(), WMError>)
        requires
            old(self).wf(),
        ensures
            result == (if old(self)@.manages(window) {
                Ok::<(), WMError>(())
            } else {
                Err(WMError::UnknownWindow(window))
            }),
            final(self)@ == old(self)@.remove(window),
            final(self).wf(),
    {
        proof {
            self@.lemma_wf(window, None, PrevOrNext::Next);
        }
        match position(&self.windows, window) {
            None => Err(WMError::UnknownWindow(window)),
            Some(i) => {
                proof {
                    lemma_index_of(self.windows@, window, i as int);
                    lemma_remove(self.windows@, i as int);
                }
                self.windows.remove(i);
                // if there is no window left, no window has focus.
                if self.windows.len() == 0 {
                    self.focused_index = None;
                } else if let Some(j) = self.focused_index {
                    if i <= j {
                        // Move the focus one window back, around the ring
                        self.focused_index = Some(
                            if j == 0 {
                                self.windows.len() - 1
                            } else {
                                j - 1
                            },
                        );
                    }
                }
                Ok(())
            },
        }
    }

    pub fn get_window_layout(&self) -> (layout: WindowLayout)
        requires
            self.wf(),
        ensures
            layout@ == self@.layout(),
    {
        // Only the focused window can be visible
        match self.focused_index {
            None => WindowLayout::new(),
            Some(i) => {
                let w = self.windows[i];
                let mut windows: Vec<(Window, Geometry)> = Vec::new();
                windows.push((w, self.screen.to_geometry()));
                proof {
                    assert(windows@ =~= seq![(w, self.screen.geometry())]);
                }
                WindowLayout { focused_window: Some(w), windows: windows }
            },
        }
    }

    pub fn focus_window(&mut self, window: Option<Window>) -> (result: Result<(), WMError>)
        requires
            old(self).wf(),
        ensures
            result == (match window {
                Some(w) if !old(self)@.manages(w) => Err(WMError::UnknownWindow(w)),
                _ => Ok::<(), WMError>(()),
            }),
            final(self)@ == old(self)@.focus_on(window),
            final(self).wf(),
    {
        proof {
            self@.lemma_wf(0, window, PrevOrNext::Next);
        }
        match window {
            None => {
                self.focused_index = None;
            },
            Some(w) => {
                match position(&self.windows, w) {
                    None => {
                        return Err(WMError::UnknownWindow(w));
                    },
                    Some(i) => {
                        proof {
                            lemma_index_of(self.windows@, w, i as int);
                        }
                        // Set focused index to the position of the window passed along
                        self.focused_index = Some(i);
                    },
                }
            },
        }
        Ok(())
    }

    pub fn cycle_focus(&mut self, dir: PrevOrNext)
        requires
            old(self).wf(),
        ensures
            final(self)@ == old(self)@.cycle(dir),
            final(self).wf(),
    {
        self.focused_index = match self.focused_index {
            None => {
                // Focus the first window unless there are no windows
                if self.windows.len() == 0 {
                    None
                } else {
                    Some(0)
                }
            },
            Some(i) => {
                assert(i < self.windows.len());
                match dir {
                    PrevOrNext::Prev => Some(
                        if i == 0 {
                            self.windows.len() - 1
                        } else {
                            i - 1
                        },
                    ),
                    PrevOrNext::Next => Some(
                        if i + 1 == self.windows.len() {
                            0
                        } else {
                            i + 1
                        },
                    ),
                }
            },
        };
    }

    pub fn get_window_info(&self, window: Window) -> (result: Result<WindowWithInfo, WMError>)
        ensures
            result == (if self@.manages(window) {
                Ok::<WindowWithInfo, WMError>(self@.info(window))
            } else {
                Err(WMError::UnknownWindow(window))
            }),
    {
        match position(&self.windows, window) {
            // Return error if the window is not managed by us
            None => Err(WMError::UnknownWindow(window)),
            Some(_) => Ok(
                WindowWithInfo {
                    window: window,
                    geometry: self.screen.to_geometry(),
                    float_or_tile: FloatOrTile::Tile,
                    fullscreen: false,
                },
            ),
        }
    }

    pub fn get_screen(&self) -> (screen: Screen)
        ensures
            screen == self@.screen,
    {
        self.screen
    }

    pub fn resize_screen(&mut self, screen: Screen)
        ensures
            final(self)@ == old(self)@.resize(screen),
            old(self).wf() ==> final(self).wf(),
    {
        self.screen = screen;
    }

    pub fn get_focused_window(&self) -> (focused: Option<Window>)
        requires
            self.wf(),
        ensures
            focused == self@.focused(),
    {
        match self.focused_index {
            Some(i) => Some(self.windows[i]),
            None => None,
        }
    }
}

} // verus!
