//! The workspace router: a fixed number of independent fullscreen layers,
//! one of which is the current workspace. A window belongs to one workspace.
//! An operation that names a window goes to the workspace that owns it; any
//! other operation goes to the current workspace.

use vstd::prelude::*;
use crate::error::{MultiWMError, WMError};
use crate::fullscreen::{FsState, FullscreenWM};
use crate::layouter::GapSupport;
use crate::real_window_info::RealWindowInfo;
use crate::types::{
    GapSize, Geometry, LayoutView, PrevOrNext, Screen, Window, WindowLayout, WindowWithInfo,
    WorkspaceIndex, MAX_WORKSPACE_INDEX,
};

verus! {

/// The state of the workspace router as a mathematical value.
pub struct WsState {
    /// The index of the current workspace.
    pub current: int,
    /// The workspaces.
    pub workspaces: Seq<FsState>,
}

impl WsState {
    /// There are `MAX_WORKSPACE_INDEX + 1` workspaces, each well formed; the
    /// current workspace is one of them; no window belongs to two
    /// workspaces.
    pub open spec fn wf(self) -> bool {
        &&& self.workspaces.len() == MAX_WORKSPACE_INDEX + 1
        &&& 0 <= self.current < self.workspaces.len()
        &&& forall|i: int| 0 <= i < self.workspaces.len() ==> (#[trigger] self.workspaces[i]).wf()
        &&& forall|i: int, j: int, w: Window|
            0 <= i < self.workspaces.len() && 0 <= j < self.workspaces.len() && i != j ==> !(
            #[trigger] self.workspaces[i].manages(w) && #[trigger] self.workspaces[j].manages(w))
    }

    pub open spec fn manages(self, w: Window) -> bool {
        exists|i: int| 0 <= i < self.workspaces.len() && #[trigger] self.workspaces[i].manages(w)
    }

    /// The set of the managed windows.
    pub open spec fn managed(self) -> Set<Window> {
        Set::new(|w: Window| self.manages(w))
    }

    /// The workspace that owns `w`; the current workspace for a window that
    /// is not managed.
    pub open spec fn owner(self, w: Window) -> int {
        if self.manages(w) {
            choose|i: int| 0 <= i < self.workspaces.len() && #[trigger] self.workspaces[i].manages(w)
        } else {
            self.current
        }
    }

    /// The current workspace.
    pub open spec fn active(self) -> FsState {
        self.workspaces[self.current]
    }

    /// The windows of the first `k` workspaces, workspace by workspace.
    pub open spec fn windows_upto(self, k: int) -> Seq<Window>
        decreases k,
    {
        if k <= 0 {
            Seq::empty()
        } else {
            self.windows_upto(k - 1) + self.workspaces[k - 1].windows()
        }
    }

    /// The managed windows, workspace by workspace.
    pub open spec fn windows(self) -> Seq<Window> {
        self.windows_upto(self.workspaces.len() as int)
    }

    pub open spec fn focused(self) -> Option<Window> {
        self.active().focused()
    }

    /// The layout of the current workspace.
    pub open spec fn layout(self) -> LayoutView {
        self.active().layout()
    }

    /// What the owning workspace reports of `w`.
    pub open spec fn info(self, w: Window) -> WindowWithInfo {
        self.workspaces[self.owner(w)].info(w)
    }

    pub open spec fn init(screen: Screen) -> WsState {
        WsState {
            current: 0,
            workspaces: Seq::new((MAX_WORKSPACE_INDEX + 1) as nat, |i: int| FsState::init(screen)),
        }
    }

    /// With workspace `i` replaced by `s`.
    pub open spec fn with(self, i: int, s: FsState) -> WsState {
        WsState { workspaces: self.workspaces.update(i, s), ..self }
    }

    /// A new window goes to the current workspace; a window that some
    /// workspace manages already changes nothing.
    pub open spec fn add(self, info: WindowWithInfo) -> WsState {
        if self.manages(info.window) {
            self
        } else {
            self.with(self.current, self.active().add(info))
        }
    }

    pub open spec fn remove(self, w: Window) -> WsState {
        self.with(self.owner(w), self.workspaces[self.owner(w)].remove(w))
    }

    /// With the focus on `target`. The workspace that owns the target
    /// becomes the current one.
    pub open spec fn focus_on(self, target: Option<Window>) -> WsState {
        match target {
            None => self.with(self.current, self.active().focus_on(None)),
            Some(w) => WsState {
                current: self.owner(w),
                workspaces: self.workspaces.update(
                    self.owner(w),
                    self.workspaces[self.owner(w)].focus_on(target),
                ),
            },
        }
    }

    pub open spec fn cycle(self, dir: PrevOrNext) -> WsState {
        self.with(self.current, self.active().cycle(dir))
    }

    /// With `w` moved to the current workspace: it leaves the workspace that
    /// owns it and is added to the current one as it was, with the rectangle
    /// of its own if it has one. A window of the current workspace is taken
    /// out and added again.
    pub open spec fn moved_here(self, w: Window) -> WsState {
        let from = self.owner(w);
        let left = self.with(from, self.workspaces[from].remove(w));
        let arrived = left.active().add(self.workspaces[from].real_info(w));
        left.with(
            self.current,
            match self.workspaces[from].own_geometry(w) {
                Some(g) => arrived.set_geometry(w, g),
                None => arrived,
            },
        )
    }

    /// With `w` as the focused master tile of the current workspace; a
    /// window of another workspace is moved to the current one first.
    pub open spec fn swap_with_master(self, w: Window) -> WsState {
        if self.active().manages(w) {
            self.with(self.current, self.active().swap_with_master(w))
        } else if self.manages(w) {
            let here = self.moved_here(w);
            here.with(self.current, here.active().swap_with_master(w))
        } else {
            self
        }
    }

    pub open spec fn swap_neighbor(self, dir: PrevOrNext) -> WsState {
        self.with(self.current, self.active().swap_neighbor(dir))
    }

    pub open spec fn toggle_floating(self, w: Window) -> WsState {
        self.with(self.owner(w), self.workspaces[self.owner(w)].toggle_floating(w))
    }

    pub open spec fn set_geometry(self, w: Window, geometry: Geometry) -> WsState {
        self.with(self.owner(w), self.workspaces[self.owner(w)].set_geometry(w, geometry))
    }

    pub open spec fn toggle_minimised(self, w: Window) -> WsState {
        self.with(self.owner(w), self.workspaces[self.owner(w)].toggle_minimised(w))
    }

    /// With the fullscreen mode of `w` flipped. The workspace that owns `w`
    /// becomes the current one.
    pub open spec fn toggle_fullscreen(self, w: Window) -> WsState {
        WsState {
            current: self.owner(w),
            workspaces: self.workspaces.update(
                self.owner(w),
                self.workspaces[self.owner(w)].toggle_fullscreen(w),
            ),
        }
    }

    /// With every workspace on the new screen.
    pub open spec fn resize(self, screen: Screen) -> WsState {
        WsState {
            workspaces: Seq::new(
                self.workspaces.len(),
                |i: int| self.workspaces[i].resize(screen),
            ),
            ..self
        }
    }

    /// With the new gap in every workspace.
    pub open spec fn set_gap(self, gapsize: GapSize) -> WsState {
        WsState {
            workspaces: Seq::new(
                self.workspaces.len(),
                |i: int| self.workspaces[i].set_gap(gapsize),
            ),
            ..self
        }
    }

    /// With `index` as the current workspace, if there is such a workspace.
    pub open spec fn switch(self, index: int) -> WsState {
        if 0 <= index <= MAX_WORKSPACE_INDEX {
            WsState { current: index, ..self }
        } else {
            self
        }
    }

    /// Which workspace is the current one has no part in what is managed.
    pub proof fn lemma_same_workspaces(self, other: WsState)
        requires
            self.workspaces == other.workspaces,
        ensures
            self.managed() == other.managed(),
            self.wf() && 0 <= other.current < other.workspaces.len() ==> other.wf(),
    {
        assert forall|w: Window| self.manages(w) <==> other.manages(w) by {}
        assert(self.managed() =~= other.managed());
    }

    /// The owner of a managed window is the one workspace that manages it.
    pub proof fn lemma_owner(self, w: Window)
        requires
            self.wf(),
        ensures
            0 <= self.owner(w) < self.workspaces.len(),
            self.manages(w) <==> self.workspaces[self.owner(w)].manages(w),
            forall|i: int|
                0 <= i < self.workspaces.len() && #[trigger] self.workspaces[i].manages(w)
                    ==> self.owner(w) == i,
            !self.manages(w) ==> self.owner(w) == self.current,
    {
    }

    /// Replacing a workspace by one that manages no window of another
    /// workspace keeps the state well formed.
    pub proof fn lemma_with(self, i: int, s: FsState)
        requires
            self.wf(),
            0 <= i < self.workspaces.len(),
            s.wf(),
            forall|x: Window|
                #[trigger] s.managed().contains(x) ==> self.workspaces[i].managed().contains(x)
                    || !self.manages(x),
        ensures
            self.with(i, s).wf(),
    {
        let after = self.with(i, s);
        assert forall|a: int, b: int, w: Window|
            0 <= a < after.workspaces.len() && 0 <= b < after.workspaces.len() && a != b implies !(
        #[trigger] after.workspaces[a].manages(w) && #[trigger] after.workspaces[b].manages(
            w,
        )) by {
            if after.workspaces[a].manages(w) && after.workspaces[b].manages(w) {
                let other = if a == i { b } else { a };
                assert(self.workspaces[other].manages(w));
                if a == i || b == i {
                    s.lemma_manages(w);
                    self.workspaces[i].lemma_manages(w);
                    assert(s.managed().contains(w));
                    assert(self.workspaces[i].manages(w));
                } else {
                    assert(self.workspaces[a].manages(w) && self.workspaces[b].manages(w));
                }
            }
        }
    }

    /// Where the replacing workspace manages the windows that the replaced
    /// one managed, the windows and their owners stay.
    pub proof fn lemma_with_same(self, i: int, s: FsState)
        requires
            self.wf(),
            0 <= i < self.workspaces.len(),
            s.wf(),
            s.managed() == self.workspaces[i].managed(),
        ensures
            self.with(i, s).wf(),
            self.with(i, s).managed() == self.managed(),
            forall|w: Window| self.with(i, s).owner(w) == self.owner(w),
    {
        let after = self.with(i, s);
        self.lemma_with(i, s);
        assert forall|w: Window| after.manages(w) <==> self.manages(w) by {
            s.lemma_manages(w);
            self.workspaces[i].lemma_manages(w);
            if after.manages(w) {
                let k = choose|k: int|
                    0 <= k < after.workspaces.len() && #[trigger] after.workspaces[k].manages(w);
                assert(self.workspaces[k].manages(w));
            }
            if self.manages(w) {
                let k = choose|k: int|
                    0 <= k < self.workspaces.len() && #[trigger] self.workspaces[k].manages(w);
                assert(after.workspaces[k].manages(w));
            }
        }
        assert(after.managed() =~= self.managed());
        assert forall|w: Window| after.owner(w) == self.owner(w) by {
            self.lemma_owner(w);
            after.lemma_owner(w);
            s.lemma_manages(w);
            self.workspaces[i].lemma_manages(w);
            if self.manages(w) {
                assert(after.workspaces[self.owner(w)].manages(w));
            }
        }
    }

    /// Adding keeps the state well formed; the window is managed afterwards,
    /// next to those that were.
    pub proof fn lemma_add(self, info: WindowWithInfo)
        requires
            self.wf(),
        ensures
            self.add(info).wf(),
            self.add(info).managed() == self.managed().insert(info.window),
            !self.manages(info.window) ==> self.add(info).focused() == Some(info.window),
    {
        let w = info.window;
        if !self.manages(w) {
            let s = self.active().add(info);
            let after = self.add(info);
            self.active().lemma_add(info);
            self.lemma_with(self.current, s);
            assert forall|x: Window| after.manages(x) <==> (x == w || self.manages(x)) by {
                s.lemma_manages(x);
                self.active().lemma_manages(x);
                if after.manages(x) {
                    let k = choose|k: int|
                        0 <= k < after.workspaces.len() && #[trigger] after.workspaces[k].manages(
                            x,
                        );
                    if k != self.current {
                        assert(self.workspaces[k].manages(x));
                    }
                }
                if self.manages(x) {
                    let k = choose|k: int|
                        0 <= k < self.workspaces.len() && #[trigger] self.workspaces[k].manages(x);
                    assert(after.workspaces[k].manages(x));
                }
                if x == w {
                    assert(after.workspaces[self.current].manages(x));
                }
            }
            assert(after.managed() =~= self.managed().insert(w));
        } else {
            assert(self.managed().insert(w) =~= self.managed());
        }
    }

    /// Removing keeps the state well formed; the window is gone afterwards,
    /// and no other.
    pub proof fn lemma_remove(self, w: Window)
        requires
            self.wf(),
        ensures
            self.remove(w).wf(),
            self.remove(w).managed() == self.managed().remove(w),
    {
        let o = self.owner(w);
        let s = self.workspaces[o].remove(w);
        let after = self.remove(w);
        self.lemma_owner(w);
        self.workspaces[o].lemma_remove(w);
        self.lemma_with(o, s);
        assert forall|x: Window| after.manages(x) <==> (x != w && self.manages(x)) by {
            s.lemma_manages(x);
            self.workspaces[o].lemma_manages(x);
            if after.manages(x) {
                let k = choose|k: int|
                    0 <= k < after.workspaces.len() && #[trigger] after.workspaces[k].manages(x);
                if k != o {
                    assert(self.workspaces[k].manages(x));
                }
            }
            if self.manages(x) && x != w {
                let k = choose|k: int|
                    0 <= k < self.workspaces.len() && #[trigger] self.workspaces[k].manages(x);
                assert(after.workspaces[k].manages(x));
            }
        }
        assert(after.managed() =~= self.managed().remove(w));
    }

    /// The operations that go to one workspace and keep its windows keep the
    /// state well formed and the windows.
    pub proof fn lemma_routed(self, w: Window, target: Option<Window>, dir: PrevOrNext, g: Geometry)
        requires
            self.wf(),
        ensures
            self.focus_on(target).wf(),
            self.focus_on(target).managed() == self.managed(),
            self.cycle(dir).wf(),
            self.cycle(dir).managed() == self.managed(),
            self.swap_neighbor(dir).wf(),
            self.swap_neighbor(dir).managed() == self.managed(),
            self.toggle_floating(w).wf(),
            self.toggle_floating(w).managed() == self.managed(),
            self.set_geometry(w, g).wf(),
            self.set_geometry(w, g).managed() == self.managed(),
            self.toggle_minimised(w).wf(),
            self.toggle_minimised(w).managed() == self.managed(),
            self.toggle_fullscreen(w).wf(),
            self.toggle_fullscreen(w).managed() == self.managed(),
    {
        let o = self.owner(w);
        self.lemma_owner(w);
        self.workspaces[o].lemma_named(w, g);
        self.lemma_with_same(o, self.workspaces[o].toggle_floating(w));
        self.lemma_with_same(o, self.workspaces[o].set_geometry(w, g));
        self.lemma_with_same(o, self.workspaces[o].toggle_minimised(w));
        self.lemma_with_same(o, self.workspaces[o].toggle_fullscreen(w));
        self.toggle_fullscreen(w).lemma_same_workspaces(
            self.with(o, self.workspaces[o].toggle_fullscreen(w)),
        );
        self.active().lemma_focus(None, dir);
        self.lemma_with_same(self.current, self.active().focus_on(None));
        self.lemma_with_same(self.current, self.active().cycle(dir));
        self.lemma_with_same(self.current, self.active().swap_neighbor(dir));
        if let Some(t) = target {
            let p = self.owner(t);
            self.lemma_owner(t);
            self.workspaces[p].lemma_focus(target, dir);
            self.lemma_with_same(p, self.workspaces[p].focus_on(target));
            self.focus_on(target).lemma_same_workspaces(
                self.with(p, self.workspaces[p].focus_on(target)),
            );
        }
    }

    /// Moving a window to the current workspace keeps the state well formed
    /// and the windows; the current workspace owns the window afterwards.
    pub proof fn lemma_moved_here(self, w: Window)
        requires
            self.wf(),
            self.manages(w),
        ensures
            self.moved_here(w).wf(),
            self.moved_here(w).managed() == self.managed(),
            self.moved_here(w).active().manages(w),
            self.moved_here(w).current == self.current,
    {
        let from = self.owner(w);
        self.lemma_owner(w);
        self.lemma_remove(w);
        let left = self.remove(w);
        let info = self.workspaces[from].real_info(w);
        assert(info.window == w) by {
            self.workspaces[from].lemma_real_info(w);
        }
        assert(!left.manages(w)) by {
            assert(!left.managed().contains(w));
        }
        left.lemma_add(info);
        assert(self.managed().remove(w).insert(w) =~= self.managed());
        left.active().lemma_add(info);
        left.active().lemma_manages(w);
        let arrived = left.active().add(info);
        arrived.lemma_manages(w);
        let there = left.add(info);
        assert(there == left.with(self.current, arrived));
        if let Some(g) = self.workspaces[from].own_geometry(w) {
            arrived.lemma_named(w, g);
            arrived.set_geometry(w, g).lemma_manages(w);
            there.lemma_with_same(self.current, arrived.set_geometry(w, g));
            assert(there.with(self.current, arrived.set_geometry(w, g)).workspaces
                =~= self.moved_here(w).workspaces);
        }
    }

    /// Swapping with the master keeps the state well formed and the windows;
    /// the window is in the current workspace afterwards and has the focus.
    pub proof fn lemma_swap_with_master(self, w: Window)
        requires
            self.wf(),
        ensures
            self.swap_with_master(w).wf(),
            self.swap_with_master(w).managed() == self.managed(),
            self.swap_with_master(w).current == self.current,
            self.manages(w) ==> self.swap_with_master(w).focused() == Some(w),
    {
        if self.active().manages(w) {
            self.active().lemma_named(w, Geometry { x: 0, y: 0, width: 0, height: 0 });
            self.lemma_with_same(self.current, self.active().swap_with_master(w));
        } else if self.manages(w) {
            self.lemma_moved_here(w);
            let here = self.moved_here(w);
            here.active().lemma_named(w, Geometry { x: 0, y: 0, width: 0, height: 0 });
            here.lemma_with_same(self.current, here.active().swap_with_master(w));
        }
    }

    /// The windows of the first `k` workspaces are those that one of these
    /// workspaces manages, each listed once.
    pub proof fn lemma_windows_upto(self, k: int)
        requires
            self.wf(),
            0 <= k <= self.workspaces.len(),
        ensures
            self.windows_upto(k).no_duplicates(),
            forall|w: Window|
                self.windows_upto(k).contains(w) <==> exists|i: int|
                    0 <= i < k && #[trigger] self.workspaces[i].manages(w),
        decreases k,
    {
        if k > 0 {
            self.lemma_windows_upto(k - 1);
            let before = self.windows_upto(k - 1);
            let more = self.workspaces[k - 1].windows();
            self.workspaces[k - 1].lemma_windows_distinct();
            assert forall|w: Window| more.contains(w) <==> self.workspaces[k - 1].manages(w) by {
                self.workspaces[k - 1].lemma_manages(w);
                assert(more.to_set().contains(w) <==> more.contains(w));
            }
            assert forall|i: int, j: int|
                0 <= i < before.len() && 0 <= j < more.len() implies before[i] != more[j] by {
                assert(before.contains(before[i]));
                assert(more.contains(more[j]));
            }
            vstd::seq_lib::lemma_no_dup_in_concat(before, more);
            assert forall|w: Window|
                self.windows_upto(k).contains(w) <==> exists|i: int|
                    0 <= i < k && #[trigger] self.workspaces[i].manages(w) by {
                let all = self.windows_upto(k);
                if all.contains(w) {
                    let p = choose|p: int| 0 <= p < all.len() && all[p] == w;
                    if p < before.len() {
                        assert(before[p] == w);
                        assert(before.contains(w));
                    } else {
                        assert(more[p - before.len()] == w);
                        assert(more.contains(w));
                        assert(self.workspaces[k - 1].manages(w));
                    }
                }
                if exists|i: int| 0 <= i < k && #[trigger] self.workspaces[i].manages(w) {
                    let i = choose|i: int| 0 <= i < k && #[trigger] self.workspaces[i].manages(w);
                    if i < k - 1 {
                        assert(before.contains(w));
                        let p = choose|p: int| 0 <= p < before.len() && before[p] == w;
                        assert(all[p] == w);
                    } else {
                        assert(more.contains(w));
                        let p = choose|p: int| 0 <= p < more.len() && more[p] == w;
                        assert(all[before.len() + p] == w);
                    }
                }
            }
        }
    }

    /// No window is listed twice among the managed windows, and the listed
    /// windows are the managed ones.
    pub proof fn lemma_windows_distinct(self)
        requires
            self.wf(),
        ensures
            self.windows().no_duplicates(),
            forall|w: Window| self.windows().contains(w) <==> self.manages(w),
    {
        self.lemma_windows_upto(self.workspaces.len() as int);
    }

    /// The layout is that of the current workspace: while a window is
    /// fullscreen there, it shows that window and no other; otherwise it
    /// shows the windows of the current workspace that are not minimised,
    /// and each of them once.
    pub proof fn lemma_layout_shows_visible(self)
        requires
            self.wf(),
        ensures
            self.layout().shown().no_duplicates(),
            self.active().held is Some ==> self.layout().entries.len() == 1,
            forall|w: Window|
                self.layout().shown().contains(w) <==> self.active().manages(w)
                    && !self.active().is_minimised(w) && (self.active().held is None
                    || self.active().is_fullscreen(w)),
            forall|w: Window| self.layout().shown().contains(w) ==> self.manages(w),
    {
        self.active().lemma_layout_shows_visible();
        assert forall|w: Window| self.layout().shown().contains(w) implies self.manages(w) by {
            assert(self.workspaces[self.current].manages(w));
        }
    }

    /// Whether a step of the focus in direction `dir` and a step back leave
    /// the layout as it is.
    pub open spec fn stack_survives(self, dir: PrevOrNext) -> bool {
        self.active().stack_survives(dir)
    }

    /// Where the stack survives them, a step of the focus along the ring and
    /// a step back restore the focus and the layout.
    pub proof fn lemma_cycle_there_and_back(self, dir: PrevOrNext)
        requires
            self.wf(),
            self.stack_survives(dir),
        ensures
            self.cycle(dir).cycle(dir.reverse()).focused() == self.focused(),
            self.cycle(dir).cycle(dir.reverse()).layout() == self.layout(),
    {
        self.active().lemma_cycle_there_and_back(dir);
    }

    /// Where no window of the current workspace is fullscreen and a tile has
    /// the focus, or no window, swapping the focused window with its
    /// neighbour one way and then the other way restores the state.
    pub proof fn lemma_swap_there_and_back(self, dir: PrevOrNext)
        requires
            self.wf(),
            self.active().held is None,
            self.active().wrapped.wrapped.focus is None,
        ensures
            self.swap_neighbor(dir).swap_neighbor(dir.reverse()) == self,
    {
        self.active().lemma_swap_there_and_back(dir);
        let there = self.swap_neighbor(dir);
        assert(there.swap_neighbor(dir.reverse()).workspaces =~= self.workspaces);
    }

    /// Switching to another workspace and back restores the state, and so
    /// the layout; switching twice to the same workspace is switching once.
    pub proof fn lemma_switch_there_and_back(self, index: int)
        requires
            self.wf(),
            0 <= index <= MAX_WORKSPACE_INDEX,
        ensures
            self.switch(index).switch(self.current) == self,
            self.switch(index).switch(self.current).layout() == self.layout(),
            self.switch(index).switch(index) == self.switch(index),
            self.switch(index).workspaces == self.workspaces,
    {
    }

    /// A state whose workspaces are well formed and manage, each, what the
    /// workspace in its place manages here is well formed.
    pub proof fn lemma_same_members(self, other: WsState)
        requires
            self.wf(),
            other.current == self.current,
            other.workspaces.len() == self.workspaces.len(),
            forall|i: int|
                0 <= i < self.workspaces.len() ==> (#[trigger] other.workspaces[i]).wf(),
            forall|i: int, w: Window|
                0 <= i < self.workspaces.len() ==> #[trigger] other.workspaces[i].manages(w)
                    == self.workspaces[i].manages(w),
        ensures
            other.wf(),
            other.managed() == self.managed(),
    {
        assert forall|i: int, j: int, w: Window|
            0 <= i < other.workspaces.len() && 0 <= j < other.workspaces.len() && i != j implies !(
        #[trigger] other.workspaces[i].manages(w) && #[trigger] other.workspaces[j].manages(
            w,
        )) by {
            assert(other.workspaces[i].manages(w) == self.workspaces[i].manages(w));
            assert(other.workspaces[j].manages(w) == self.workspaces[j].manages(w));
        }
        assert forall|w: Window| other.manages(w) <==> self.manages(w) by {
            if other.manages(w) {
                let k = choose|k: int|
                    0 <= k < other.workspaces.len() && #[trigger] other.workspaces[k].manages(w);
                assert(self.workspaces[k].manages(w));
            }
            if self.manages(w) {
                let k = choose|k: int|
                    0 <= k < self.workspaces.len() && #[trigger] self.workspaces[k].manages(w);
                assert(other.workspaces[k].manages(w));
            }
        }
        assert(other.managed() =~= self.managed());
    }

    /// Resizing, setting the gap and switching keep the state well formed
    /// and the windows.
    pub proof fn lemma_broadcast(self, screen: Screen, gapsize: GapSize, index: int)
        requires
            self.wf(),
        ensures
            self.resize(screen).wf(),
            self.resize(screen).managed() == self.managed(),
            self.set_gap(gapsize).wf(),
            self.set_gap(gapsize).managed() == self.managed(),
            self.switch(index).wf(),
            self.switch(index).workspaces == self.workspaces,
            self.switch(index).switch(index) == self.switch(index),
            0 <= index <= MAX_WORKSPACE_INDEX ==> self.switch(index).switch(self.current) == self,
    {
        assert forall|i: int| 0 <= i < self.workspaces.len() implies {
            &&& (#[trigger] self.resize(screen).workspaces[i]).wf()
            &&& (#[trigger] self.set_gap(gapsize).workspaces[i]).wf()
            &&& forall|w: Window|
                self.resize(screen).workspaces[i].manages(w) == self.workspaces[i].manages(w)
            &&& forall|w: Window|
                self.set_gap(gapsize).workspaces[i].manages(w) == self.workspaces[i].manages(w)
        } by {
            self.workspaces[i].lemma_settings(screen, gapsize);
        }
        self.lemma_same_members(self.resize(screen));
        self.lemma_same_members(self.set_gap(gapsize));
    }
}

/// The error for a window that no workspace manages.
pub open spec fn unknown_window(w: Window) -> MultiWMError<WMError> {
    MultiWMError::WrappedError(WMError::UnknownWindow(w))
}

/// Turns the result of a workspace into a result of the router.
pub fn lift(result: Result<(), WMError>) -> (lifted: Result<(), MultiWMError<WMError>>)
    ensures
        lifted == (match result {
            Ok(_) => Ok::<(), MultiWMError<WMError>>(()),
            Err(e) => Err(MultiWMError::WrappedError(e)),
        }),
{
    match result {
        Ok(()) => Ok(()),
        Err(e) => Err(MultiWMError::from(e)),
    }
}

/// A window manager with several workspaces, each a window manager of its
/// own.
#[derive(Clone, Debug)]
pub struct WorkspaceWM {
    /// The index of the current workspace.
    pub current_workspace: WorkspaceIndex,
    /// The window managers of the workspaces.
    pub wrapped_wms: Vec<FullscreenWM>,
}

impl View for WorkspaceWM {
    type V = WsState;

    open spec fn view(&self) -> WsState {
        WsState {
            current: self.current_workspace as int,
            workspaces: Seq::new(self.wrapped_wms@.len(), |i: int| self.wrapped_wms@[i]@),
        }
    }
}

impl WorkspaceWM {
    /// Whether the manager is in a valid state.
    pub open spec fn wf(&self) -> bool {
        self@.wf()
    }

    /// Get the wm for the current workspace.
    pub fn get_current_wm(&self) -> (wm: &FullscreenWM)
        requires
            self.wf(),
        ensures
            wm@ == self@.active(),
            wm.wf(),
    {
        &self.wrapped_wms[self.current_workspace]
    }

    /// Get the index of the wm for the given window, or the index of the
    /// current workspace if no workspace manages the window.
    pub fn get_index_for_window(&self, window: Window) -> (index: WorkspaceIndex)
        requires
            self.wf(),
        ensures
            index == self@.owner(window),
            index < self.wrapped_wms.len(),
    {
        proof {
            self@.lemma_owner(window);
        }
        let mut i: usize = 0;
        while i < self.wrapped_wms.len()
            invariant
                self.wf(),
                i <= self.wrapped_wms.len(),
                forall|k: int| 0 <= k < i ==> !(#[trigger] self@.workspaces[k]).manages(window),
            decreases self.wrapped_wms.len() - i,
        {
            if self.wrapped_wms[i].is_managed(window) {
                proof {
                    assert(self@.workspaces[i as int].manages(window));
                    self@.lemma_owner(window);
                }
                return i;
            }
            i += 1;
        }
        self.current_workspace
    }

    /// Get the wm that manages the given window, or the current workspace
    /// if no workspace manages the window.
    pub fn get_wm_for_window(&self, window: Window) -> (wm: &FullscreenWM)
        requires
            self.wf(),
        ensures
            wm@ == self@.workspaces[self@.owner(window)],
            wm.wf(),
    {
        let pos = self.get_index_for_window(window);
        proof {
            assert(self@.workspaces[pos as int].wf());
        }
        &self.wrapped_wms[pos]
    }

    /// Moves the given window of another workspace to the current workspace.
    pub fn move_window_to_current_workspace(&mut self, window: Window) -> (result: Result<
        (),
        WMError,
    >)
        requires
            old(self).wf(),
        ensures
            result == (if old(self)@.manages(window) {
                Ok::<(), WMError>(())
            } else {
                Err(WMError::UnknownWindow(window))
            }),
            final(self)@ == (if old(self)@.manages(window) {
                old(self)@.moved_here(window)
            } else {
                old(self)@
            }),
            final(self).wf(),
    {
        proof {
            self@.lemma_owner(window);
            if self@.manages(window) {
                self@.lemma_moved_here(window);
            }
        }
        let from = self.get_index_for_window(window);
        let info = match self.wrapped_wms[from].get_real_window_info(window) {
            Ok(info) => info,
            Err(e) => {
                return Err(e);
            },
        };
        let own = self.wrapped_wms[from].get_own_geometry(window);
        let _ = self.wrapped_wms[from].remove_window(window);
        let ghost left = self@;
        proof {
            assert(left.workspaces =~= old(self)@.workspaces.update(
                from as int,
                old(self)@.workspaces[from as int].remove(window),
            ));
            old(self)@.workspaces[from as int].lemma_remove(window);
            old(self)@.active().lemma_remove(window);
        }
        let current = self.current_workspace;
        let result = self.wrapped_wms[current].add_window(info);
        if let Some(g) = own {
            proof {
                left.active().lemma_add(info);
                left.active().add(info).lemma_manages(window);
                old(self)@.workspaces[from as int].lemma_real_info(window);
            }
            let _ = self.wrapped_wms[current].set_window_geometry(window, g);
        }
        proof {
            assert(self@.workspaces =~= old(self)@.moved_here(window).workspaces);
        }
        result
    }

    pub fn new(screen: Screen) -> (wm: WorkspaceWM)
        ensures
            wm@ == WsState::init(screen),
            wm.wf(),
    {
        let mut wrapped_wms: Vec<FullscreenWM> = Vec::new();
        while wrapped_wms.len() <= MAX_WORKSPACE_INDEX
            invariant
                wrapped_wms.len() <= MAX_WORKSPACE_INDEX + 1,
                forall|k: int|
                    0 <= k < wrapped_wms.len() ==> (#[trigger] wrapped_wms@[k])@ == FsState::init(
                        screen,
                    ) && wrapped_wms@[k].wf(),
            decreases MAX_WORKSPACE_INDEX + 1 - wrapped_wms.len(),
        {
            wrapped_wms.push(FullscreenWM::new(screen));
        }
        let wm = WorkspaceWM { current_workspace: 0, wrapped_wms: wrapped_wms };
        proof {
            assert(wm@.workspaces =~= WsState::init(screen).workspaces);
            assert forall|i: int, w: Window| 0 <= i < wm@.workspaces.len() implies !(
            #[trigger] wm@.workspaces[i].manages(w)) by {
                let s = FsState::init(screen);
                assert(wm.wrapped_wms@[i].wf());
                s.lemma_manages(w);
                assert(s.managed() =~= Set::empty());
            }
        }
        wm
    }

    pub fn get_windows(&self) -> (windows: Vec<Window>)
        ensures
            windows@ == self@.windows(),
            self.wf() ==> windows@.no_duplicates(),
    {
        proof {
            if self.wf() {
                self@.lemma_windows_distinct();
            }
        }
        let mut windows: Vec<Window> = Vec::new();
        let mut i: usize = 0;
        while i < self.wrapped_wms.len()
            invariant
                i <= self.wrapped_wms.len(),
                windows@ == self@.windows_upto(i as int),
            decreases self.wrapped_wms.len() - i,
        {
            let mut more = self.wrapped_wms[i].get_windows();
            windows.append(&mut more);
            i += 1;
        }
        windows
    }

    /// A window that some workspace manages already is not added again.
    pub fn add_window(&mut self, window_with_info: WindowWithInfo) -> (result: Result<
        (),
        MultiWMError<WMError>,
    >)
        requires
            old(self).wf(),
        ensures
            result == Ok::<(), MultiWMError<WMError>>(()),
            final(self)@ == old(self)@.add(window_with_info),
            final(self).wf(),
    {
        proof {
            self@.lemma_add(window_with_info);
        }
        if self.is_managed(window_with_info.window) {
            return Ok(());
        }
        let current = self.current_workspace;
        let result = self.wrapped_wms[current].add_window(window_with_info);
        proof {
            assert(self@.workspaces =~= old(self)@.workspaces.update(
                current as int,
                self.wrapped_wms@[current as int]@,
            ));
        }
        lift(result)
    }

    pub fn remove_window(&mut self, window: Window) -> (result: Result<(), MultiWMError<WMError>>)
        requires
            old(self).wf(),
        ensures
            result == (if old(self)@.manages(window) {
                Ok::<(), MultiWMError<WMError>>(())
            } else {
                Err(unknown_window(window))
            }),
            final(self)@ == old(self)@.remove(window),
            final(self).wf(),
    {
        proof {
            self@.lemma_remove(window);
            self@.lemma_owner(window);
        }
        let pos = self.get_index_for_window(window);
        let result = self.wrapped_wms[pos].remove_window(window);
        proof {
            assert(self@.workspaces =~= old(self)@.workspaces.update(
                pos as int,
                self.wrapped_wms@[pos as int]@,
            ));
        }
        lift(result)
    }

    pub fn get_window_layout(&self) -> (layout: WindowLayout)
        requires
            self.wf(),
        ensures
            layout@ == self@.layout(),
    {
        self.get_current_wm().get_window_layout()
    }

    /// Will switch workspace if the window is not in the current workspace.
    pub fn focus_window(&mut self, window: Option<Window>) -> (result: Result<
        (),
        MultiWMError<WMError>,
    >)
        requires
            old(self).wf(),
        ensures
            result == (match window {
                Some(w) if !old(self)@.manages(w) => Err(unknown_window(w)),
                _ => Ok::<(), MultiWMError<WMError>>(()),
            }),
            final(self)@ == old(self)@.focus_on(window),
            final(self).wf(),
    {
        proof {
            self@.lemma_routed(0, window, PrevOrNext::Next, Geometry { x: 0, y: 0, width: 0, height: 0 });
        }
        let pos = match window {
            None => self.current_workspace,
            Some(w) => {
                proof {
                    self@.lemma_owner(w);
                }
                self.get_index_for_window(w)
            },
        };
        self.current_workspace = pos;
        let result = self.wrapped_wms[pos].focus_window(window);
        proof {
            assert(self@.workspaces =~= old(self)@.workspaces.update(
                pos as int,
                self.wrapped_wms@[pos as int]@,
            ));
        }
        lift(result)
    }

    pub fn cycle_focus(&mut self, dir: PrevOrNext)
        requires
            old(self).wf(),
        ensures
            final(self)@ == old(self)@.cycle(dir),
            final(self).wf(),
    {
        proof {
            self@.lemma_routed(0, None, dir, Geometry { x: 0, y: 0, width: 0, height: 0 });
        }
        let current = self.current_workspace;
        self.wrapped_wms[current].cycle_focus(dir);
        proof {
            assert(self@.workspaces =~= old(self)@.workspaces.update(
                current as int,
                self.wrapped_wms@[current as int]@,
            ));
        }
    }

    pub fn get_window_info(&self, window: Window) -> (result: Result<
        WindowWithInfo,
        MultiWMError<WMError>,
    >)
        requires
            self.wf(),
        ensures
            result == (if self@.manages(window) {
                Ok::<WindowWithInfo, MultiWMError<WMError>>(self@.info(window))
            } else {
                Err(unknown_window(window))
            }),
    {
        proof {
            self@.lemma_owner(window);
        }
        match self.get_wm_for_window(window).get_window_info(window) {
            Ok(info) => Ok(info),
            Err(e) => Err(MultiWMError::from(e)),
        }
    }

    pub fn get_screen(&self) -> (screen: Screen)
        requires
            self.wf(),
        ensures
            screen == self@.active().screen(),
    {
        self.get_current_wm().get_screen()
    }

    /// Every workspace gets the new screen.
    pub fn resize_screen(&mut self, screen: Screen)
        requires
            old(self).wf(),
        ensures
            final(self)@ == old(self)@.resize(screen),
            final(self).wf(),
    {
        proof {
            self@.lemma_broadcast(screen, 0, 0);
        }
        let mut i: usize = 0;
        while i < self.wrapped_wms.len()
            invariant
                i <= self.wrapped_wms.len(),
                self.wrapped_wms.len() == old(self).wrapped_wms.len(),
                self.current_workspace == old(self).current_workspace,
                forall|k: int|
                    0 <= k < i ==> (#[trigger] self.wrapped_wms@[k])@ == old(
                        self,
                    ).wrapped_wms@[k]@.resize(screen),
                forall|k: int|
                    i <= k < self.wrapped_wms.len() ==> (#[trigger] self.wrapped_wms@[k])@ == old(
                        self,
                    ).wrapped_wms@[k]@,
            decreases self.wrapped_wms.len() - i,
        {
            self.wrapped_wms[i].resize_screen(screen);
            i += 1;
        }
        proof {
            assert(self@.workspaces =~= old(self)@.resize(screen).workspaces);
        }
    }

    pub fn get_focused_window(&self) -> (focused: Option<Window>)
        requires
            self.wf(),
        ensures
            focused == self@.focused(),
    {
        self.get_current_wm().get_focused_window()
    }

    pub fn is_managed(&self, window: Window) -> (managed: bool)
        ensures
            managed == self@.manages(window),
    {
        let mut i: usize = 0;
        while i < self.wrapped_wms.len()
            invariant
                i <= self.wrapped_wms.len(),
                forall|k: int| 0 <= k < i ==> !(#[trigger] self@.workspaces[k]).manages(window),
            decreases self.wrapped_wms.len() - i,
        {
            if self.wrapped_wms[i].is_managed(window) {
                proof {
                    assert(self@.workspaces[i as int].manages(window));
                }
                return true;
            }
            i += 1;
        }
        false
    }

    pub fn get_master_window(&self) -> (master: Option<Window>)
        requires
            self.wf(),
        ensures
            master == self@.active().wrapped.wrapped.tiling.master(),
    {
        self.get_current_wm().get_master_window()
    }

    /// If the window is not on the current workspace, it is moved to this
    /// workspace first.
    pub fn swap_with_master(&mut self, window: Window) -> (result: Result<
        (),
        MultiWMError<WMError>,
    >)
        requires
            old(self).wf(),
        ensures
            result == (if old(self)@.manages(window) {
                Ok::<(), MultiWMError<WMError>>(())
            } else {
                Err(unknown_window(window))
            }),
            final(self)@ == old(self)@.swap_with_master(window),
            final(self).wf(),
    {
        proof {
            self@.lemma_swap_with_master(window);
            self@.lemma_owner(window);
        }
        if !self.get_current_wm().is_managed(window) {
            match self.move_window_to_current_workspace(window) {
                Ok(()) => {},
                Err(e) => {
                    return Err(MultiWMError::from(e));
                },
            }
            proof {
                old(self)@.lemma_moved_here(window);
            }
        }
        let ghost here = self@;
        let current = self.current_workspace;
        let result = self.wrapped_wms[current].swap_with_master(window);
        proof {
            assert(self@.workspaces =~= here.workspaces.update(
                current as int,
                here.active().swap_with_master(window),
            ));
        }
        lift(result)
    }

    pub fn swap_windows(&mut self, dir: PrevOrNext)
        requires
            old(self).wf(),
        ensures
            final(self)@ == old(self)@.swap_neighbor(dir),
            final(self).wf(),
    {
        proof {
            self@.lemma_routed(0, None, dir, Geometry { x: 0, y: 0, width: 0, height: 0 });
        }
        let current = self.current_workspace;
        self.wrapped_wms[current].swap_windows(dir);
        proof {
            assert(self@.workspaces =~= old(self)@.workspaces.update(
                current as int,
                self.wrapped_wms@[current as int]@,
            ));
        }
    }

    /// The floating windows of the current workspace.
    pub fn get_floating_windows(&self) -> (windows: Vec<Window>)
        requires
            self.wf(),
        ensures
            windows@ == self@.active().wrapped.wrapped.floating,
    {
        self.get_current_wm().get_floating_windows()
    }

    
    pub fn toggle_floating(&mut self, window: Window) -> (result: Result<(), MultiWMError<WMError>>)
        requires
            old(self).wf(),
        ensures
            result == (if old(self)@.manages(window) {
                Ok::<(), MultiWMError<WMError>>(())
            } else {
                Err(unknown_window(window))
            }),
            final(self)@ == old(self)@.toggle_floating(window),
            final(self).wf(),
    {
        proof {
            self@.lemma_routed(window, None, PrevOrNext::Next, Geometry { x: 0, y: 0, width: 0, height: 0 });
            self@.lemma_owner(window);
        }
        let pos = self.get_index_for_window(window);
        let result = self.wrapped_wms[pos].toggle_floating(window);
        proof {
            assert(self@.workspaces =~= old(self)@.workspaces.update(
                pos as int,
                self.wrapped_wms@[pos as int]@,
            ));
        }
        lift(result)
    }

    
    pub fn set_window_geometry(&mut self, window: Window, new_geometry: Geometry) -> (result: Result<(), MultiWMError<WMError>>)
        requires
            old(self).wf(),
        ensures
            result == (if old(self)@.manages(window) {
                Ok::<(), MultiWMError<WMError>>(())
            } else {
                Err(unknown_window(window))
            }),
            final(self)@ == old(self)@.set_geometry(window, new_geometry),
            final(self).wf(),
    {
        proof {
            self@.lemma_routed(window, None, PrevOrNext::Next, new_geometry);
            self@.lemma_owner(window);
        }
        let pos = self.get_index_for_window(window);
        let result = self.wrapped_wms[pos].set_window_geometry(window, new_geometry);
        proof {
            assert(self@.workspaces =~= old(self)@.workspaces.update(
                pos as int,
                self.wrapped_wms@[pos as int]@,
            ));
        }
        lift(result)
    }

    /// Whether the window floats in the workspace that owns it.
    pub fn is_floating(&self, window: Window) -> (floating: bool)
        requires
            self.wf(),
        ensures
            floating == self@.workspaces[self@.owner(window)].wrapped.wrapped.is_floating(window),
    {
        self.get_wm_for_window(window).is_floating(window)
    }

    /// Whether the window is minimised in the workspace that owns it.
    pub fn is_minimised(&self, window: Window) -> (minimised: bool)
        requires
            self.wf(),
        ensures
            minimised == self@.workspaces[self@.owner(window)].is_minimised(window),
    {
        self.get_wm_for_window(window).is_minimised(window)
    }

    /// Whether the window is the fullscreen window of the workspace that
    /// owns it.
    pub fn is_fullscreen(&self, window: Window) -> (fullscreen: bool)
        requires
            self.wf(),
        ensures
            fullscreen == self@.workspaces[self@.owner(window)].is_fullscreen(window),
    {
        self.get_wm_for_window(window).is_fullscreen(window)
    }

    /// The minimised windows of the current workspace.
    pub fn get_minimised_windows(&self) -> (windows: Vec<Window>)
        requires
            self.wf(),
        ensures
            windows@ == self@.active().wrapped.minimised,
    {
        self.get_current_wm().get_minimised_windows()
    }

    
    pub fn toggle_minimised(&mut self, window: Window) -> (result: Result<(), MultiWMError<WMError>>)
        requires
            old(self).wf(),
        ensures
            result == (if old(self)@.manages(window) {
                Ok::<(), MultiWMError<WMError>>(())
            } else {
                Err(unknown_window(window))
            }),
            final(self)@ == old(self)@.toggle_minimised(window),
            final(self).wf(),
    {
        proof {
            self@.lemma_routed(window, None, PrevOrNext::Next, Geometry { x: 0, y: 0, width: 0, height: 0 });
            self@.lemma_owner(window);
        }
        let pos = self.get_index_for_window(window);
        let result = self.wrapped_wms[pos].toggle_minimised(window);
        proof {
            assert(self@.workspaces =~= old(self)@.workspaces.update(
                pos as int,
                self.wrapped_wms@[pos as int]@,
            ));
        }
        lift(result)
    }

    /// The fullscreen window of the current workspace.
    pub fn get_fullscreen_window(&self) -> (window: Option<Window>)
        requires
            self.wf(),
        ensures
            window == self@.active().fullscreen_window(),
    {
        self.get_current_wm().get_fullscreen_window()
    }

    /// Will switch workspace if the window is not in the current workspace.
    pub fn toggle_fullscreen(&mut self, window: Window) -> (result: Result<(), MultiWMError<WMError>>)
        requires
            old(self).wf(),
        ensures
            result == (if old(self)@.manages(window) {
                Ok::<(), MultiWMError<WMError>>(())
            } else {
                Err(unknown_window(window))
            }),
            final(self)@ == old(self)@.toggle_fullscreen(window),
            final(self).wf(),
    {
        proof {
            self@.lemma_routed(window, None, PrevOrNext::Next, Geometry { x: 0, y: 0, width: 0, height: 0 });
            self@.lemma_owner(window);
        }
        let pos = self.get_index_for_window(window);
        self.current_workspace = pos;
        let result = self.wrapped_wms[pos].toggle_fullscreen(window);
        proof {
            assert(self@.workspaces =~= old(self)@.workspaces.update(
                pos as int,
                self.wrapped_wms@[pos as int]@,
            ));
        }
        lift(result)
    }

    pub fn get_gap(&self) -> (g: GapSize)
        requires
            self.wf(),
        ensures
            g == self@.active().wrapped.wrapped.tiling.layouter.gap(),
    {
        self.get_current_wm().get_gap()
    }

    /// Every workspace gets the new gap.
    pub fn set_gap(&mut self, gap_size: GapSize)
        requires
            old(self).wf(),
        ensures
            final(self)@ == old(self)@.set_gap(gap_size),
            final(self).wf(),
    {
        proof {
            self@.lemma_broadcast(Screen { width: 0, height: 0 }, gap_size, 0);
        }
        let mut i: usize = 0;
        while i < self.wrapped_wms.len()
            invariant
                i <= self.wrapped_wms.len(),
                self.wrapped_wms.len() == old(self).wrapped_wms.len(),
                self.current_workspace == old(self).current_workspace,
                forall|k: int|
                    0 <= k < i ==> (#[trigger] self.wrapped_wms@[k])@ == old(
                        self,
                    ).wrapped_wms@[k]@.set_gap(gap_size),
                forall|k: int|
                    i <= k < self.wrapped_wms.len() ==> (#[trigger] self.wrapped_wms@[k])@ == old(
                        self,
                    ).wrapped_wms@[k]@,
            decreases self.wrapped_wms.len() - i,
        {
            self.wrapped_wms[i].set_gap(gap_size);
            i += 1;
        }
        proof {
            assert(self@.workspaces =~= old(self)@.set_gap(gap_size).workspaces);
        }
    }

    pub fn get_current_workspace_index(&self) -> (index: WorkspaceIndex)
        ensures
            index == self@.current,
    {
        self.current_workspace
    }

    pub fn get_workspace(&self, index: WorkspaceIndex) -> (result: Result<
        &FullscreenWM,
        MultiWMError<WMError>,
    >)
        requires
            self.wf(),
        ensures
            match result {
                Ok(wm) => index <= MAX_WORKSPACE_INDEX && wm@ == self@.workspaces[index as int],
                Err(e) => index > MAX_WORKSPACE_INDEX && e == MultiWMError::<
                    WMError,
                >::UnknownWorkspace(index),
            },
    {
        if index > MAX_WORKSPACE_INDEX {
            Err(MultiWMError::UnknownWorkspace(index))
        } else {
            Ok(&self.wrapped_wms[index])
        }
    }

    /// Hands out a workspace for changes. Whoever changes it has to keep
    /// its windows apart from those of the other workspaces.
    pub fn get_workspace_mut(&mut self, index: WorkspaceIndex) -> (result: Result<
        &mut FullscreenWM,
        MultiWMError<WMError>,
    >)
        requires
            old(self).wf(),
        ensures
            match result {
                Ok(wm) => {
                    &&& index <= MAX_WORKSPACE_INDEX
                    &&& wm@ == old(self)@.workspaces[index as int]
                    &&& final(self)@.current == old(self)@.current
                    &&& final(self)@.workspaces == old(self)@.workspaces.update(
                        index as int,
                        final(wm)@,
                    )
                },
                Err(e) => {
                    &&& index > MAX_WORKSPACE_INDEX
                    &&& e == MultiWMError::<WMError>::UnknownWorkspace(index)
                    &&& final(self)@ == old(self)@
                },
            },
    {
        if index > MAX_WORKSPACE_INDEX {
            Err(MultiWMError::UnknownWorkspace(index))
        } else {
            Ok(&mut self.wrapped_wms[index])
        }
    }

    /// Switch to the workspace at the given index.
    pub fn switch_workspace(&mut self, index: WorkspaceIndex) -> (result: Result<
        (),
        MultiWMError<WMError>,
    >)
        requires
            old(self).wf(),
        ensures
            result == (if index <= MAX_WORKSPACE_INDEX {
                Ok::<(), MultiWMError<WMError>>(())
            } else {
                Err(MultiWMError::UnknownWorkspace(index))
            }),
            final(self)@ == old(self)@.switch(index as int),
            final(self).wf(),
    {
        proof {
            self@.lemma_broadcast(Screen { width: 0, height: 0 }, 0, index as int);
        }
        if index > MAX_WORKSPACE_INDEX {
            Err(MultiWMError::UnknownWorkspace(index))
        } else {
            self.current_workspace = index;
            Ok(())
        }
    }
}

} // verus!
