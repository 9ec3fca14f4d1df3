//! The value types exchanged with the window managers.

use vstd::prelude::*;

verus! {

/// Handle of a window. The caller picks it; the engine never creates one.
pub type Window = u64;

/// Width of the gap around a tile.
pub type GapSize = u32;

/// Position of a workspace.
pub type WorkspaceIndex = usize;

/// The highest workspace index: there are `MAX_WORKSPACE_INDEX + 1` workspaces.
pub const MAX_WORKSPACE_INDEX: WorkspaceIndex = 3;

/// A rectangle on the screen: its top-left corner and its size.
#[derive(Clone, Copy, Debug, PartialEq, Eq, Hash, Structural)]
pub struct Geometry {
    pub x: i32,
    pub y: i32,
    pub width: u32,
    pub height: u32,
}

impl Geometry {
    /// Whether the point `(px, py)` lies inside the rectangle.
    pub open spec fn covers(self, px: int, py: int) -> bool {
        &&& self.x <= px < self.x + self.width
        &&& self.y <= py < self.y + self.height
    }
}

/// The size of the screen.
#[derive(Clone, Copy, Debug, PartialEq, Eq, Hash, Structural)]
pub struct Screen {
    pub width: u32,
    pub height: u32,
}

impl Screen {
    /// The rectangle at the origin that fills the screen.
    pub open spec fn geometry(self) -> Geometry {
        Geometry { x: 0, y: 0, width: self.width, height: self.height }
    }

    /// Whether the point `(px, py)` lies on the screen.
    pub open spec fn covers(self, px: int, py: int) -> bool {
        0 <= px < self.width && 0 <= py < self.height
    }

    pub fn to_geometry(&self) -> (g: Geometry)
        ensures
            g == self.geometry(),
    {
        Geometry { x: 0, y: 0, width: self.width, height: self.height }
    }
}

/// A direction along a ring of windows.
#[derive(Clone, Copy, Debug, PartialEq, Eq, Hash, Structural)]
pub enum PrevOrNext {
    Prev,
    Next,
}

impl PrevOrNext {
    pub open spec fn reverse(self) -> PrevOrNext {
        match self {
            PrevOrNext::Prev => PrevOrNext::Next,
            PrevOrNext::Next => PrevOrNext::Prev,
        }
    }

    /// The other direction.
    pub fn opposite(&self) -> (d: PrevOrNext)
        ensures
            d == self.reverse(),
    {
        match self {
            PrevOrNext::Prev => PrevOrNext::Next,
            PrevOrNext::Next => PrevOrNext::Prev,
        }
    }
}

/// The two placement modes of a window.
#[derive(Clone, Copy, Debug, PartialEq, Eq, Hash, Structural)]
pub enum FloatOrTile {
    Float,
    Tile,
}

/// A window together with what a manager needs to place it.
#[derive(Clone, Copy, Debug, PartialEq, Eq, Hash, Structural)]
pub struct WindowWithInfo {
    pub window: Window,
    pub geometry: Geometry,
    pub float_or_tile: FloatOrTile,
    pub fullscreen: bool,
}

impl WindowWithInfo {
    pub fn new(
        window: Window,
        geometry: Geometry,
        float_or_tile: FloatOrTile,
        fullscreen: bool,
    ) -> (info: WindowWithInfo)
        ensures
            info == (WindowWithInfo { window, geometry, float_or_tile, fullscreen }),
    {
        WindowWithInfo { window, geometry, float_or_tile, fullscreen }
    }

    pub fn new_tiled(window: Window, geometry: Geometry) -> (info: WindowWithInfo)
        ensures
            info == (WindowWithInfo {
                window,
                geometry,
                float_or_tile: FloatOrTile::Tile,
                fullscreen: false,
            }),
    {
        WindowWithInfo { window, geometry, float_or_tile: FloatOrTile::Tile, fullscreen: false }
    }

    pub fn new_float(window: Window, geometry: Geometry) -> (info: WindowWithInfo)
        ensures
            info == (WindowWithInfo {
                window,
                geometry,
                float_or_tile: FloatOrTile::Float,
                fullscreen: false,
            }),
    {
        WindowWithInfo { window, geometry, float_or_tile: FloatOrTile::Float, fullscreen: false }
    }

    pub fn new_fullscreen(window: Window, geometry: Geometry) -> (info: WindowWithInfo)
        ensures
            info == (WindowWithInfo {
                window,
                geometry,
                float_or_tile: FloatOrTile::Tile,
                fullscreen: true,
            }),
    {
        WindowWithInfo { window, geometry, float_or_tile: FloatOrTile::Tile, fullscreen: true }
    }

    /// The same window with another rectangle.
    pub open spec fn with_geometry(self, geometry: Geometry) -> WindowWithInfo {
        WindowWithInfo { geometry, ..self }
    }

    /// The same window in another placement mode.
    pub open spec fn with_mode(self, float_or_tile: FloatOrTile) -> WindowWithInfo {
        WindowWithInfo { float_or_tile, ..self }
    }
}

/// What is on the screen: the visible windows from back to front, each with
/// its rectangle, and the window that has the focus.
#[derive(Clone, Debug, PartialEq, Eq)]
pub struct WindowLayout {
    pub focused_window: Option<Window>,
    pub windows: Vec<(Window, Geometry)>,
}

/// The mathematical value of a `WindowLayout`.
pub struct LayoutView {
    pub focused: Option<Window>,
    pub entries: Seq<(Window, Geometry)>,
}

impl LayoutView {
    /// The layout that shows nothing.
    pub open spec fn empty() -> LayoutView {
        LayoutView { focused: None, entries: Seq::empty() }
    }

    /// The windows on the screen, back to front.
    pub open spec fn shown(self) -> Seq<Window> {
        self.entries.map_values(|e: (Window, Geometry)| e.0)
    }
}

impl View for WindowLayout {
    type V = LayoutView;

    open spec fn view(&self) -> LayoutView {
        LayoutView { focused: self.focused_window, entries: self.windows@ }
    }
}

impl WindowLayout {
    /// The layout that shows nothing and focuses nothing.
    pub fn new() -> (layout: WindowLayout)
        ensures
            layout@ == LayoutView::empty(),
    {
        WindowLayout { focused_window: None, windows: Vec::new() }
    }
}

} // verus!
