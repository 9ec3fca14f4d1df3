//! What a wrapper needs to take a window out of a window manager and add it
//! to another one as it was.

use vstd::prelude::*;
use crate::error::WMError;
use crate::types::{Window, WindowWithInfo};

verus! {

/// A window manager that can say of each of its windows what is needed to
/// add the window again as it is. This differs from what `get_window_info`
/// reports: a tile is reported there with the rectangle of its tile, here
/// with the rectangle that it has once it floats.
pub trait RealWindowInfo {
    /// Whether the manager is in a valid state.
    spec fn valid(&self) -> bool;

    /// Whether the manager manages `window`.
    spec fn knows(&self, window: Window) -> bool;

    /// What is needed to add `window` again as it is.
    spec fn real_window_info(&self, window: Window) -> WindowWithInfo;

    /// Get the real window info of a managed window.
    fn get_real_window_info(&self, window: Window) -> (result: Result<WindowWithInfo, WMError>)
        requires
            self.valid(),
        ensures
            result == (if self.knows(window) {
                Ok::<WindowWithInfo, WMError>(self.real_window_info(window))
            } else {
                Err(WMError::UnknownWindow(window))
            }),
    ;
}

} // verus!
