//! The errors that the window managers return.

use vstd::prelude::*;
use crate::types::{Window, WorkspaceIndex};

verus! {

/// The error of the single-workspace window managers.
#[derive(Clone, Copy, Debug, PartialEq, Eq, Structural)]
pub enum WMError {
    /// This window is not known by the window manager.
    UnknownWindow(Window),
}

impl WMError {
    /// A short description of the error.
    pub fn description(&self) -> (text: &'static str)
        ensures
            text@ == "Unknown window"@,
    {
        match self {
            WMError::UnknownWindow(_) => "Unknown window",
        }
    }
}

/// The error of a window manager with several workspaces.
#[derive(Clone, Copy, Debug, PartialEq, Eq, Structural)]
pub enum MultiWMError<MyError> {
    /// This workspace index is unknown.
    UnknownWorkspace(WorkspaceIndex),
    /// An error from the wrapped window manager.
    WrappedError(MyError),
}

impl<MyError> MultiWMError<MyError> {
    /// A short description of the error.
    pub fn description(&self) -> (text: &'static str)
        ensures
            self is UnknownWorkspace ==> text@ == "Unknown index"@,
            self is WrappedError ==> text@ == "An error occurred in the wrapped workspace"@,
    {
        match self {
            MultiWMError::UnknownWorkspace(_) => "Unknown index",
            MultiWMError::WrappedError(_) => "An error occurred in the wrapped workspace",
        }
    }
}

impl<MyError> From<MyError> for MultiWMError<MyError> {
    fn from(error: MyError) -> (wrapped: MultiWMError<MyError>) {
        MultiWMError::WrappedError(error)
    }
}

impl<MyError> vstd::std_specs::convert::FromSpecImpl<MyError> for MultiWMError<MyError> {
    open spec fn obeys_from_spec() -> bool {
        true
    }

    open spec fn from_spec(error: MyError) -> MultiWMError<MyError> {
        MultiWMError::WrappedError(error)
    }
}

} // verus!
