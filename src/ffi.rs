//! Plain values exchanged with the native engine.
use vstd::prelude::*;

verus! {

/// The status the native engine returns from a call.
#[derive(Debug, Clone, Copy, PartialEq, Eq, Structural)]
pub enum FlutterResult {
    Success,
    InvalidLibraryVersion,
    InvalidArguments,
}

impl FlutterResult {
    /// The status of a native result code: 0, 1 and 2 in declaration order.
    pub fn from_code(code: i32) -> (r: Option<FlutterResult>)
        ensures
            code == 0 ==> r == Some(FlutterResult::Success),
            code == 1 ==> r == Some(FlutterResult::InvalidLibraryVersion),
            code == 2 ==> r == Some(FlutterResult::InvalidArguments),
            !(0 <= code <= 2) ==> r is None,
    {
        if code == 0 {
            Some(FlutterResult::Success)
        } else if code == 1 {
            Some(FlutterResult::InvalidLibraryVersion)
        } else if code == 2 {
            Some(FlutterResult::InvalidArguments)
        } else {
            None
        }
    }

    pub fn is_success(&self) -> (r: bool)
        ensures
            r == (*self == FlutterResult::Success),
    {
        match self {
            FlutterResult::Success => true,
            _ => false,
        }
    }
}

/// How the engine renders.
#[derive(Debug, Clone, Copy, PartialEq, Eq, Structural)]
pub enum FlutterRendererType {
    OpenGL,
}

/// The phase of a pointer event.
#[derive(Debug, Clone, Copy, PartialEq, Eq, Structural)]
pub enum FlutterPointerPhase {
    Cancel,
    Up,
    Down,
    Move,
    Add,
    Remove,
    Hover,
}

} // verus!
