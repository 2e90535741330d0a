//! The window messages that the editor's window procedures tell apart.
use vstd::prelude::*;

verus! {

/// A message sent to a window, with the parameters that the editor reads.
#[derive(Clone, Copy, Debug, PartialEq, Eq, Structural)]
pub enum WindowMessage {
    /// `WM_CREATE`
    Create,
    /// `WM_DESTROY`
    Destroy,
    /// `WM_SIZE`
    Size,
    /// `WM_PAINT`
    Paint,
    /// `WM_CLOSE`
    Close,
    /// `WM_SETFONT`, with the font handle that `wParam` carries.
    SetFont { font: usize },
    /// `WM_NCCREATE`
    NcCreate,
    /// `WM_NCDESTROY`
    NcDestroy,
    /// `WM_COMMAND`, with its `wParam`.
    Command { w_param: u64 },
    /// Any other message.
    Other,
}

/// What a window procedure returns for a message.
#[derive(Clone, Copy, Debug, PartialEq, Eq, Structural)]
pub enum Reply {
    /// The procedure returns this value itself.
    Value(isize),
    /// The procedure returns what `DefWindowProcW` returns.
    DefaultProcedure,
}

} // verus!
