//! The decisions of the main window: its messages, its menu commands and the
//! layout of its child controls.
use vstd::prelude::*;
use crate::message::{Reply, WindowMessage};

verus! {

/// The child id of the text area.
pub const IDC_EDIT: i32 = 101;
/// The child id of the toolbar.
pub const IDC_TOOLBAR: i32 = 102;
/// The child id of the status bar.
pub const IDC_STATUS: i32 = 104;

/// The menu command File > Exit.
pub const ID_FILE_EXIT: i32 = 9001;
/// The menu command File > New.
pub const ID_FILE_NEW: i32 = 9002;
/// The menu command File > Open.
pub const ID_FILE_OPEN: i32 = 9003;
/// The menu command File > Save As.
pub const ID_FILE_SAVEAS: i32 = 9004;

/// The low 16 bits of a 32-bit value, as `LOWORD` gives them.
pub fn low_word(value: u32) -> (w: u16)
    ensures
        w == value % 0x10000,
{
    let w = (value & 0xFFFF) as u16;
    assert(w == value % 0x10000) by (bit_vector)
        requires
            w == (value & 0xFFFF) as u16,
    ;
    w
}

/// The command id that a `WM_COMMAND` message carries: the low word of its `wParam`.
pub open spec fn command_id(w_param: u64) -> int {
    (w_param % 0x10000) as int
}

/// What the main window does with a message.
#[derive(Clone, Copy, Debug, PartialEq, Eq, Structural)]
pub enum MainWindowAction {
    /// Destroy the window.
    DestroyWindow,
    /// Post the quit message that ends the message loop.
    PostQuit,
    /// Attach the main window's state, handed over in the creation parameters,
    /// to the window.
    AttachWindow,
    /// Create the child controls.
    PopulateWindow,
    /// Lay out the child controls again.
    Resize,
    /// Post `WM_CLOSE` to the window (File > Exit).
    PostClose,
    /// Empty the text area (File > New).
    ClearText,
    /// Ask for a file and load it (File > Open).
    OpenFile,
    /// Ask for a file name and save the text to it (File > Save As).
    SaveFile,
    /// Nothing to do.
    Nothing,
    /// Hand the message to `DefWindowProcW`.
    DefaultProcedure,
}

/// The action for a menu command.
pub open spec fn command_action(id: int) -> MainWindowAction {
    if id == ID_FILE_EXIT {
        MainWindowAction::PostClose
    } else if id == ID_FILE_NEW {
        MainWindowAction::ClearText
    } else if id == ID_FILE_OPEN {
        MainWindowAction::OpenFile
    } else if id == ID_FILE_SAVEAS {
        MainWindowAction::SaveFile
    } else {
        MainWindowAction::Nothing
    }
}

/// The action of the main window for each message.
pub open spec fn main_window_action(msg: WindowMessage) -> MainWindowAction {
    match msg {
        WindowMessage::Close => MainWindowAction::DestroyWindow,
        WindowMessage::Destroy => MainWindowAction::PostQuit,
        WindowMessage::NcCreate => MainWindowAction::AttachWindow,
        WindowMessage::Create => MainWindowAction::PopulateWindow,
        WindowMessage::Size => MainWindowAction::Resize,
        WindowMessage::Command { w_param } => command_action(command_id(w_param)),
        _ => MainWindowAction::DefaultProcedure,
    }
}

/// What the main window procedure returns after an action: `TRUE` after
/// attaching its state, the default procedure's result for the messages it
/// does not handle, 0 otherwise.
pub open spec fn main_window_reply(action: MainWindowAction) -> Reply {
    match action {
        MainWindowAction::AttachWindow => Reply::Value(1),
        MainWindowAction::DefaultProcedure => Reply::DefaultProcedure,
        _ => Reply::Value(0),
    }
}

/// A `WM_COMMAND` is read by the low word of its `wParam` alone: the menu
/// commands Exit, New, Open and Save As post `WM_CLOSE`, clear the text, open a
/// file and save one; any other id does nothing; the high bits never matter.
pub proof fn lemma_command_actions(w1: u64, w2: u64)
    ensures
        w1 % 0x10000 == w2 % 0x10000 ==> main_window_action((WindowMessage::Command { w_param: w1 }))
            == main_window_action((WindowMessage::Command { w_param: w2 })),
        w1 % 0x10000 == 9001 ==> main_window_action((WindowMessage::Command { w_param: w1 }))
            == MainWindowAction::PostClose,
        w1 % 0x10000 == 9002 ==> main_window_action((WindowMessage::Command { w_param: w1 }))
            == MainWindowAction::ClearText,
        w1 % 0x10000 == 9003 ==> main_window_action((WindowMessage::Command { w_param: w1 }))
            == MainWindowAction::OpenFile,
        w1 % 0x10000 == 9004 ==> main_window_action((WindowMessage::Command { w_param: w1 }))
            == MainWindowAction::SaveFile,
        !(9001 <= w1 % 0x10000 && w1 % 0x10000 <= 9004) ==> main_window_action(
            (WindowMessage::Command { w_param: w1 }),
        ) == MainWindowAction::Nothing,
{
}

/// What the main window procedure returns for each message: `TRUE` for
/// `WM_NCCREATE`, so that creation goes on; 0 for `WM_CLOSE`, `WM_DESTROY`,
/// `WM_CREATE`, `WM_SIZE` and every `WM_COMMAND`, so that in particular
/// `WM_CREATE` never fails the creation of the window; the default procedure's
/// result for every other message.
pub proof fn lemma_main_window_reply_for_message(msg: WindowMessage)
    ensures
        msg == WindowMessage::NcCreate ==> main_window_reply(main_window_action(msg)) == Reply::Value(1),
        (msg == WindowMessage::Close || msg == WindowMessage::Destroy || msg == WindowMessage::Create
            || msg == WindowMessage::Size || (msg is Command)) ==> main_window_reply(
            main_window_action(msg),
        ) == Reply::Value(0),
        (msg == WindowMessage::Paint || msg == WindowMessage::NcDestroy || (msg is SetFont) || msg
            == WindowMessage::Other) ==> main_window_reply(main_window_action(msg))
            == Reply::DefaultProcedure,
{
}

/// Every action but attaching the window's state and handing over to the
/// default procedure makes the window procedure return 0.
pub proof fn lemma_main_window_reply_zero(action: MainWindowAction)
    requires
        action != MainWindowAction::AttachWindow,
        action != MainWindowAction::DefaultProcedure,
    ensures
        main_window_reply(action) == Reply::Value(0),
{
}

impl MainWindowAction {
    /// The action for a message.
    pub fn for_message(msg: &WindowMessage) -> (action: MainWindowAction)
        ensures
            action == main_window_action(*msg),
    {
        match msg {
            WindowMessage::Close => MainWindowAction::DestroyWindow,
            WindowMessage::Destroy => MainWindowAction::PostQuit,
            WindowMessage::NcCreate => MainWindowAction::AttachWindow,
            WindowMessage::Create => MainWindowAction::PopulateWindow,
            WindowMessage::Size => MainWindowAction::Resize,
            WindowMessage::Command { w_param } => {
                let w = *w_param;
                let low = w as u32;
                assert(low % 0x10000 == w % 0x10000) by (bit_vector)
                    requires
                        low == w as u32,
                ;
                let id = low_word(low) as i32;
                if id == ID_FILE_EXIT {
                    MainWindowAction::PostClose
                } else if id == ID_FILE_NEW {
                    MainWindowAction::ClearText
                } else if id == ID_FILE_OPEN {
                    MainWindowAction::OpenFile
                } else if id == ID_FILE_SAVEAS {
                    MainWindowAction::SaveFile
                } else {
                    MainWindowAction::Nothing
                }
            },
            _ => MainWindowAction::DefaultProcedure,
        }
    }

    /// What the window procedure returns once the action is done.
    pub fn reply(&self) -> (r: Reply)
        ensures
            r == main_window_reply(*self),
    {
        match self {
            MainWindowAction::AttachWindow => Reply::Value(1),
            MainWindowAction::DefaultProcedure => Reply::DefaultProcedure,
            _ => Reply::Value(0),
        }
    }
}

/// A rectangle in window coordinates.
#[derive(Clone, Copy, Debug, PartialEq, Eq, Structural)]
pub struct Rect {
    pub left: i32,
    pub top: i32,
    pub right: i32,
    pub bottom: i32,
}

/// Where a child window goes: its position and its size.
#[derive(Clone, Copy, Debug, PartialEq, Eq, Structural)]
pub struct Placement {
    pub x: i32,
    pub y: i32,
    pub width: i32,
    pub height: i32,
}

/// The height of a rectangle.
pub open spec fn height(r: Rect) -> int {
    r.bottom - r.top
}

/// Where the text area goes in the client area: below the toolbar, above the
/// status bar, as wide as the client area.
pub fn edit_placement(client: &Rect, toolbar: &Rect, status: &Rect) -> (p: Placement)
    requires
        i32::MIN <= height(*toolbar) <= i32::MAX,
        i32::MIN <= height(*status) <= i32::MAX,
        i32::MIN <= client.bottom - height(*toolbar) <= i32::MAX,
        i32::MIN <= client.bottom - height(*toolbar) - height(*status) <= i32::MAX,
    ensures
        p.x == 0,
        p.y == height(*toolbar),
        p.width == client.right,
        p.height == client.bottom - height(*toolbar) - height(*status),
        p.y + p.height + height(*status) == client.bottom,
{
    let tool_height = toolbar.bottom - toolbar.top;
    let status_height = status.bottom - status.top;
    let edit_height = client.bottom - tool_height - status_height;
    Placement { x: 0, y: tool_height, width: client.right, height: edit_height }
}

} // verus!
