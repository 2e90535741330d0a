use rustpad::dialogs::chosen_file_name;
use rustpad::main_window::{
    edit_placement, low_word, MainWindowAction, Placement, Rect, ID_FILE_EXIT, ID_FILE_NEW,
    ID_FILE_OPEN, ID_FILE_SAVEAS,
};
use rustpad::markdowneditcontrol::{derived_class, MarkdownEdit, CS_GLOBALCLASS, MARKDOWN_EDIT_CLASS};
use rustpad::message::{Reply, WindowMessage};

#[test]
fn low_word_keeps_low_sixteen_bits() {
    assert_eq!(low_word(0x1234_5678), 0x5678);
    assert_eq!(low_word(0xFFFF), 0xFFFF);
    assert_eq!(low_word(0x1_0000), 0);
}

#[test]
fn main_window_actions_for_messages() {
    let cases = [
        (WindowMessage::Close, MainWindowAction::DestroyWindow),
        (WindowMessage::Destroy, MainWindowAction::PostQuit),
        (WindowMessage::NcCreate, MainWindowAction::AttachWindow),
        (WindowMessage::Create, MainWindowAction::PopulateWindow),
        (WindowMessage::Size, MainWindowAction::Resize),
        (WindowMessage::Paint, MainWindowAction::DefaultProcedure),
        (WindowMessage::NcDestroy, MainWindowAction::DefaultProcedure),
        (WindowMessage::SetFont { font: 1 }, MainWindowAction::DefaultProcedure),
        (WindowMessage::Other, MainWindowAction::DefaultProcedure),
    ];
    for (msg, action) in cases {
        assert_eq!(MainWindowAction::for_message(&msg), action);
    }
}

#[test]
fn menu_commands() {
    let command = |w_param: u64| MainWindowAction::for_message(&WindowMessage::Command { w_param });
    assert_eq!(command(ID_FILE_EXIT as u64), MainWindowAction::PostClose);
    assert_eq!(command(ID_FILE_NEW as u64), MainWindowAction::ClearText);
    assert_eq!(command(ID_FILE_OPEN as u64), MainWindowAction::OpenFile);
    assert_eq!(command(ID_FILE_SAVEAS as u64), MainWindowAction::SaveFile);
    assert_eq!(command(9005), MainWindowAction::Nothing);
    // the notification code in the high word does not matter
    assert_eq!(command(0x0001_0000 | ID_FILE_OPEN as u64), MainWindowAction::OpenFile);
    assert_eq!(command(0xABCD_0000_0000_0000 | ID_FILE_NEW as u64), MainWindowAction::ClearText);
}

#[test]
fn main_window_replies() {
    assert_eq!(MainWindowAction::AttachWindow.reply(), Reply::Value(1));
    assert_eq!(MainWindowAction::DefaultProcedure.reply(), Reply::DefaultProcedure);
    assert_eq!(MainWindowAction::Resize.reply(), Reply::Value(0));
    assert_eq!(MainWindowAction::SaveFile.reply(), Reply::Value(0));
}

#[test]
fn edit_fills_space_between_toolbar_and_status_bar() {
    let client = Rect { left: 0, top: 0, right: 480, bottom: 300 };
    let toolbar = Rect { left: 8, top: 30, right: 488, bottom: 58 };
    let status = Rect { left: 8, top: 310, right: 488, bottom: 332 };
    let p = edit_placement(&client, &toolbar, &status);
    assert_eq!(p, Placement { x: 0, y: 28, width: 480, height: 250 });
    assert_eq!(p.y + p.height + (status.bottom - status.top), client.bottom);
}

#[test]
fn edit_height_may_go_negative_in_a_small_window() {
    let client = Rect { left: 0, top: 0, right: 100, bottom: 20 };
    let toolbar = Rect { left: 0, top: 0, right: 100, bottom: 26 };
    let status = Rect { left: 0, top: 0, right: 100, bottom: 22 };
    let p = edit_placement(&client, &toolbar, &status);
    assert_eq!(p, Placement { x: 0, y: 26, width: 100, height: -28 });
}

#[test]
fn dialog_cancelled_gives_no_name() {
    assert_eq!(chosen_file_name(0, &[0x61, 0]), None);
}

#[test]
fn dialog_gives_name_up_to_terminator() {
    let mut buf = [0u16; 16];
    for (i, u) in "C:\\a.txt".encode_utf16().enumerate() {
        buf[i] = u;
    }
    let expected: Vec<u16> = "C:\\a.txt".encode_utf16().collect();
    assert_eq!(chosen_file_name(1, &buf), Some(expected));
}

#[test]
fn markdown_class_is_not_global_and_has_room_for_a_pointer() {
    let (style, extra) = derived_class(0x4008, 16, 8);
    assert_eq!(style, 0x0008);
    assert_eq!(style & CS_GLOBALCLASS, 0);
    assert_eq!(extra, 24);
    assert_eq!(derived_class(0x0003, 0, 8), (0x0003, 8));
}

#[test]
fn markdown_edit_holds_text() {
    let edit = MarkdownEdit { text: String::from("# title") };
    assert_eq!(edit.text, "# title");
    assert_eq!(MARKDOWN_EDIT_CLASS, "markdown_edit");
}
