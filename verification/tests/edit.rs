use rustpad::control::edit::{Edit, EditAction};
use rustpad::message::{Reply, WindowMessage};

fn wide(s: &str) -> Vec<u16> {
    s.encode_utf16().collect()
}

fn edit_with(text: &str) -> Edit {
    let mut edit = Edit::for_window(7);
    edit.set_text(&wide(text));
    edit
}

#[test]
fn new_state_is_empty() {
    let edit = Edit::for_window(42);
    assert_eq!(edit.hwnd, 42);
    assert!(edit.lines.is_empty());
    assert_eq!(edit.font, 0);
    assert_eq!(edit.font_height, 0);
    assert_eq!(edit.font_width, 0);
}

#[test]
fn set_text_splits_at_line_feeds_and_drops_carriage_returns() {
    let edit = edit_with("one\r\ntwo\n\nthree\n");
    assert_eq!(edit.lines, vec![wide("one"), wide("two"), wide(""), wide("three")]);
}

#[test]
fn set_text_drops_text_after_last_line_feed() {
    let edit = edit_with("a\nbc");
    assert_eq!(edit.lines, vec![wide("a")]);
    let edit = edit_with("no newline");
    assert!(edit.lines.is_empty());
}

#[test]
fn set_text_replaces_previous_lines() {
    let mut edit = edit_with("x\ny\nz\n");
    edit.set_text(&wide("only\n"));
    assert_eq!(edit.lines, vec![wide("only")]);
}

#[test]
fn set_text_keeps_font() {
    let mut edit = Edit::for_window(3);
    edit.set_font_metrics(99, 16, 7);
    edit.set_text(&wide("a\n"));
    assert_eq!((edit.hwnd, edit.font, edit.font_height, edit.font_width), (3, 99, 16, 7));
}

#[test]
fn lines_joined_give_text_without_carriage_returns() {
    let text = "alpha\r\nbeta\r\n\rgamma\ndelta";
    let edit = edit_with(text);
    let mut joined: Vec<u16> = Vec::new();
    for line in &edit.lines {
        assert!(!line.contains(&0x0A) && !line.contains(&0x0D));
        joined.extend_from_slice(line);
        joined.push(0x0A);
    }
    joined.extend_from_slice(&wide("delta"));
    assert_eq!(joined, wide(&text.replace('\r', "")));
}

#[test]
fn clear_text_empties_lines() {
    let mut edit = edit_with("a\nb\n");
    edit.clear_text();
    assert!(edit.lines.is_empty());
}

#[test]
fn load_utf8_decodes_and_splits() {
    let mut edit = Edit::for_window(1);
    edit.load_utf8("h\u{e9}llo\r\nw\u{f6}rld\n".as_bytes());
    assert_eq!(edit.lines, vec![wide("h\u{e9}llo"), wide("w\u{f6}rld")]);
    edit.load_utf8(&[0x61, 0xFF, 0x0A]);
    assert_eq!(edit.lines, vec![vec![0x61, 0xFFFD]]);
}

#[test]
fn rows_to_paint_clamps_to_lines() {
    let mut edit = edit_with("1\n2\n3\n");
    edit.set_font_metrics(0, 16, 8);
    assert_eq!(edit.rows_to_paint(-5, 100), (0, 3));
    assert_eq!(edit.rows_to_paint(16, 40), (1, 2));
    assert_eq!(edit.rows_to_paint(40, 40), (2, 2));
    assert_eq!(edit.rows_to_paint(-40, 0), (0, 0));
}

#[test]
fn rows_to_paint_rounds_toward_zero() {
    let mut edit = edit_with("1\n2\n3\n4\n");
    edit.set_font_metrics(0, 10, 5);
    // -15 / 10 is -1 in Rust, so the first row is 0
    assert_eq!(edit.rows_to_paint(-15, 35), (0, 3));
    // a negative cell height with a negative bottom
    edit.set_font_metrics(0, -10, 5);
    assert_eq!(edit.rows_to_paint(10, -25), (0, 2));
}

#[test]
fn line_band_gives_band_and_line() {
    let mut edit = edit_with("first\nsecond\n");
    edit.set_font_metrics(0, 13, 6);
    let (top, bottom, line) = edit.line_band(1);
    assert_eq!((top, bottom), (13, 26));
    assert_eq!(line, &wide("second"));
    let (top, bottom, line) = edit.line_band(0);
    assert_eq!((top, bottom), (0, 13));
    assert_eq!(line, &wide("first"));
}

#[test]
fn edit_actions_for_messages() {
    let cases = [
        (WindowMessage::Close, EditAction::DestroyWindow),
        (WindowMessage::NcCreate, EditAction::CreateState),
        (WindowMessage::Destroy, EditAction::DropState),
        (WindowMessage::NcDestroy, EditAction::FreeState),
        (WindowMessage::Create, EditAction::UseDefaultFont),
        (WindowMessage::Size, EditAction::Nothing),
        (WindowMessage::Command { w_param: 9001 }, EditAction::Nothing),
        (WindowMessage::SetFont { font: 5 }, EditAction::SetFont { font: 5 }),
        (WindowMessage::Paint, EditAction::Paint),
        (WindowMessage::Other, EditAction::DefaultProcedure),
    ];
    for (msg, action) in cases {
        assert_eq!(EditAction::for_message(&msg), action);
    }
}

#[test]
fn edit_replies() {
    assert_eq!(EditAction::CreateState.reply(), Reply::Value(1));
    assert_eq!(EditAction::DefaultProcedure.reply(), Reply::DefaultProcedure);
    assert_eq!(EditAction::Paint.reply(), Reply::Value(0));
    assert_eq!(EditAction::Nothing.reply(), Reply::Value(0));
}
