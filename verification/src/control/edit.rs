//! The text area of the editor: its lines, its font metrics and its messages.
use vstd::prelude::*;
use crate::message::{Reply, WindowMessage};
use crate::encoding::{
    count_lf_bytes, count_lf_units, decode_utf8_lossy, encode_utf16, lemma_count_lf_units_add,
    lemma_decode_keeps_line_feeds, utf8_to_wide,
};
use crate::util::convert_string;

verus! {

/// Line feed, which ends a line.
pub const LF: u16 = 0x000A;

/// Carriage return, which the text area drops.
pub const CR: u16 = 0x000D;

/// The state of a text area window.
pub struct Edit {
    /// The handle of the window, as a plain value.
    pub hwnd: usize,
    /// The completed lines of text, each without its line feed.
    pub lines: Vec<Vec<u16>>,
    /// The handle of the selected font, as a plain value.
    pub font: usize,
    /// The height of a character cell of the font.
    pub font_height: i32,
    /// The average character width of the font.
    pub font_width: i32,
}

/// The lines that a text is split into and the line still open after its last
/// line feed: each line feed closes the open line, carriage returns are dropped,
/// every other unit is added to the open line.
pub open spec fn split_lines(text: Seq<u16>) -> (Seq<Seq<u16>>, Seq<u16>)
    decreases text.len(),
{
    if text.len() == 0 {
        (seq![], seq![])
    } else {
        let (lines, open) = split_lines(text.drop_last());
        let c = text.last();
        if c == LF {
            (lines.push(open), seq![])
        } else if c == CR {
            (lines, open)
        } else {
            (lines, open.push(c))
        }
    }
}

/// The lines of a text, each followed by a line feed, one after another.
pub open spec fn join_lines(lines: Seq<Seq<u16>>) -> Seq<u16>
    decreases lines.len(),
{
    if lines.len() == 0 {
        seq![]
    } else {
        join_lines(lines.drop_last()) + lines.last().push(LF)
    }
}

/// A text without its carriage returns.
pub open spec fn without_cr(text: Seq<u16>) -> Seq<u16> {
    text.filter(|c: u16| c != CR)
}

/// A sequence of units that holds no line feed and no carriage return.
pub open spec fn is_bare_line(line: Seq<u16>) -> bool {
    forall|i: int| 0 <= i < line.len() ==> line[i] != LF && line[i] != CR
}

/// Splitting keeps every unit but the carriage returns, in order: the lines, each
/// closed by a line feed, then the open line, give back the text without its
/// carriage returns; no line and not the open line holds a line feed or a
/// carriage return.
pub proof fn lemma_split_lines_keeps_text(text: Seq<u16>)
    ensures
        join_lines(split_lines(text).0) + split_lines(text).1 == without_cr(text),
        forall|i: int| 0 <= i < split_lines(text).0.len() ==> is_bare_line(#[trigger] split_lines(text).0[i]),
        is_bare_line(split_lines(text).1),
    decreases text.len(),
{
    if text.len() == 0 {
        assert(without_cr(text) =~= Seq::<u16>::empty()) by {
            reveal(Seq::filter);
        }
    } else {
        let prev = text.drop_last();
        let c = text.last();
        lemma_split_lines_keeps_text(prev);
        let (lines, open) = split_lines(prev);
        assert(text =~= prev.push(c));
        prev.lemma_filter_push(c, |c: u16| c != CR);
        if c == LF {
            let new_lines = lines.push(open);
            assert(new_lines.drop_last() =~= lines);
            assert(join_lines(new_lines) + seq![] =~= (join_lines(lines) + open).push(LF));
            assert forall|i: int| 0 <= i < new_lines.len() implies is_bare_line(#[trigger] new_lines[i]) by {
                if i < lines.len() {
                    assert(new_lines[i] == lines[i]);
                }
            }
        } else if c == CR {
        } else {
            assert(join_lines(lines) + open.push(c) =~= (join_lines(lines) + open).push(c));
        }
    }
}

/// Splitting gives one line per line feed of the text.
pub proof fn lemma_split_lines_count(text: Seq<u16>)
    ensures
        split_lines(text).0.len() == count_lf_units(text),
    decreases text.len(),
{
    if text.len() == 0 {
    } else {
        let prev = text.drop_last();
        let c = text.last();
        lemma_split_lines_count(prev);
        assert(text =~= prev + seq![c]);
        lemma_count_lf_units_add(prev, seq![c]);
        assert(seq![c].drop_first() =~= Seq::<u16>::empty());
        assert(count_lf_units(Seq::<u16>::empty()) == 0);
        assert(seq![c][0] == c);
    }
}

/// Opening a file gives the text area one line per line feed byte of the file,
/// whatever bytes around them are not well-formed UTF-8.
pub proof fn lemma_load_lines_count(bytes: Seq<u8>)
    ensures
        split_lines(encode_utf16(decode_utf8_lossy(bytes))).0.len() == count_lf_bytes(bytes),
{
    lemma_split_lines_count(encode_utf16(decode_utf8_lossy(bytes)));
    lemma_decode_keeps_line_feeds(bytes);
}

/// The quotient of `a` by `b` rounded toward zero.
pub open spec fn trunc_div(a: int, b: int) -> int {
    if a >= 0 && b > 0 {
        a / b
    } else if a < 0 && b > 0 {
        -((-a) / b)
    } else if a >= 0 && b < 0 {
        -(a / (-b))
    } else {
        (-a) / (-b)
    }
}

/// Integer division rounding toward zero, as Rust's `/` on `i32` does.
fn div_toward_zero(a: i32, b: i32) -> (q: i32)
    requires
        b != 0,
        !(a == i32::MIN && b == -1),
    ensures
        q == trunc_div(a as int, b as int),
{
    let ua: i64 = if a < 0 { -(a as i64) } else { a as i64 };
    let ub: i64 = if b < 0 { -(b as i64) } else { b as i64 };
    let q = ua / ub;
    assert(q <= ua) by (nonlinear_arith)
        requires
            ub >= 1,
            ua >= 0,
            q == ua / ub,
    ;
    assert(ub >= 2 ==> q * 2 <= ua) by (nonlinear_arith)
        requires
            ub >= 1,
            ua >= 0,
            q == ua / ub,
    ;
    if (a < 0) == (b < 0) {
        q as i32
    } else {
        (-q) as i32
    }
}

/// What the text area does with a message.
#[derive(Clone, Copy, Debug, PartialEq, Eq, Structural)]
pub enum EditAction {
    /// Destroy the window.
    DestroyWindow,
    /// Create the state of the window and attach it to the window.
    CreateState,
    /// Drop the state of the window.
    DropState,
    /// Free the memory that held the state of the window.
    FreeState,
    /// Select the default GUI font.
    UseDefaultFont,
    /// Select the given font.
    SetFont { font: usize },
    /// Paint the rows that the paint rectangle reaches.
    Paint,
    /// Nothing to do.
    Nothing,
    /// Hand the message to `DefWindowProcW`.
    DefaultProcedure,
}

/// The action of the text area for each message.
pub open spec fn edit_action(msg: WindowMessage) -> EditAction {
    match msg {
        WindowMessage::Close => EditAction::DestroyWindow,
        WindowMessage::NcCreate => EditAction::CreateState,
        WindowMessage::Destroy => EditAction::DropState,
        WindowMessage::NcDestroy => EditAction::FreeState,
        WindowMessage::Create => EditAction::UseDefaultFont,
        WindowMessage::Size => EditAction::Nothing,
        WindowMessage::Command { .. } => EditAction::Nothing,
        WindowMessage::SetFont { font } => EditAction::SetFont { font },
        WindowMessage::Paint => EditAction::Paint,
        WindowMessage::Other => EditAction::DefaultProcedure,
    }
}

/// What the window procedure of the text area returns after an action: `TRUE`
/// after creating the state, the default procedure's result for the messages
/// it does not handle, 0 otherwise.
pub open spec fn edit_reply(action: EditAction) -> Reply {
    match action {
        EditAction::CreateState => Reply::Value(1),
        EditAction::DefaultProcedure => Reply::DefaultProcedure,
        _ => Reply::Value(0),
    }
}

/// The text area destroys itself on `WM_CLOSE`, creates its state on
/// `WM_NCCREATE`, drops it on `WM_DESTROY` and frees it on `WM_NCDESTROY`,
/// selects the default font on `WM_CREATE` and the given font on `WM_SETFONT`,
/// paints on `WM_PAINT`, ignores `WM_SIZE` and `WM_COMMAND`, and hands every
/// other message to the default procedure.
pub proof fn lemma_edit_actions(msg: WindowMessage)
    ensures
        msg == WindowMessage::Close ==> edit_action(msg) == EditAction::DestroyWindow,
        msg == WindowMessage::NcCreate ==> edit_action(msg) == EditAction::CreateState,
        msg == WindowMessage::Destroy ==> edit_action(msg) == EditAction::DropState,
        msg == WindowMessage::NcDestroy ==> edit_action(msg) == EditAction::FreeState,
        msg == WindowMessage::Create ==> edit_action(msg) == EditAction::UseDefaultFont,
        (msg is SetFont) ==> edit_action(msg) == (EditAction::SetFont { font: msg->font }),
        msg == WindowMessage::Paint ==> edit_action(msg) == EditAction::Paint,
        (msg == WindowMessage::Size || (msg is Command)) ==> edit_action(msg) == EditAction::Nothing,
        msg == WindowMessage::Other ==> edit_action(msg) == EditAction::DefaultProcedure,
{
}

/// What the text area's window procedure returns for each message: `TRUE` for
/// `WM_NCCREATE`, so that creation goes on; the default procedure's result for
/// the messages it does not handle; 0 for every other message, so that in
/// particular `WM_CREATE` never fails the creation of the window.
pub proof fn lemma_edit_reply_for_message(msg: WindowMessage)
    ensures
        msg == WindowMessage::NcCreate ==> edit_reply(edit_action(msg)) == Reply::Value(1),
        msg == WindowMessage::Other ==> edit_reply(edit_action(msg)) == Reply::DefaultProcedure,
        msg != WindowMessage::NcCreate && msg != WindowMessage::Other ==> edit_reply(
            edit_action(msg),
        ) == Reply::Value(0),
{
}

/// Every action but creating the state and handing over to the default
/// procedure makes the window procedure return 0.
pub proof fn lemma_edit_reply_zero(action: EditAction)
    requires
        action != EditAction::CreateState,
        action != EditAction::DefaultProcedure,
    ensures
        edit_reply(action) == Reply::Value(0),
{
}

impl EditAction {
    /// The action for a message.
    pub fn for_message(msg: &WindowMessage) -> (action: EditAction)
        ensures
            action == edit_action(*msg),
    {
        match msg {
            WindowMessage::Close => EditAction::DestroyWindow,
            WindowMessage::NcCreate => EditAction::CreateState,
            WindowMessage::Destroy => EditAction::DropState,
            WindowMessage::NcDestroy => EditAction::FreeState,
            WindowMessage::Create => EditAction::UseDefaultFont,
            WindowMessage::Size => EditAction::Nothing,
            WindowMessage::Command { .. } => EditAction::Nothing,
            WindowMessage::SetFont { font } => EditAction::SetFont { font: *font },
            WindowMessage::Paint => EditAction::Paint,
            WindowMessage::Other => EditAction::DefaultProcedure,
        }
    }

    /// What the window procedure returns once the action is done.
    pub fn reply(&self) -> (r: Reply)
        ensures
            r == edit_reply(*self),
    {
        match self {
            EditAction::CreateState => Reply::Value(1),
            EditAction::DefaultProcedure => Reply::DefaultProcedure,
            _ => Reply::Value(0),
        }
    }
}

impl Edit {
    /// The lines of the text area as sequences of units.
    pub open spec fn lines_view(&self) -> Seq<Seq<u16>> {
        self.lines@.map_values(|l: Vec<u16>| l@)
    }

    /// The state that a new text area window starts with: no lines, no font,
    /// zero metrics.
    pub fn for_window(hwnd: usize) -> (edit: Edit)
        ensures
            edit.hwnd == hwnd,
            edit.lines_view() == Seq::<Seq<u16>>::empty(),
            edit.font == 0,
            edit.font_height == 0,
            edit.font_width == 0,
    {
        let edit = Edit { hwnd, lines: Vec::new(), font: 0, font_height: 0, font_width: 0 };
        assert(edit.lines_view() =~= Seq::<Seq<u16>>::empty());
        edit
    }

    /// Replaces the lines with those of `text`: a line ends at each line feed,
    /// carriage returns are dropped, and what follows the last line feed is not
    /// kept.
    pub fn set_text(&mut self, text: &[u16])
        ensures
            final(self).lines_view() == split_lines(text@).0,
            final(self).hwnd == old(self).hwnd,
            final(self).font == old(self).font,
            final(self).font_height == old(self).font_height,
            final(self).font_width == old(self).font_width,
    {
        self.lines.clear();
        let mut line: Vec<u16> = Vec::new();
        let mut i: usize = 0;
        assert(text@.take(0) =~= Seq::<u16>::empty());
        assert(self.lines_view() =~= Seq::<Seq<u16>>::empty());
        while i < text.len()
            invariant
                i <= text@.len(),
                self.lines_view() == split_lines(text@.take(i as int)).0,
                line@ == split_lines(text@.take(i as int)).1,
                self.hwnd == old(self).hwnd,
                self.font == old(self).font,
                self.font_height == old(self).font_height,
                self.font_width == old(self).font_width,
            decreases text@.len() - i,
        {
            let c = text[i];
            let ghost before = self.lines_view();
            assert(text@.take(i + 1).drop_last() =~= text@.take(i as int));
            assert(text@.take(i + 1).last() == c);
            if c == LF {
                let ghost closed = line@;
                self.lines.push(line);
                line = Vec::new();
                assert(self.lines_view() =~= before.push(closed));
                assert(line@ =~= Seq::<u16>::empty());
            } else if c == CR {
            } else {
                line.push(c);
            }
            i = i + 1;
        }
        assert(text@.take(text@.len() as int) =~= text@);
    }

    /// Empties the text area, as the "New" command does: the text it is given is
    /// the converted empty string, which holds no line feed.
    pub fn clear_text(&mut self)
        ensures
            final(self).lines_view() == Seq::<Seq<u16>>::empty(),
            final(self).hwnd == old(self).hwnd,
            final(self).font == old(self).font,
            final(self).font_height == old(self).font_height,
            final(self).font_width == old(self).font_width,
    {
        let blank = convert_string("");
        proof {
            reveal_strlit("");
            assert(blank@ =~= seq![0u16]);
            assert(blank@.drop_last() =~= Seq::<u16>::empty());
            assert(split_lines(blank@.drop_last()).0 =~= Seq::<Seq<u16>>::empty());
            assert(split_lines(blank@).0 =~= Seq::<Seq<u16>>::empty());
        }
        self.set_text(&blank);
    }

    /// Loads the UTF-8 bytes of a file as the text of the text area. The file
    /// must not be empty: the conversion of an empty file fails.
    pub fn load_utf8(&mut self, bytes: &[u8])
        requires
            bytes@.len() > 0,
        ensures
            final(self).lines_view() == split_lines(encode_utf16(decode_utf8_lossy(bytes@))).0,
            final(self).hwnd == old(self).hwnd,
            final(self).font == old(self).font,
            final(self).font_height == old(self).font_height,
            final(self).font_width == old(self).font_width,
    {
        let text = utf8_to_wide(bytes);
        self.set_text(&text);
    }

    /// Records a newly selected font and its metrics.
    pub fn set_font_metrics(&mut self, font: usize, height: i32, average_width: i32)
        ensures
            final(self).font == font,
            final(self).font_height == height,
            final(self).font_width == average_width,
            final(self).hwnd == old(self).hwnd,
            final(self).lines_view() == old(self).lines_view(),
    {
        self.font = font;
        self.font_height = height;
        self.font_width = average_width;
    }

    /// The rows to paint for a paint rectangle from `paint_top` to `paint_bottom`:
    /// from the row that `paint_top` falls in (not before the first) up to,
    /// without, the row that `paint_bottom` falls in (not past the last line).
    pub fn rows_to_paint(&self, paint_top: i32, paint_bottom: i32) -> (rows: (usize, usize))
        requires
            self.font_height != 0,
            !(paint_top == i32::MIN && self.font_height == -1),
            !(paint_bottom == i32::MIN && self.font_height == -1),
            self.lines@.len() <= i32::MAX,
            trunc_div(paint_bottom as int, self.font_height as int) >= 0,
        ensures
            rows.0 as int == if trunc_div(paint_top as int, self.font_height as int) > 0 {
                trunc_div(paint_top as int, self.font_height as int)
            } else {
                0
            },
            rows.1 as int == if trunc_div(paint_bottom as int, self.font_height as int)
                < self.lines@.len() {
                trunc_div(paint_bottom as int, self.font_height as int)
            } else {
                self.lines@.len() as int
            },
            rows.1 <= self.lines@.len(),
    {
        let top = div_toward_zero(paint_top, self.font_height);
        let bottom = div_toward_zero(paint_bottom, self.font_height);
        let len = self.lines.len() as i32;
        let top_row: i32 = if top > 0 { top } else { 0 };
        let bottom_row: i32 = if bottom < len { bottom } else { len };
        (top_row as usize, bottom_row as usize)
    }

    /// The vertical band of line `line_no`, from its top to the top of the next
    /// line, and the line itself.
    pub fn line_band(&self, line_no: usize) -> (band: (i32, i32, &Vec<u16>))
        requires
            line_no < self.lines@.len(),
            self.lines@.len() <= i32::MAX,
            i32::MIN <= line_no * self.font_height <= i32::MAX,
            i32::MIN <= (line_no + 1) * self.font_height <= i32::MAX,
        ensures
            band.0 == line_no * self.font_height,
            band.1 == (line_no + 1) * self.font_height,
            band.2@ == self.lines@[line_no as int]@,
    {
        let row = line_no as i32;
        let top = row * self.font_height;
        let bottom = (row + 1) * self.font_height;
        (top, bottom, &self.lines[line_no])
    }
}

} // verus!
