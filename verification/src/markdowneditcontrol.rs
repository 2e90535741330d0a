//! The markdown text area, a window class derived from the rich edit control.
use vstd::prelude::*;

verus! {

/// The name of the markdown window class.
pub const MARKDOWN_EDIT_CLASS: &'static str = "markdown_edit";

/// The class style bit that makes a window class global to the process.
pub const CS_GLOBALCLASS: u32 = 0x4000;

/// The state of a markdown text area.
pub struct MarkdownEdit {
    pub text: String,
}

/// The class style and extra window bytes of the markdown class, derived from
/// those of the rich edit class: the style without `CS_GLOBALCLASS`, and room
/// for one more pointer.
pub fn derived_class(base_style: u32, base_extra: i32, pointer_size: i32) -> (class: (u32, i32))
    requires
        i32::MIN <= base_extra + pointer_size <= i32::MAX,
    ensures
        class.0 == base_style & !CS_GLOBALCLASS,
        class.1 == base_extra + pointer_size,
{
    (base_style & !CS_GLOBALCLASS, base_extra + pointer_size)
}

} // verus!
