//! The text handling, layout and window-message decisions of the Rustpad editor.
//!
//! The editor keeps its text as UTF-16 lines, reads and writes files as UTF-8,
//! and decides in window procedures what each window message asks of it. The
//! calls into Windows themselves are made by the program around this library.

pub mod control;
pub mod dialogs;
pub mod encoding;
pub mod main_window;
pub mod markdowneditcontrol;
pub mod message;
pub mod util;
