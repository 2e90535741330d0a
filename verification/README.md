# rustpad

A small Windows text editor. This crate is its verified core:

- `util`: strings to NUL-terminated UTF-16 and back (`convert_string`, `until_nul`).
- `encoding`: UTF-16 text to UTF-8 file bytes and back, with U+FFFD for what
  encodes no character, and the laws that tie the two directions together.
- `control::edit`: the text area's lines, font metrics, painted rows and
  message handling.
- `main_window`: the main window's message handling, menu commands and the
  placement of the text area between toolbar and status bar.
- `dialogs`, `markdowneditcontrol`, `message`: file-dialog results, the
  markdown window class, and the messages the window procedures tell apart.

`app/` is the Win32 program around it: window classes, window procedures,
dialogs, file reads and writes, and the message loop.
