//! Rendering and input-editing core of a terminal chat client.
//!
//! The library decides; the host performs. `Tui::update` takes the
//! terminal's size and at most one key token per tick, edits the input line,
//! keeps the scrollback within the output region, appends the drawing
//! operations of the tick to the caller's list and returns its outward event.

pub mod editor;
pub mod key;
pub mod scrollback;
pub mod tui;

pub use editor::InputLine;
pub use key::{key_down_code, InputSystem, Key, KEY_QUEUE_CAPACITY};
pub use scrollback::{row_count, string_to_char_length, ScrollbackBuffer};
pub use tui::{init, Color, ConsoleSize, DrawOp, DrawView, Tui, TuiEvent, INPUT_BAR_HEIGHT};
