//! A modal text-editing engine: a line buffer with snapshot undo, Vim-style
//! cursor motions, a registry of open buffers and a modal key dispatcher, with
//! the picker and screen logic around them.

pub mod buffer;
pub mod config;
pub mod cursor;
pub mod error;
pub mod history;
pub mod manager;
pub mod modes;
pub mod picker;
pub mod search;
pub mod session;
pub mod text;
pub mod ui;

pub use buffer::Buffer;
pub use cursor::{Cursor, Position};
pub use error::EditorError;
pub use manager::{BufferManager, SaveRequest};
pub use modes::{EditorAction, Key, Mode, ModeManager};
