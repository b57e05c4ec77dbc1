//! Text buffer engine: line storage, cursor navigation, selections,
//! clipboard and command-pattern undo/redo history.

pub mod clipboard;
pub mod commands;
pub mod cursor;
pub mod errors;
pub mod history;
pub mod laws;
pub mod model;
pub mod operations;
pub mod selection;
pub mod text_buffer;

pub use cursor::{Cursor, CursorPosition};
pub use errors::BufferError;
pub use clipboard::{ClipboardContentType, InternalClipboard};
pub use commands::BufferCommand;
pub use history::{CommandGroup, UndoRedoHistory};
pub use operations::BufferOperations;
pub use selection::{Selection, SelectionMode};
pub use text_buffer::TextBuffer;
