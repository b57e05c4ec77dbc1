//! Error type of text buffer operations.

use vstd::prelude::*;
use crate::text::{concat_strs, push_decimal, decimal};

verus! {

/// Domain error enum for Text Buffer operations in GIC.
#[derive(Debug, PartialEq, Eq, Clone)]
pub enum BufferError {
    /// Specified cursor position is out of buffer bounds.
    InvalidPosition { row: usize, col: usize },
    /// Operation requested on an empty buffer when content was expected.
    EmptyBuffer,
    /// Invalid selection range requested or no active selection.
    InvalidSelection,
    /// Attempted to paste when internal clipboard is empty.
    ClipboardEmpty,
    /// Attempted undo or redo when history stack is empty.
    HistoryEmpty,
    /// General buffer operation failure with custom message.
    OperationFailed(String),
}

impl BufferError {
    /// The human-readable message of this error.
    pub fn to_message(&self) -> (r: String)
        ensures
            match self {
                BufferError::InvalidPosition { row, col } => r@ == "Invalid cursor position: row "@
                    + decimal(*row as nat) + ", col "@ + decimal(*col as nat),
                BufferError::EmptyBuffer => r@ == "Buffer is empty"@,
                BufferError::InvalidSelection => r@ == "No active or valid selection"@,
                BufferError::ClipboardEmpty => r@ == "Internal clipboard is empty"@,
                BufferError::HistoryEmpty => r@ == "Undo/Redo history stack is empty"@,
                BufferError::OperationFailed(m) => r@ == "Buffer operation error: "@ + m@,
            },
    {
        match self {
            BufferError::InvalidPosition { row, col } => {
                let mut s = "Invalid cursor position: row ".to_owned();
                push_decimal(&mut s, *row);
                s.append(", col ");
                push_decimal(&mut s, *col);
                s
            },
            BufferError::EmptyBuffer => "Buffer is empty".to_owned(),
            BufferError::InvalidSelection => "No active or valid selection".to_owned(),
            BufferError::ClipboardEmpty => "Internal clipboard is empty".to_owned(),
            BufferError::HistoryEmpty => "Undo/Redo history stack is empty".to_owned(),
            BufferError::OperationFailed(m) => concat_strs("Buffer operation error: ", m.as_str()),
        }
    }
}

} // verus!
