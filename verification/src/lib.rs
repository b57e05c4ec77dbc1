//! Core library of the GIC infrastructure editor: text buffer engine,
//! diagnostics model and Docker/Compose analysis.

pub mod text;
pub mod buffer;
pub mod parser;
pub mod yaml;
pub mod diagnostics;
pub mod config;
pub mod error;
pub mod docker;
pub mod cli;
pub mod language;

pub use buffer::{Cursor, CursorPosition, TextBuffer};
pub use config::{AppConfig, LogConfig, UIConfig};
pub use error::GicError;
