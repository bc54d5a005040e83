//! An event-driven parser for the INI configuration-file format.
//!
//! The parser reads input line by line and, for each recognized construct
//! (section header, key/value option, comment), invokes the matching method
//! of a caller-supplied [`IniHandler`]. The handler owns all interpretation
//! and storage policy; the parser owns only recognition and dispatch, and
//! stops at the first syntax error or handler rejection.

pub mod classify;
pub mod laws;
pub mod parser;
pub mod text;

pub use classify::{classify, LineClass, LineKind};
pub use parser::{IniError, IniHandler, IniHandlerError, IniParser};
