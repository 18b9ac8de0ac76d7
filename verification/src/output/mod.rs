//! What the commands report, and how text is styled for a terminal.
pub mod styling;
pub mod types;
