//! The decisions of the command-line commands.
pub mod check;
pub mod completion;
pub mod helpers;
pub mod list;
pub mod remove;
