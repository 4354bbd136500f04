//! Dispatch and target-attachment core of an interactive diagnostic tool for
//! embedded firmware targets, together with the memory-dump renderer that the
//! diagnostic commands share.

pub mod error;
pub mod dumper;
pub mod command;
pub mod grammar;
pub mod attach;
pub mod repl;
pub mod cmd;
pub mod descriptors;
pub mod dispatch;
pub mod text;
