//! Command resolution and completion for a command shell.
//!
//! The crate holds the decisions of the shell: how a typed line is split into
//! words, which node of the command tree a prefix of words leads to, which
//! candidates are offered for the word under the cursor, how the session's
//! switches change, and what the shell does with each line it is given.
//! Reading lines, parsing arguments against the full grammar and running the
//! commands themselves are left to the program around it.

pub mod config;
pub mod text;
pub mod tree;
pub mod tokenize;
pub mod complete;
pub mod laws;
pub mod history;
pub mod parsed;
pub mod repl;
