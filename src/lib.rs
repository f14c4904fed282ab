//! A small interactive command shell: a quoting-aware line parser, a tab
//! completion engine, a raw-mode line editor state machine, the built-in
//! commands and the routing of command output.

pub mod commands;
pub mod completion;
pub mod editor;
pub mod error;
pub mod file;
pub mod output;
pub mod parser;
pub mod path;
pub mod quote;
pub mod redirection;
pub mod requote;
pub mod text;
