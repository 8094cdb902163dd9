//! Core of a small interactive command interpreter: a line parser with
//! shell-style quoting and output redirection, the table of builtin
//! commands, and the decisions taken when a line is dispatched.

pub mod text;
pub mod builtins;
pub mod parser;
pub mod path;
pub mod dispatch;
pub mod completion;
