//! Core of an interactive command-line shell: quote/escape tokenizing,
//! redirection parsing, builtin dispatch, command resolution, output routing
//! and path completion.

pub mod autocompletion;
pub mod builtins;
pub mod command;
pub mod output;
pub mod parser;
pub mod redirection;
pub mod shell;
pub mod strutil;
pub mod utils;
