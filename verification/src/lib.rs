//! Core of a small interactive command shell: quote-aware tokenization,
//! command parsing, dispatch planning, shell state and error model, path
//! expansion, listing logic, and the line-editing model, all with verified
//! contracts. A thin driver owns the terminal and the filesystem and calls
//! in here for every decision.

pub mod builtins;
pub mod command;
pub mod editor;
pub mod error;
pub mod expand;
pub mod ls;
pub mod perms;
pub mod shell;
pub mod text;
pub mod timefmt;
pub mod tokenizer;
