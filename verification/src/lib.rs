//! The verified core of a set of small inline terminal tools: an Emacs-like
//! editor and pager, a Git rebase sequence editor, a Git log browser and a
//! symbol picker that talks to a language server.

pub mod style;
pub mod text;
pub mod rope;
pub mod args;
pub mod config;
pub mod file_path;
pub mod inline_text;
pub mod paths;
pub mod rebase;
pub mod log;
pub mod clipboard;
pub mod json;
pub mod layout;
pub mod lsp;
pub mod navsplat;
pub mod table;
