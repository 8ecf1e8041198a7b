//! Core logic of a terminal dashboard for Mercurial repositories.
//!
//! The crate holds the verified orchestration layer: parsing of the
//! version-control tool's output, snapshot assembly decisions with
//! structured-first/legacy-fallback policy, keybinding canonicalization,
//! the shell-like tokenizer and template engine for user-defined commands,
//! and the interactive session state machine. Terminal rendering and
//! process/file I/O live outside the library and drive it through plain
//! values.

pub mod assemble;
pub mod cli;
pub mod commands;
pub mod config;
pub mod custom;
pub mod domain;
pub mod items;
pub mod json;
pub mod keys;
pub mod parsehg;
pub mod session;
pub mod text;
