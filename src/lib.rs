//! Commit-message templates: positional placeholders resolved against
//! command-line arguments, with optional per-argument case transforms, and
//! the choice of what a command-line action does.

pub mod case;
pub mod config;
pub mod template;
pub mod cli;
pub mod laws;
