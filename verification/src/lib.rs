//! Plans the commands that bring a workstation to its declared set of
//! packages and dotfiles, and decides how a run reacts to their outcomes.
//!
//! Nothing here touches the system. Callers look programs up, spawn the
//! planned commands and read file metadata, and hand the library what they
//! saw as plain values.

pub mod text;
pub mod command;
pub mod common;
pub mod sets;
pub mod plan;
pub mod packages;
pub mod runner;
pub mod dotfiles;
