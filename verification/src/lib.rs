//! Core of a desktop file organizer: a classifier that maps file extensions
//! to category folders, a move journal that records every relocation so a run
//! can be reversed, an organize engine and an undo engine driven step by step
//! by an unverified shell, a cancellation token, and progress reporting.
//!
//! All path strings produced here use `/` as the separator; the shell that
//! performs the actual filesystem operations hands in directory listings and
//! carries out the move commands the engines produce.

pub mod cancel;
pub mod classify;
pub mod journal;
pub mod organize;
pub mod paths;
pub mod preview;
pub mod progress;
pub mod text;
pub mod undo;
