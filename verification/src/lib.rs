//! A rule-driven organizer of files. A ruleset names a source directory,
//! filters on the files in it, and a destination, which may be a template
//! over what a regular expression captures from each file name. An execution
//! moves or copies the files that the filters accept, one after the other,
//! and reports what became of each.
//!
//! The library decides; it touches neither the file system nor the clock.
//! `execution`, `transfer` and `undo` are machines that ask the host for one
//! operation at a time and are told what came of it.

pub mod captures;
pub mod commands;
pub mod engine;
pub mod execution;
pub mod filters;
pub mod pattern;
pub mod ruleset;
pub mod template;
pub mod text;
pub mod time;
pub mod transfer;
pub mod undo;
