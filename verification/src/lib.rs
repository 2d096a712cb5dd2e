//! Planning of per-take media extraction for multi-track recording sessions.
//!
//! The crate holds the time arithmetic, the session model, the offset cache and
//! the job planning of a take slicer. It reads no file and starts no process:
//! it is handed records and paths as plain values, and hands back the jobs to
//! run and what to make of their outcomes. The functions are verified against
//! contracts stated over the views of the data types; the two calls into the
//! standard library that are taken on trust stand in `tui` and say so.

pub mod cli;
pub mod data;
pub mod job;
pub mod path;
pub mod session;
pub mod slicer;
pub mod synchronizer;
pub mod text;
pub mod timestamp;
pub mod tui;
