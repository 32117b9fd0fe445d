//! Building blocks of a supervisor that runs a child process, forwards its
//! output line by line and keeps a live elapsed-time indicator on the
//! terminal.
//!
//! Everything here is pure logic over plain values: the surrounding program
//! performs the reads, writes and waits, and asks this library what to do
//! with what came back.

pub mod args;
pub mod event;
pub mod format;
pub mod lines;
pub mod outcome;
pub mod source;
pub mod spawn;
pub mod status;
pub mod text;
