//! A library for command line presentations: a presentation is a sequence of
//! "slides", and a slide is an ordered list of display actions (typewriter-paced
//! text, styled paced text, timed waits, interaction waits) followed by a
//! trailing wait for a keypress.
//!
//! The slide execution engine is a verified state machine: it decides, step by
//! step, which terminal command to perform next (write a character, flush,
//! toggle raw mode, sleep, read an input event) and how to react to each
//! command's outcome. The caller performs the commands against a real terminal
//! and feeds the outcomes back.

pub mod actions;
pub mod engine;
pub mod laws;
pub mod script;
