//! Core of an interactive terminal pager for streamed text: a scroll/follow
//! window over a growing line buffer, a user-editable list of highlight
//! patterns, and an engine that overlays pattern matches on styled lines.
//!
//! Terminal setup, event decoding and drawing live outside this crate; the
//! types here work on decoded key presses and raw line bytes alone.

pub mod highlight;
pub mod pattern;
pub mod state;
pub mod view;
