//! Core of a terminal pixel-art editor.
//!
//! The canvas is a dense grid of character cells, each split into an upper and
//! a lower half-block so that one terminal row carries two rows of pixels.
//! Painting goes through a single half-block primitive; shapes, brushes, the
//! flood fill and the undo/redo log are built on top of it. Terminal output is
//! modelled as a queue of [`terminal::Command`] values that a thin unverified
//! front end performs against the real terminal.

pub mod canvas;
pub mod debug;
pub mod input;
pub mod event;
pub mod palette;
pub mod terminal;
pub mod util;
pub mod window;
