//! Verified simulation engine for a terminal falling-block puzzle game.
//!
//! The library covers the piece catalog and its rotation transform, the
//! collision test, the play-field operations (building, locking pieces,
//! detecting and collapsing completed rows) and the per-tick session state
//! machine, all with proved contracts.  Terminal rendering and keyboard
//! polling are left to the embedding program, which feeds key codes in and
//! reads the field, the active piece and the score back out.

pub mod assets;
pub mod colors;
pub mod field;
pub mod input;
pub mod session;
pub mod tetromino;
