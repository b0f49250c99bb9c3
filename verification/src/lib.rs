//! Verified core of a sticky-notes desktop application.
//!
//! The crate holds the record store, the reconciliation of note records with
//! live windows, the show/hide controller and the validated command boundary.
//! Windowing and disk persistence are the caller's business: every function
//! here works on plain values and tells the caller which window operations to
//! carry out.
//!
//! Opacities are carried as the bit patterns of binary64 numbers, so that
//! clamping them is integer work that can be proved (see [`opacity`]).
//! Reading a number from text and writing it as text is left to the caller.

mod clock;
pub mod commands;
pub mod db;
pub mod hotkeys;
pub mod ident;
pub mod note;
pub mod note_window;
pub mod opacity;
pub mod startup;
pub mod text;

pub use db::{Database, StoreError};
pub use note::{Note, Settings};
pub use opacity::clamp_opacity;
pub use startup::run;
