//! # northbridge
//!
//! A virtual braille display and keyboard for computer use.
//!
//! Northbridge connects to BRLTTY via BrlAPI and gives a text interface to
//! the braille display: text written to the display, key presses read from
//! the braille keyboard, and the text the screen reader shows, read back
//! from the terminal that BRLTTY renders to. Input is sent with `xdotool`.
//!
//! This crate holds the logic of the bridge: the display geometry, key
//! events, the decisions taken on BrlAPI's answers and on the outcome of the
//! input tools, the command lines that are run, and the recovery of the
//! screen text from what BRLTTY renders.

pub mod bridge;
pub mod display;
pub mod error;
pub mod input;
pub mod keys;
pub mod launch;
pub mod pattern;
pub mod screen;
pub mod text;

pub use bridge::Northbridge;
pub use display::Display;
pub use error::Error;
pub use keys::Key;
pub use screen::BrailleScreen;
