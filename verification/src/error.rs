use vstd::prelude::*;

verus! {

/// Northbridge errors.
#[derive(Debug, Clone, PartialEq, Eq)]
pub enum Error {
    /// BrlAPI error from the underlying connection, by its message.
    Brlapi(String),
    /// Failed to enter TTY mode.
    TtyMode,
    /// Text contained a null byte.
    InvalidText,
    /// Failed to write to the display.
    Write,
    /// Failed to read a key.
    ReadKey,
    /// Failed to send keyboard or mouse input.
    Input,
    /// No element with the given name could be clicked.
    ClickNotFound(String),
    /// Failed to read the screen.
    ScreenRead,
}

} // verus!
