use vstd::prelude::*;

verus! {

/// A key event from the braille keyboard.
#[derive(Debug, Clone, Copy, PartialEq, Eq, Structural)]
pub struct Key {
    /// The raw BrlAPI key code.
    pub code: u64,
}

impl Key {
    /// The key event that carries the raw code `code`.
    pub fn from_code(code: u64) -> (k: Self)
        ensures
            k.code == code,
    {
        Self { code }
    }
}

} // verus!
