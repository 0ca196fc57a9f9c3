use vstd::prelude::*;

verus! {

/// Information about the connected braille display.
#[derive(Debug, Clone, Copy, PartialEq, Eq, Structural)]
pub struct Display {
    /// Width in braille cells.
    pub width: u32,
    /// Height in braille cells (usually 1).
    pub height: u32,
}

impl Display {
    /// A display of `width` by `height` cells.
    pub fn new(width: u32, height: u32) -> (d: Self)
        ensures
            d.width == width,
            d.height == height,
    {
        Self { width, height }
    }

    /// Total number of cells on the display.
    pub fn total_cells(&self) -> (n: u32)
        requires
            self.width * self.height <= u32::MAX,
        ensures
            n == self.width * self.height,
    {
        self.width * self.height
    }
}

} // verus!
