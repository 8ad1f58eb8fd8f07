use vstd::prelude::*;

verus! {

/// The largest task id; ids cover `0 ..= MAX_ID`.
pub const MAX_ID: u8 = 255;

/// An infinite cyclic source of single-byte task ids. It starts at 0,
/// advances by one on every draw and wraps after `MAX_ID`. Drawing
/// never fails; the sequence restarts only by recreating the generator.
pub struct IdGenerator {
    pub current: u8,
}

impl IdGenerator {
    pub fn new() -> (g: IdGenerator)
        ensures
            g.current == 0,
    {
        IdGenerator { current: 0 }
    }

    /// Hands out the current id and advances the (wrapping) counter.
    pub fn next(&mut self) -> (r: Option<u8>)
        ensures
            r == Some(old(self).current),
            final (self).current == (old(self).current + 1) % 256,
    {
        let id = self.current;
        self.current = self.current.wrapping_add(1);
        Some(id)
    }
}

} // verus!
