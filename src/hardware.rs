use vstd::prelude::*;

verus! {

/// The capabilities that the interpreter needs from its platform.
///
/// An implementation owns the screen. Its state is described to the verifier by two views:
/// `size`, the screen's width and height, and `pixels`, the state of each cell `(x, y)`
/// (`true` for lit). Reading the screen changes neither; writing a pixel changes that one
/// cell; every other capability leaves the screen as it found it.
pub trait Hardware: Sized {
    /// The screen's width and height. A verified implementation defines it; the default
    /// lets an implementation in ordinary Rust leave it out, and the interpreter assumes
    /// nothing of it beyond what the methods below state.
    closed spec fn size(&self) -> (usize, usize) {
        arbitrary()
    }

    /// The state of each cell of the screen, keyed by `(x, y)`. As with `size`, a verified
    /// implementation defines it.
    closed spec fn pixels(&self) -> Map<(int, int), bool> {
        arbitrary()
    }

    /// Returns a random value.
    fn rand(&mut self) -> (r: u8)
        ensures
            final(self).size() == old(self).size(),
            final(self).pixels() == old(self).pixels(),
    ;

    /// Checks whether `key` is pressed.
    fn key(&mut self, key: u8) -> (r: bool)
        ensures
            final(self).size() == old(self).size(),
            final(self).pixels() == old(self).pixels(),
    ;

    /// Sets the state of the pixel at `(x, y)`: `true` for lit, `false` for dark.
    fn vram_set(&mut self, x: usize, y: usize, d: bool)
        requires
            x < old(self).size().0,
            y < old(self).size().1,
        ensures
            final(self).size() == old(self).size(),
            final(self).pixels() == old(self).pixels().insert((x as int, y as int), d),
    ;

    /// Returns the state of the pixel at `(x, y)`.
    fn vram_get(&mut self, x: usize, y: usize) -> (r: bool)
        requires
            x < old(self).size().0,
            y < old(self).size().1,
        ensures
            r == old(self).pixels()[(x as int, y as int)],
            final(self).size() == old(self).size(),
            final(self).pixels() == old(self).pixels(),
    ;

    /// Sets the size of the screen, giving every cell of it a state.
    fn vram_setsize(&mut self, size: (usize, usize))
        ensures
            final(self).size() == size,
            forall|x: int, y: int|
                0 <= x < size.0 && 0 <= y < size.1 ==> #[trigger] final(self).pixels().dom().contains(
                    (x, y),
                ),
    ;

    /// Returns the size of the screen.
    fn vram_size(&mut self) -> (r: (usize, usize))
        ensures
            r == old(self).size(),
            final(self).size() == old(self).size(),
            final(self).pixels() == old(self).pixels(),
    ;

    /// Returns the current clock value in nanoseconds.
    fn clock(&mut self) -> (r: u64)
        ensures
            final(self).size() == old(self).size(),
            final(self).pixels() == old(self).pixels(),
    ;

    /// Plays a beep.
    fn beep(&mut self)
        ensures
            final(self).size() == old(self).size(),
            final(self).pixels() == old(self).pixels(),
    ;

    /// Called once in every step; returns `true` to ask for shutdown.
    fn sched(&mut self) -> (r: bool)
        ensures
            final(self).size() == old(self).size(),
            final(self).pixels() == old(self).pixels(),
    {
        false
    }
}

} // verus!
