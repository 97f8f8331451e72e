use vstd::prelude::*;

verus! {

/// The pseudo-random byte capability consumed by the random-byte
/// instruction.  Nothing is promised of the byte: the engine's contract
/// holds for every value the source may yield.
pub trait Rand: Sized {
    fn byte(&mut self) -> u8;
}

/// One step of the xorshift recurrence on a 64-bit state word.
pub open spec fn spec_xorshift(x: u64) -> u64 {
    let a = x ^ (x << 13);
    let b = a ^ (a >> 7);
    b ^ (b << 17)
}

/// A seedable pseudo-random byte source: a 64-bit xorshift generator, so
/// that cycle behaviour is reproducible under test.
pub struct XorShift {
    pub state: u64,
}

impl XorShift {
    /// A generator starting from the given seed (a zero seed is nudged to
    /// a fixed nonzero word, since the all-zero state is a fixed point of
    /// the recurrence).
    pub fn new(seed: u64) -> (r: XorShift)
        ensures
            r.state == if seed == 0 {
                0x9e3779b97f4a7c15u64
            } else {
                seed
            },
    {
        if seed == 0 {
            XorShift { state: 0x9e3779b97f4a7c15 }
        } else {
            XorShift { state: seed }
        }
    }

    /// Advance the state once and expose its low byte.
    pub fn next_byte(&mut self) -> (r: u8)
        ensures
            final(self).state == spec_xorshift(old(self).state),
            r == final(self).state % 256,
    {
        let x0 = self.state;
        let a = x0 ^ (x0 << 13);
        let b = a ^ (a >> 7);
        let c = b ^ (b << 17);
        self.state = c;
        let low: u64 = c % 256;
        low as u8
    }
}

impl Rand for XorShift {
    fn byte(&mut self) -> u8 {
        self.next_byte()
    }
}

} // verus!
