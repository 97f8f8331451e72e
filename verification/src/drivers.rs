use vstd::prelude::*;
use crate::display::{Display, DISPLAY_SIZE, blank_grid, spec_collision, spec_draw};
use crate::input::{Input, Key, KeySet};
use crate::rand::Rand;
use crate::sound::{Sound, SoundEvent};

verus! {

/// The bundle of host capabilities the engine drives: a display, a
/// keyboard, a sound device, and a pseudo-random byte source.  Each
/// method forwards to one capability and leaves the other three alone.
pub struct Context<D, I, S, R> {
    pub display: D,
    pub input: I,
    pub sound: S,
    pub rand: R,
}

impl<D: Display, I: Input, S: Sound, R: Rand> Context<D, I, S, R> {
    pub fn new(display: D, input: I, sound: S, rand: R) -> (r: Context<D, I, S, R>)
        ensures
            r.display == display,
            r.input == input,
            r.sound == sound,
            r.rand == rand,
    {
        Context { display, input, sound, rand }
    }

    pub fn draw(&mut self, x: usize, y: usize, sprite: &[u8]) -> (collision: bool)
        requires
            old(self).display.grid().len() == DISPLAY_SIZE,
            x <= 255,
            y <= 255,
            sprite@.len() <= 32,
        ensures
            final(self).display.grid() == spec_draw(
                old(self).display.grid(),
                x as int,
                y as int,
                sprite@,
            ),
            collision == spec_collision(old(self).display.grid(), x as int, y as int, sprite@),
            final(self).input == old(self).input,
            final(self).sound == old(self).sound,
            final(self).rand == old(self).rand,
    {
        self.display.draw(x, y, sprite)
    }

    pub fn clear(&mut self)
        ensures
            final(self).display.grid() == blank_grid(),
            final(self).input == old(self).input,
            final(self).sound == old(self).sound,
            final(self).rand == old(self).rand,
    {
        self.display.clear()
    }

    pub fn poll_keyboard(&mut self) -> (r: KeySet)
        ensures
            r@ == old(self).input.keys(),
            final(self).display == old(self).display,
            final(self).sound == old(self).sound,
            final(self).rand == old(self).rand,
    {
        self.input.poll_keyboard()
    }

    pub fn wait_key(&mut self) -> (k: Key)
        ensures
            final(self).display == old(self).display,
            final(self).sound == old(self).sound,
            final(self).rand == old(self).rand,
    {
        self.input.wait_key()
    }

    pub fn beep_start(&mut self)
        ensures
            final(self).sound.events() == old(self).sound.events().push(SoundEvent::ToneStart),
            final(self).display == old(self).display,
            final(self).input == old(self).input,
            final(self).rand == old(self).rand,
    {
        self.sound.beep_start()
    }

    pub fn beep_end(&mut self)
        ensures
            final(self).sound.events() == old(self).sound.events().push(SoundEvent::ToneEnd),
            final(self).display == old(self).display,
            final(self).input == old(self).input,
            final(self).rand == old(self).rand,
    {
        self.sound.beep_end()
    }

    pub fn random_byte(&mut self) -> (b: u8)
        ensures
            final(self).display == old(self).display,
            final(self).input == old(self).input,
            final(self).sound == old(self).sound,
    {
        self.rand.byte()
    }
}

} // verus!
