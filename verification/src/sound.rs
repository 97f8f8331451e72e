use vstd::prelude::*;

verus! {

/// A tone signal sent to the sound capability.
#[derive(Copy, Clone, PartialEq, Eq, Debug, Structural)]
pub enum SoundEvent {
    ToneStart,
    ToneEnd,
}

/// The sound capability: fire-and-forget tone signals.  `events()` models
/// the sequence of signals received so far, so contracts can state exactly
/// when the engine starts and stops the tone.
pub trait Sound: Sized {
    spec fn events(&self) -> Seq<SoundEvent>;

    fn beep_start(&mut self)
        ensures
            final(self).events() == old(self).events().push(SoundEvent::ToneStart),
    ;

    fn beep_end(&mut self)
        ensures
            final(self).events() == old(self).events().push(SoundEvent::ToneEnd),
    ;
}

/// A silent sound device: it reacts to nothing and keeps the signal
/// history only as ghost state.
pub struct NullSound {
    pub history: Ghost<Seq<SoundEvent>>,
}

impl NullSound {
    pub fn new() -> (r: NullSound)
        ensures
            r.events() == Seq::<SoundEvent>::empty(),
    {
        NullSound { history: Ghost(Seq::empty()) }
    }
}

impl Sound for NullSound {
    open spec fn events(&self) -> Seq<SoundEvent> {
        self.history@
    }

    fn beep_start(&mut self) {
        proof {
            self.history@ = self.history@.push(SoundEvent::ToneStart);
        }
    }

    fn beep_end(&mut self) {
        proof {
            self.history@ = self.history@.push(SoundEvent::ToneEnd);
        }
    }
}

/// A sound device that records every signal it receives, for tests that
/// assert on the exact call sequence.
pub struct RecordingSound {
    pub log: Vec<SoundEvent>,
}

impl RecordingSound {
    pub fn new() -> (r: RecordingSound)
        ensures
            r.events() == Seq::<SoundEvent>::empty(),
    {
        RecordingSound { log: Vec::new() }
    }
}

impl Sound for RecordingSound {
    open spec fn events(&self) -> Seq<SoundEvent> {
        self.log@
    }

    fn beep_start(&mut self) {
        self.log.push(SoundEvent::ToneStart);
    }

    fn beep_end(&mut self) {
        self.log.push(SoundEvent::ToneEnd);
    }
}

} // verus!
