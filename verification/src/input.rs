use vstd::prelude::*;

verus! {

/// One of the sixteen keys of the hexadecimal keypad.
#[derive(Copy, Clone, PartialEq, Eq, Hash, Debug, Structural)]
pub enum Key {
    Zero,
    One,
    Two,
    Three,
    Four,
    Five,
    Six,
    Seven,
    Eight,
    Nine,
    A,
    B,
    C,
    D,
    E,
    F,
}

impl Key {
    /// The key's index on the keypad, between 0 and 15.
    pub open spec fn spec_code(self) -> u8 {
        match self {
            Key::Zero => 0,
            Key::One => 1,
            Key::Two => 2,
            Key::Three => 3,
            Key::Four => 4,
            Key::Five => 5,
            Key::Six => 6,
            Key::Seven => 7,
            Key::Eight => 8,
            Key::Nine => 9,
            Key::A => 10,
            Key::B => 11,
            Key::C => 12,
            Key::D => 13,
            Key::E => 14,
            Key::F => 15,
        }
    }

    /// Bounds-checked conversion from a register byte: values 0-15 name a
    /// key, anything larger is an invalid key index and yields `None`.
    pub fn from_byte(k: u8) -> (r: Option<Key>)
        ensures
            r is Some <==> k < 16,
            r matches Some(key) ==> key.spec_code() == k,
    {
        match k {
            0 => Some(Key::Zero),
            1 => Some(Key::One),
            2 => Some(Key::Two),
            3 => Some(Key::Three),
            4 => Some(Key::Four),
            5 => Some(Key::Five),
            6 => Some(Key::Six),
            7 => Some(Key::Seven),
            8 => Some(Key::Eight),
            9 => Some(Key::Nine),
            10 => Some(Key::A),
            11 => Some(Key::B),
            12 => Some(Key::C),
            13 => Some(Key::D),
            14 => Some(Key::E),
            15 => Some(Key::F),
            _ => None,
        }
    }

    /// The key's index, as an 8-bit value.
    pub fn code(self) -> (r: u8)
        ensures
            r == self.spec_code(),
            r < 16,
    {
        match self {
            Key::Zero => 0,
            Key::One => 1,
            Key::Two => 2,
            Key::Three => 3,
            Key::Four => 4,
            Key::Five => 5,
            Key::Six => 6,
            Key::Seven => 7,
            Key::Eight => 8,
            Key::Nine => 9,
            Key::A => 10,
            Key::B => 11,
            Key::C => 12,
            Key::D => 13,
            Key::E => 14,
            Key::F => 15,
        }
    }
}

/// A snapshot of the pressed/released state of all sixteen keys,
/// indexed by key code.
#[derive(Copy, Clone, PartialEq, Eq, Debug)]
pub struct KeySet(pub [bool; 16]);

impl View for KeySet {
    type V = Seq<bool>;

    open spec fn view(&self) -> Seq<bool> {
        self.0@
    }
}

impl KeySet {
    /// The snapshot in which no key is pressed.
    pub fn none() -> (r: KeySet)
        ensures
            r@.len() == 16,
            forall|i: int| 0 <= i < 16 ==> !r@[i],
    {
        KeySet([false;16])
    }

    /// Whether the given key is down in this snapshot.
    pub fn pressed(&self, k: Key) -> (r: bool)
        ensures
            r == self@[k.spec_code() as int],
    {
        let c = k.code();
        self.0[c as usize]
    }
}

/// The keyboard capability: the engine polls the current key set for the
/// key-skip instructions and blocks on `wait_key` for the wait-for-key
/// instruction.  `keys()` models what a poll would report right now;
/// `wait_key` may take arbitrarily long and may return any key.
pub trait Input: Sized {
    spec fn keys(&self) -> Seq<bool>;

    fn poll_keyboard(&mut self) -> (r: KeySet)
        ensures
            r@ == old(self).keys(),
    ;

    fn wait_key(&mut self) -> (k: Key);
}

/// A headless keyboard with no keys ever pressed; `wait_key` yields key
/// zero at once rather than blocking forever.
pub struct NullInput;

impl Input for NullInput {
    open spec fn keys(&self) -> Seq<bool> {
        Seq::new(16, |i: int| false)
    }

    fn poll_keyboard(&mut self) -> (r: KeySet) {
        let r = KeySet::none();
        proof {
            assert(r@ =~= old(self).keys());
        }
        r
    }

    fn wait_key(&mut self) -> (k: Key) {
        Key::Zero
    }
}

/// A keyboard held in a fixed state: `poll_keyboard` always reports the
/// stored snapshot and `wait_key` always yields the stored key.  Serves as
/// a deterministic test double.
pub struct FixedInput {
    pub set: KeySet,
    pub key: Key,
}

impl Input for FixedInput {
    open spec fn keys(&self) -> Seq<bool> {
        self.set@
    }

    fn poll_keyboard(&mut self) -> (r: KeySet) {
        self.set
    }

    fn wait_key(&mut self) -> (k: Key)
        ensures
            k == old(self).key,
    {
        self.key
    }
}

} // verus!
