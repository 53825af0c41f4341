use vstd::prelude::*;

verus! {

/// The keypad latch: the code of the key held down, 0 when none is.
pub struct Keyboard {
    pub key: u8,
}

impl Keyboard {
    /// A keypad with no key held.
    pub fn new() -> (k: Keyboard)
        ensures
            k.key == 0,
    {
        Keyboard { key: 0 }
    }

    /// Latches `keycode` as the key held (0 for none).
    pub fn set_keypress(&mut self, keycode: u8)
        ensures
            final(self).key == keycode,
    {
        self.key = keycode;
    }

    /// Whether some key is held.
    pub fn is_pressed(&self) -> (r: bool)
        ensures
            r == (self.key != 0),
    {
        self.key != 0
    }
}

} // verus!
