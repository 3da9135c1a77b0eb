use vstd::prelude::*;
use crate::error::Chip8Error;

verus! {

/// Number of keys on the keypad.
pub const KEY_COUNT: usize = 16;

/// The sixteen-key keypad. It records which keys are held down right now and
/// nothing else.
pub struct Keyboard {
    keys: [bool; KEY_COUNT],
}

impl View for Keyboard {
    type V = Seq<bool>;

    closed spec fn view(&self) -> Seq<bool> {
        self.keys@
    }
}

/// A keypad with every key released.
pub open spec fn released_keys() -> Seq<bool> {
    Seq::new(KEY_COUNT as nat, |k: int| false)
}

impl Keyboard {
    /// Every keypad has exactly `KEY_COUNT` keys.
    pub proof fn lemma_len(&self)
        ensures
            self@.len() == KEY_COUNT,
    {
    }

    /// A keypad with every key released.
    pub fn new() -> (k: Keyboard)
        ensures
            k@ == released_keys(),
    {
        let k = Keyboard { keys: [false; KEY_COUNT] };
        assert(k@ =~= released_keys());
        k
    }

    /// Records `key` as pressed (`state` true) or released.
    pub fn set_key(&mut self, key: usize, state: bool) -> (r: Result<(), Chip8Error>)
        ensures
            match r {
                Ok(()) => key < KEY_COUNT && final(self)@ == old(self)@.update(key as int, state),
                Err(e) => {
                    &&& key >= KEY_COUNT
                    &&& e == Chip8Error::InvalidKey
                    &&& final(self)@ == old(self)@
                },
            },
    {
        if key > 0xF {
            Err(Chip8Error::InvalidKey)
        } else {
            self.keys[key] = state;
            Ok(())
        }
    }

    /// Whether `key` is held down.
    pub fn is_pressed(&self, key: usize) -> (r: Result<bool, Chip8Error>)
        ensures
            match r {
                Ok(down) => key < KEY_COUNT && down == self@[key as int],
                Err(e) => key >= KEY_COUNT && e == Chip8Error::InvalidKey,
            },
    {
        if key > 0xF {
            Err(Chip8Error::InvalidKey)
        } else {
            Ok(self.keys[key])
        }
    }
}

} // verus!
