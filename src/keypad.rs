use vstd::prelude::*;

verus! {

/// Number of logical keys.
pub const KEY_COUNT: usize = 16;

/// Pressed / released state of the sixteen logical keys.
pub struct Chip8Keypad {
    pub keys: Vec<bool>,
}

impl Chip8Keypad {
    pub open spec fn wf(&self) -> bool {
        self.keys@.len() == KEY_COUNT
    }

    /// A keypad with every key released.
    pub fn new() -> (r: Chip8Keypad)
        ensures
            r.wf(),
            forall|k: int| 0 <= k < KEY_COUNT ==> !r.keys@[k],
    {
        let mut keys: Vec<bool> = Vec::new();
        let mut k: usize = 0;
        while k < KEY_COUNT
            invariant
                k <= KEY_COUNT,
                keys@.len() == k,
                forall|j: int| 0 <= j < k ==> !keys@[j],
            decreases KEY_COUNT - k,
        {
            keys.push(false);
            k = k + 1;
        }
        Chip8Keypad { keys }
    }

    /// Whether key `key_index` is currently held down.
    pub fn is_pressed(&self, key_index: u8) -> (r: bool)
        requires
            self.wf(),
            key_index < KEY_COUNT,
        ensures
            r == self.keys@[key_index as int],
    {
        self.keys[key_index as usize]
    }

    /// Records that key `key_index` is now pressed or released.
    pub fn set_key_state(&mut self, key_index: u8, pressed: bool)
        requires
            old(self).wf(),
            key_index < KEY_COUNT,
        ensures
            final(self).keys@ == old(self).keys@.update(key_index as int, pressed),
    {
        self.keys.set(key_index as usize, pressed);
    }
}

} // verus!
