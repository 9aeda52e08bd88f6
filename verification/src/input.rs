//! The 16-key keypad: a boolean press map and a one-slot latch that
//! remembers the most recently released key until it is consumed.
//!
//! The host translates physical input into normalized events
//! `(key index in 0..16, pressed)` before handing them to `on_event`.

use vstd::prelude::*;

verus! {

pub const KEY_COUNT: usize = 16;

/// Press state of the sixteen keys plus the "last released key" latch.
/// A later release overwrites an earlier unconsumed one; there is no queue.
pub struct Keypad {
    pub pressed: Vec<bool>,
    pub last_released: Option<u8>,
}

impl Keypad {
    /// There is one press flag per key, and a latched key is a real key
    /// index.
    pub open spec fn wf(&self) -> bool {
        &&& self.pressed@.len() == KEY_COUNT
        &&& match self.last_released {
            Some(k) => k < KEY_COUNT,
            None => true,
        }
    }

    /// A fresh keypad: no key pressed, nothing latched.
    pub fn new() -> (k: Keypad)
        ensures
            k.wf(),
            k.pressed@ == Seq::new(KEY_COUNT as nat, |i: int| false),
            k.last_released is None,
    {
        let mut pressed: Vec<bool> = Vec::new();
        let mut i: usize = 0;
        while i < KEY_COUNT
            invariant
                i <= KEY_COUNT,
                pressed@ == Seq::new(i as nat, |j: int| false),
            decreases KEY_COUNT - i,
        {
            pressed.push(false);
            proof {
                assert(pressed@ =~= Seq::new((i + 1) as nat, |j: int| false));
            }
            i = i + 1;
        }
        Keypad { pressed, last_released: None }
    }

    /// Record one normalized key event: set or clear the press flag, and on
    /// a release overwrite the latch with this key.
    pub fn on_event(&mut self, key: usize, down: bool)
        requires
            old(self).wf(),
            key < KEY_COUNT,
        ensures
            final(self).wf(),
            final(self).pressed@ == old(self).pressed@.update(key as int, down),
            final(self).last_released == if !down {
                Some(key as u8)
            } else {
                old(self).last_released
            },
    {
        self.pressed[key] = down;
        if !down {
            self.last_released = Some(key as u8);
        }
    }

    /// Hand out the latched last-released key, if any, and clear the latch.
    pub fn consume_last_released(&mut self) -> (r: Option<u8>)
        ensures
            r == old(self).last_released,
            final(self).last_released is None,
            final(self).pressed@ == old(self).pressed@,
    {
        let last_released = self.last_released;
        self.last_released = None;
        last_released
    }
}

} // verus!
