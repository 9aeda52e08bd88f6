//! The two 8-bit countdown timers: delay and sound.
//!
//! Both saturate at zero and are decremented once per machine step. A
//! nonzero sound timer means the host should play a tone; the core only
//! maintains the counter.

use vstd::prelude::*;

verus! {

/// Delay and sound timers. The host reads `sound` to decide whether a tone
/// should be playing; the machine reads and writes `delay` through the
/// timer instructions.
pub struct Audio {
    pub delay: u8,
    pub sound: u8,
}

/// One countdown of both timers: each is decremented by one, saturating
/// at zero.
pub open spec fn spec_tick(a: Audio) -> Audio {
    Audio {
        delay: if a.delay > 0 { (a.delay - 1) as u8 } else { 0 },
        sound: if a.sound > 0 { (a.sound - 1) as u8 } else { 0 },
    }
}

impl Audio {
    /// Both timers start at zero.
    pub fn new() -> (a: Audio)
        ensures
            a.delay == 0,
            a.sound == 0,
    {
        Audio { delay: 0, sound: 0 }
    }

    /// Decrement both timers once, saturating at zero.
    pub fn tick(&mut self)
        ensures
            *final(self) == spec_tick(*old(self)),
    {
        if self.delay > 0 {
            self.delay = self.delay - 1;
        }

        if self.sound > 0 {
            self.sound = self.sound - 1;
        }
    }
}

} // verus!
