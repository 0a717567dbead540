//! Timers of the sound generator.

use vstd::prelude::*;
use crate::bits::masks_bound;

verus! {

/// A free-running 8-bit counter. It is clocked every `2^control` samples, and
/// pends its interrupt when it reaches 255. A register write loads it once.
#[derive(Clone, Copy, Debug, PartialEq, Eq, Structural)]
pub struct Timer {
    pub counter: u8,
    pub control: u8,
    /// What the next clock loads, or -1.
    pub reload: i32,
}

impl Timer {
    pub open spec fn idle() -> Timer {
        Timer { counter: 0, control: 0, reload: (-1) as i32 }
    }

    pub(crate) fn three_idle() -> (r: [Timer; 3])
        ensures
            r@ == Seq::new(3, |i: int| Timer::idle()),
    {
        let timer = Timer { counter: 0, control: 0, reload: -1 };
        let r: [Timer; 3] = [timer, timer, timer];
        assert(r@ =~= Seq::new(3, |i: int| Timer::idle()));
        r
    }

    /// The timer after its register was written.
    pub open spec fn written(reg: u16, counter: u8) -> Timer {
        Timer { counter, control: ((reg >> 8) & 7) as u8, reload: (reg & 0xFF) as i32 }
    }

    /// The timer after a clock.
    pub open spec fn clocked(self) -> Timer {
        if self.reload >= 0 {
            Timer { counter: self.reload as u8, reload: (-1) as i32, ..self }
        } else {
            Timer { counter: self.counter.wrapping_add(1), ..self }
        }
    }

    /// Whether sample `sc` clocks the timer.
    pub open spec fn is_clocked_by(self, sc: u64) -> bool {
        sc & (((1u64 << self.control) - 1) as u64) == 0
    }

    /// Whether sample `sc` makes the timer reach 255.
    pub open spec fn fires_on(self, sc: u64) -> bool {
        self.is_clocked_by(sc) && self.clocked().counter == 0xFF
    }

    pub(crate) fn write(&mut self, reg: u16)
        ensures
            *final(self) == Timer::written(reg, old(self).counter),
            final(self).control <= 7,
    {
        proof {
            masks_bound();
        }
        self.control = ((reg >> 8) & 7) as u8;
        self.reload = (reg & 0xFF) as i32;
    }

    pub(crate) fn clock(&mut self) -> (r: bool)
        ensures
            *final(self) == old(self).clocked(),
            r == (final(self).counter == 0xFF),
    {
        if self.reload >= 0 {
            self.counter = self.reload as u8;
            self.reload = -1;
        } else {
            self.counter = self.counter.wrapping_add(1);
        }
        self.counter == 0xFF
    }

    pub(crate) fn is_clocked(&self, sc: u64) -> (r: bool)
        requires
            self.control <= 7,
        ensures
            r == self.is_clocked_by(sc),
    {
        let c: u8 = self.control;
        assert(c <= 7 ==> 1u64 << c >= 1) by (bit_vector);
        sc & ((1u64 << self.control) - 1) == 0
    }
}

} // verus!
