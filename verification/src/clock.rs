//! The fixed-timestep accumulator that decouples the simulation rate from
//! the frame rate.
//!
//! Elapsed wall time is poured into an accumulator; whole steps are drained
//! from it one tick at a time, and whatever remains determines the
//! interpolation alpha used to blend the previous and current states for
//! rendering. Time is carried in abstract integer units chosen by the
//! caller (the driver uses microseconds).

use vstd::prelude::*;

verus! {

/// Largest accumulator value the clock accepts, comfortably more than any
/// realistic frame time.
pub const MAX_TIME: u64 = 0x1000_0000_0000_0000;

pub struct PhysicsClock {
    /// Unconsumed elapsed time.
    pub accumulator: u64,
    /// Duration of one simulation step.
    pub step_size: u64,
}

impl PhysicsClock {
    pub open spec fn inv(self) -> bool {
        &&& 0 < self.step_size <= MAX_TIME
        &&& self.accumulator <= MAX_TIME
    }

    /// A clock with an empty accumulator.
    pub fn new(step_size: u64) -> (r: PhysicsClock)
        requires
            0 < step_size <= MAX_TIME,
        ensures
            r.inv(),
            r.step_size == step_size,
            r.accumulator == 0,
    {
        PhysicsClock { accumulator: 0, step_size }
    }

    /// Pour one frame's elapsed time into the accumulator.
    pub fn add_elapsed(&mut self, elapsed: u64)
        requires
            old(self).inv(),
            elapsed <= MAX_TIME,
            old(self).accumulator + elapsed <= MAX_TIME,
        ensures
            final(self).inv(),
            final(self).accumulator == old(self).accumulator + elapsed,
            final(self).step_size == old(self).step_size,
    {
        self.accumulator = self.accumulator + elapsed;
    }

    /// Whether a whole step is pending.
    pub fn has_pending_step(&self) -> (r: bool)
        ensures
            r == (self.accumulator >= self.step_size),
    {
        self.accumulator >= self.step_size
    }

    /// Drain one whole step from the accumulator; the caller runs one full
    /// simulation tick for it.
    pub fn consume_step(&mut self)
        requires
            old(self).inv(),
            old(self).accumulator >= old(self).step_size,
        ensures
            final(self).inv(),
            final(self).accumulator == old(self).accumulator - old(self).step_size,
            final(self).step_size == old(self).step_size,
    {
        self.accumulator = self.accumulator - self.step_size;
    }

    /// The number of whole steps a frame of `elapsed` time will yield once
    /// poured in: the quotient of the filled accumulator by the step.
    pub open spec fn spec_pending_steps(self, elapsed: int) -> int {
        (self.accumulator + elapsed) / (self.step_size as int)
    }

    /// The interpolation alpha in thousandths: the fraction of a step left
    /// in the accumulator, clamped to `[0, 1000]`; a disabled interpolation
    /// always blends fully forward.
    pub fn alpha_milli(&self, interpolation_enabled: bool) -> (r: i64)
        requires
            self.inv(),
        ensures
            interpolation_enabled ==> r == spec_min_int(
                self.accumulator as int * 1000 / (self.step_size as int), 1000),
            !interpolation_enabled ==> r == 1000,
            0 <= r <= 1000,
    {
        if !interpolation_enabled {
            return 1000;
        }
        let scaled = (self.accumulator as u128) * 1000 / (self.step_size as u128);
        proof {
            vstd::arithmetic::div_mod::lemma_div_pos_is_pos(self.accumulator as int * 1000,
                self.step_size as int);
        }
        if scaled >= 1000 {
            1000
        } else {
            scaled as i64
        }
    }
}

pub open spec fn spec_min_int(a: int, b: int) -> int {
    if a <= b {
        a
    } else {
        b
    }
}

} // verus!
