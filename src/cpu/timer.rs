//! A countdown timer paced by instruction cycles: it counts the cycles of a
//! processor running at a given speed and reports when a 60 Hz period has
//! passed, and by how much to count down.
use vstd::prelude::*;

verus! {

/// Decrements per second.
pub const TIMER_FREQUENCY: u64 = 60;

/// A timer paced at 60 Hz by a processor of `cpu_speed` cycles per second.
/// The `k`-th decrement falls due at the first cycle `c` with
/// `c * 60 >= cpu_speed * k`.
pub struct Timer {
    is_active: bool,
    cpu_speed: u64,
    cycle_count: u64,
    decrement_count: u64,
    should_decrease: bool,
}

/// How much to count down per decrement: one when a period spans at least
/// one cycle, more when the processor is slower than 60 cycles per second
/// (`ceil(60 / cpu_speed)`).
pub open spec fn step_size(cpu_speed: u64) -> u8 {
    ((TIMER_FREQUENCY + cpu_speed - 1) / cpu_speed as int) as u8
}

impl Timer {
    pub closed spec fn active(&self) -> bool {
        self.is_active
    }

    pub closed spec fn speed(&self) -> u64 {
        self.cpu_speed
    }

    pub closed spec fn cycles(&self) -> u64 {
        self.cycle_count
    }

    pub closed spec fn decrements(&self) -> u64 {
        self.decrement_count
    }

    /// Whether the last cycle completed a period.
    pub closed spec fn due(&self) -> bool {
        self.should_decrease
    }

    /// A stopped timer for a processor of `cpu_speed` cycles per second.
    pub fn new(cpu_speed: u64) -> (r: Self)
        requires
            cpu_speed >= 1,
        ensures
            !r.active(),
            r.speed() == cpu_speed,
            r.cycles() == 0,
            r.decrements() == 0,
            !r.due(),
    {
        Self {
            is_active: false,
            cpu_speed,
            cycle_count: 0,
            decrement_count: 0,
            should_decrease: false,
        }
    }

    /// Starts counting from zero.
    pub fn start(&mut self)
        ensures
            final(self).active(),
            final(self).speed() == old(self).speed(),
            final(self).cycles() == 0,
            final(self).decrements() == 0,
            !final(self).due(),
    {
        self.cycle_count = 0;
        self.decrement_count = 0;
        self.is_active = true;
        self.should_decrease = false;
    }

    /// Sets the processor speed that paces the timer.
    pub fn set_speed(&mut self, cpu_speed: u64)
        requires
            cpu_speed >= 1,
        ensures
            final(self).speed() == cpu_speed,
            final(self).active() == old(self).active(),
            final(self).cycles() == old(self).cycles(),
            final(self).decrements() == old(self).decrements(),
            final(self).due() == old(self).due(),
    {
        self.cpu_speed = cpu_speed;
    }

    /// How much to count down after the last cycle: `step_size` when a
    /// period was completed, else zero.
    pub fn decrease_by(&self) -> (r: u8)
        requires
            self.speed() >= 1,
        ensures
            r == if self.due() {
                step_size(self.speed())
            } else {
                0
            },
    {
        if self.should_decrease {
            assert((TIMER_FREQUENCY + self.cpu_speed - 1) / self.cpu_speed as int <= 60)
                by (nonlinear_arith)
                requires
                    self.cpu_speed >= 1,
            ;
            ((TIMER_FREQUENCY as u128 + self.cpu_speed as u128 - 1) / self.cpu_speed as u128) as u8
        } else {
            0
        }
    }

    /// Counts one cycle of an active timer and notes whether the next
    /// decrement fell due; a stopped timer does nothing.
    pub fn tick(&mut self)
        ensures
            !old(self).active() ==> *final(self) == *old(self),
            old(self).active() ==> {
                let c = if old(self).cycles() == u64::MAX {
                    u64::MAX as int
                } else {
                    old(self).cycles() + 1
                };
                let due = c * TIMER_FREQUENCY >= old(self).speed() * (old(self).decrements() + 1);
                &&& final(self).active()
                &&& final(self).speed() == old(self).speed()
                &&& final(self).cycles() == c
                &&& final(self).due() == due
                &&& final(self).decrements() == if due && old(self).decrements() < u64::MAX {
                    old(self).decrements() + 1
                } else {
                    old(self).decrements() as int
                }
            },
    {
        if !self.is_active {
            return;
        }
        self.should_decrease = false;
        self.cycle_count = self.cycle_count.saturating_add(1);
        let speed = self.cpu_speed as u128;
        let next = self.decrement_count as u128 + 1;
        let cycles = self.cycle_count as u128;
        assert(speed * next <= 0xffff_ffff_ffff_ffff_0000_0000_0000_0000 && cycles * 60 <= 0xffff_ffff_ffff_ffff_0000_0000_0000_0000) by (nonlinear_arith)
            requires
                speed <= 0xffff_ffff_ffff_ffff,
                next <= 0x1_0000_0000_0000_0000,
                cycles <= 0xffff_ffff_ffff_ffff,
        ;
        let count_threshold = speed * next;
        if cycles * TIMER_FREQUENCY as u128 >= count_threshold {
            self.decrement_count = self.decrement_count.saturating_add(1);
            self.should_decrease = true;
        }
    }

    /// Stops the timer.
    pub fn stop(&mut self)
        ensures
            !final(self).active(),
            final(self).speed() == old(self).speed(),
            final(self).cycles() == old(self).cycles(),
            final(self).decrements() == old(self).decrements(),
            final(self).due() == old(self).due(),
    {
        self.is_active = false;
    }
}

} // verus!
