//! Pacing of single steps against wall-clock time. The host reads the time
//! and sleeps; the clock decides how long.
use vstd::prelude::*;

verus! {

pub const ONE_SECOND_IN_MICROSECONDS: u64 = 1_000_000;

/// Paces instructions at a set rate. Within each run of one second's worth
/// of instructions it measures from a start time; once a run completes, the
/// next is measured from where this one ended.
pub struct Clock {
    cycle_count: u64,
    instructions_per_second: u64,
    time_per_instruction_microseconds: u64,
    start_time: Option<u64>,
}

impl Clock {
    /// Instructions counted in the current run.
    pub closed spec fn cycles(&self) -> u64 {
        self.cycle_count
    }

    /// The rate in instructions per second.
    pub closed spec fn rate(&self) -> u64 {
        self.instructions_per_second
    }

    /// The time one instruction is given, in microseconds.
    pub closed spec fn time_per_instruction(&self) -> u64 {
        self.time_per_instruction_microseconds
    }

    /// When the current run started, in microseconds, once started.
    pub closed spec fn start_time(&self) -> Option<u64> {
        self.start_time
    }

    /// The rate is at least one instruction per second, the time per
    /// instruction goes with it, and the count can go on.
    pub open spec fn wf(&self) -> bool {
        &&& 1 <= self.rate()
        &&& self.time_per_instruction() == ONE_SECOND_IN_MICROSECONDS / self.rate()
        &&& self.cycles() < u64::MAX
    }

    /// A stopped clock at `instructions_per_second`.
    pub fn new(instructions_per_second: u64) -> (r: Self)
        requires
            1 <= instructions_per_second,
        ensures
            r.wf(),
            r.cycles() == 0,
            r.rate() == instructions_per_second,
            r.start_time() is None,
    {
        Self {
            cycle_count: 0,
            instructions_per_second,
            time_per_instruction_microseconds: ONE_SECOND_IN_MICROSECONDS / instructions_per_second,
            start_time: None,
        }
    }

    /// Starts a run at time `now`, in microseconds.
    pub fn start(&mut self, now: u64)
        requires
            old(self).wf(),
        ensures
            final(self).wf(),
            final(self).start_time() == Some(now),
            final(self).cycles() == 0,
            final(self).rate() == old(self).rate(),
    {
        self.start_time = Some(now);
        self.cycle_count = 0;
    }

    /// Sets the rate, and with it the time one instruction is given.
    pub fn set_speed(&mut self, instructions_per_second: u64)
        requires
            old(self).wf(),
            1 <= instructions_per_second,
        ensures
            final(self).wf(),
            final(self).rate() == instructions_per_second,
            final(self).cycles() == old(self).cycles(),
            final(self).start_time() == old(self).start_time(),
    {
        self.instructions_per_second = instructions_per_second;
        self.time_per_instruction_microseconds = ONE_SECOND_IN_MICROSECONDS
            / instructions_per_second;
    }

    /// Counts one instruction done at time `now` and returns how long to
    /// sleep, in microseconds, so that the run keeps to the rate: the time
    /// the run should have taken so far, less the time it took, or zero if
    /// it is late (at most `u64::MAX`). A run that reaches the rate ends, and
    /// the next starts when the sleep is over.
    pub fn tick(&mut self, now: u64) -> (sleep: u64)
        requires
            old(self).wf(),
            old(self).start_time() is Some,
            now >= old(self).start_time()->Some_0,
        ensures
            final(self).wf(),
            final(self).rate() == old(self).rate(),
            ({
                let count = old(self).cycles() + 1;
                let expected = count * old(self).time_per_instruction();
                let actual = now - old(self).start_time()->Some_0;
                &&& sleep == if expected <= actual {
                    0
                } else if expected - actual > u64::MAX {
                    u64::MAX as int
                } else {
                    expected - actual
                }
                &&& count >= old(self).rate() ==> final(self).cycles() == 0
                    && final(self).start_time() == Some(
                    if now + sleep > u64::MAX {
                        u64::MAX
                    } else {
                        (now + sleep) as u64
                    },
                )
                &&& count < old(self).rate() ==> final(self).cycles() == count
                    && final(self).start_time() == old(self).start_time()
            }),
    {
        self.cycle_count = self.cycle_count + 1;
        let start = match self.start_time {
            Some(start) => start,
            None => now,
        };
        let actual_elapsed = (now - start) as u128;
        let count = self.cycle_count as u128;
        let per_instruction = self.time_per_instruction_microseconds as u128;
        assert(count * per_instruction <= 0xffff_ffff_ffff_ffff * 1_000_000) by (nonlinear_arith)
            requires
                count <= 0xffff_ffff_ffff_ffff,
                per_instruction <= 1_000_000,
        ;
        let expected_elapsed = count * per_instruction;
        let sleep = if expected_elapsed <= actual_elapsed {
            0
        } else if expected_elapsed - actual_elapsed > u64::MAX as u128 {
            u64::MAX
        } else {
            (expected_elapsed - actual_elapsed) as u64
        };
        if self.cycle_count >= self.instructions_per_second {
            self.start_time = Some(now.saturating_add(sleep));
            self.cycle_count = 0;
        }
        sleep
    }
}

} // verus!
