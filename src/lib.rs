//! A virtual machine for the CHIP-8 byte-code architecture: memory, registers,
//! a return stack, a monochrome frame, a 16-key pad and two 60 Hz timers,
//! driven one cycle at a time or by elapsed time.
use vstd::prelude::*;


pub mod clock;
pub mod cpu;
pub mod display;

pub mod frame;
pub mod keypad;
pub mod laws;

pub mod memory;
pub mod registers;

pub mod sprite;
pub mod utils;

pub use cpu::registers::Registers;
pub use cpu::{CpuView, Fault};
pub use frame::FrameBuffer;
pub use keypad::{Key, KeyState};
pub use memory::OutOfBounds;
pub use sprite::{FRAME_HEIGHT, FRAME_WIDTH};
use cpu::{Cpu, ONE_SECOND_IN_MICRO_SECONDS};
use keypad::key_index;

verus! {

/// The virtual machine.
pub struct Chip8 {
    cpu: Cpu,
}

impl Chip8 {
    /// Whether the machine is in a state its operations accept; every
    /// machine that `new` builds is, and every operation keeps it so.
    pub closed spec fn wf(&self) -> bool {
        self.cpu.wf()
    }

    /// The machine's state.
    pub closed spec fn view(&self) -> CpuView {
        self.cpu@
    }

    /// A machine at power-on, at the default rate. The random generator is
    /// seeded with `seed`, so that runs can be repeated.
    pub fn new(seed: u32) -> (r: Self)
        ensures
            r.wf(),
            r@ == cpu::power_on(
                cpu::DEFAULT_INSTRUCTIONS_PER_SECOND,
                Seq::new(keypad::KEY_COUNT as nat, |_k: int| KeyState::Idle),
            ),
    {
        Self { cpu: Cpu::new(seed) }
    }

    /// The width of the frame in pixels.
    pub fn frame_width(&self) -> (r: u32)
        ensures
            r == FRAME_WIDTH,
    {
        FRAME_WIDTH as u32
    }

    /// The height of the frame in pixels.
    pub fn frame_height(&self) -> (r: u32)
        ensures
            r == FRAME_HEIGHT,
    {
        FRAME_HEIGHT as u32
    }

    /// The speed in instructions per second.
    pub fn speed(&self) -> (r: u32)
        ensures
            r == self@.instructions_per_second,
    {
        self.cpu.speed()
    }

    /// Sets the speed in instructions per second, between one and a million.
    pub fn set_speed(&mut self, instructions_per_second: u32)
        requires
            old(self).wf(),
            1 <= instructions_per_second <= ONE_SECOND_IN_MICRO_SECONDS,
        ensures
            final(self).wf(),
            final(self)@ == (CpuView {
                instructions_per_second,
                micro_seconds_per_instruction: (ONE_SECOND_IN_MICRO_SECONDS
                    / instructions_per_second) as u32,
                ..old(self)@
            }),
    {
        self.cpu.set_speed(instructions_per_second);
    }

    /// Loads a program at the program offset; fails if it does not fit in memory.
    pub fn load(&mut self, bytes: &[u8]) -> (r: Result<(), OutOfBounds>)
        requires
            old(self).wf(),
        ensures
            final(self).wf(),
            memory::in_bounds(cpu::PROGRAM_START as int, bytes@.len() as int) ==> r is Ok
                && final(self)@ == (CpuView {
                ram: memory::written(old(self)@.ram, cpu::PROGRAM_START as int, bytes@),
                ..old(self)@
            }),
            !memory::in_bounds(cpu::PROGRAM_START as int, bytes@.len() as int) ==> r == Err::<
                (),
                OutOfBounds,
            >(OutOfBounds { offset: cpu::PROGRAM_START, length: bytes@.len() as usize })
                && final(self)@ == old(self)@,
    {
        self.cpu.load_program(bytes)
    }

    /// Advances the machine by `time_delta` microseconds, carrying over time
    /// that does not pay for a whole cycle. Stops at the first fault.
    pub fn update(&mut self, time_delta: u32) -> (r: Result<(), Fault>)
        requires
            old(self).wf(),
        ensures
            final(self).wf(),
            exists|randoms: Seq<u8>| #[trigger]
                cpu::update_outcome(old(self)@, time_delta, randoms, r, final(self)@),
    {
        let ghost before = self@;
        let r = self.cpu.update(time_delta);
        proof {
            let w = choose|w: Seq<u8>| #[trigger]
                cpu::update_outcome(before, time_delta, w, r, self.cpu@);
            assert(cpu::update_outcome(before, time_delta, w, r, self@));
        }
        r
    }

    /// Runs one cycle; on a fault nothing changes.
    pub fn step(&mut self) -> (r: Result<(), Fault>)
        requires
            old(self).wf(),
        ensures
            final(self).wf(),
            exists|random: u8|
                #[trigger] cpu::step_spec(old(self)@, random) == match r {
                    Ok(_) => Ok::<CpuView, Fault>(final(self)@),
                    Err(e) => Err::<CpuView, Fault>(e),
                },
            r is Err ==> final(self)@ == old(self)@,
    {
        let ghost before = self@;
        let r = self.cpu.step();
        proof {
            let w = choose|w: u8|
                #[trigger] cpu::step_spec(before, w) == match r {
                    Ok(_) => Ok::<CpuView, Fault>(self.cpu@),
                    Err(e) => Err::<CpuView, Fault>(e),
                };
            assert(cpu::step_spec(before, w) == match r {
                Ok(_) => Ok::<CpuView, Fault>(self@),
                Err(e) => Err::<CpuView, Fault>(e),
            });
        }
        r
    }

    /// A copy of the frame.
    pub fn frame(&self) -> (r: FrameBuffer)
        requires
            self.wf(),
        ensures
            r.wf(),
            r.pixels() == self@.frame,
    {
        self.cpu.frame().snapshot()
    }

    /// A copy of the registers.
    pub fn registers(&self) -> (r: Registers)
        ensures
            r.v@ == self@.v,
            r.i == self@.i,
            r.pc == self@.pc,
            r.sp == self@.sp,
            r.dt == self@.dt,
            r.st == self@.st,
    {
        self.cpu.registers()
    }

    /// Replaces the registers.
    pub fn set_registers(&mut self, registers: Registers)
        requires
            old(self).wf(),
        ensures
            final(self).wf(),
            final(self)@ == (CpuView {
                v: registers.v@,
                i: registers.i,
                pc: registers.pc,
                sp: registers.sp,
                dt: registers.dt,
                st: registers.st,
                ..old(self)@
            }),
    {
        self.cpu.set_registers(registers);
    }

    /// Passes a key event to the machine.
    pub fn handle_key_event(&mut self, key: Key, state: KeyState)
        requires
            old(self).wf(),
        ensures
            final(self).wf(),
            final(self)@ == (CpuView {
                keys: old(self)@.keys.update(key_index(key) as int, state),
                ..old(self)@
            }),
    {
        self.cpu.handle_key_event(key, state);
    }

    /// Back to power-on: registers, stack, timers and memory cleared, the
    /// font reloaded, the frame dark; a program must be loaded again. The
    /// speed, the key pad and the random generator are kept.
    pub fn reset(&mut self)
        requires
            old(self).wf(),
        ensures
            final(self).wf(),
            final(self)@ == cpu::power_on(old(self)@.instructions_per_second, old(self)@.keys),
            final(self)@.micro_seconds_per_instruction == old(self)@.micro_seconds_per_instruction,
    {
        self.cpu.reset();
    }
}

} // verus!
