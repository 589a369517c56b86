//! The processor: decode, execute, and the timing of cycles and timers.
use vstd::prelude::*;
use nanorand::rand::wyrand::WyRand;
use nanorand::Rng;
use crate::frame::FrameBuffer;
use crate::keypad::{key_index, without_released, Key, KeyPad, KeyState, KEY_COUNT};
use crate::memory::{in_bounds, written, Memory, OutOfBounds, MEMORY_SIZE};
use crate::sprite::{collides, drawn, FRAME_SIZE};
use font::{font, glyphs, FONT_CHAR_SIZE};
use instructions::{decode, lemma_decode_operands, operands_in_range, Instruction, InvalidOpcode};
use registers::Registers;

pub mod font;
pub mod instructions;
pub mod registers;
pub mod timer;

verus! {

/// Depth of the return-address stack.
pub const STACK_SIZE: usize = 16;

/// Width in bytes of one instruction.
pub const OPCODE_SIZE: u16 = 2;

/// Address of the glyph table.
pub const FONT_START_OFFSET: usize = 0;

pub const ONE_SECOND_IN_MICRO_SECONDS: u32 = 1_000_000;

/// Instruction rate of a new machine.
pub const DEFAULT_INSTRUCTIONS_PER_SECOND: u32 = 700;

/// Rate at which the timers count down, per second.
pub const TIMER_FREQUENCY: u32 = 60;

/// Address at which programs are loaded.
pub const PROGRAM_START: usize = 0x200;

/// Index of the flag register.
pub const FLAG: usize = 15;

/// nanorand's `WyRand` generator, carried through opaque.
#[verifier::external_type_specification]
#[verifier::external_body]
pub struct ExWyRand(WyRand);

/// Relies on nanorand's `WyRand::new_seed`, which builds a generator from `seed`.
#[verifier::external_body]
fn seeded_generator(seed: u64) -> WyRand {
    WyRand::new_seed(seed)
}

/// Relies on nanorand's `Rng::generate::<u8>`; any byte may come back.
#[verifier::external_body]
fn random_byte(rng: &mut WyRand) -> u8 {
    rng.generate::<u8>()
}

/// A condition that stops the program.
#[derive(Clone, Copy, Debug, PartialEq, Eq, Structural)]
pub enum Fault {
    /// The word at the program counter encodes no instruction.
    InvalidOpcode(InvalidOpcode),
    /// An access ran past the end of memory.
    MemoryFault(OutOfBounds),
    /// A call with the stack full, or a return with the stack pointer past its end.
    StackOverflow,
    /// A return with the stack empty.
    StackUnderflow,
}

/// What becomes of the program counter after an instruction.
#[derive(Clone, Copy, Debug, PartialEq, Eq, Structural)]
pub enum ProgramCounterStatus {
    /// Stay on this instruction and run it again next cycle.
    Repeat,
    /// Go on to the next instruction.
    Next,
    /// Skip the next instruction.
    Skip,
    /// Go to the given address.
    Jump(u16),
}

/// Which of the two countdown timers.
pub enum Timer {
    Delay,
    Sound,
}

/// The state of the processor as the contracts see it.
#[verifier::ext_equal]
pub struct CpuView {
    pub v: Seq<u8>,
    pub i: u16,
    pub pc: u16,
    pub sp: u8,
    pub dt: u8,
    pub st: u8,
    pub stack: Seq<u16>,
    pub ram: Seq<u8>,
    pub frame: Seq<bool>,
    pub keys: Seq<KeyState>,
    /// Time carried over towards the next instruction cycle, in microseconds.
    pub cycle_acc: u32,
    /// Time carried over towards the next delay-timer decrement.
    pub dt_acc: u32,
    /// Time carried over towards the next sound-timer decrement.
    pub st_acc: u32,
    pub instructions_per_second: u32,
    pub micro_seconds_per_instruction: u32,
}

/// 1 for `true`, 0 for `false`.
pub open spec fn flag_of(b: bool) -> u8 {
    if b {
        1
    } else {
        0
    }
}

/// Skip when `c` holds, else go on.
pub open spec fn skip_if(c: bool) -> ProgramCounterStatus {
    if c {
        ProgramCounterStatus::Skip
    } else {
        ProgramCounterStatus::Next
    }
}

/// Whether `value` names a key that is held down.
pub open spec fn key_pressed(keys: Seq<KeyState>, value: u8) -> bool {
    value < KEY_COUNT && keys[value as int] == KeyState::Pressed
}

/// Whether some key shows the released edge.
pub open spec fn any_released(keys: Seq<KeyState>) -> bool {
    exists|k: int| 0 <= k < KEY_COUNT && keys[k] == KeyState::Released
}

/// Whether `k` is the first key that shows the released edge.
pub open spec fn is_first_released(keys: Seq<KeyState>, k: int) -> bool {
    &&& 0 <= k < KEY_COUNT
    &&& keys[k] == KeyState::Released
    &&& forall|j: int| 0 <= j < k ==> keys[j] != KeyState::Released
}

/// The first key that shows the released edge, when there is one.
pub open spec fn first_released(keys: Seq<KeyState>) -> int {
    choose|k: int| is_first_released(keys, k)
}

/// The hundreds, tens and units digits of `value`.
pub open spec fn bcd(value: u8) -> Seq<u8> {
    seq![(value / 100) as u8, ((value / 10) % 10) as u8, (value % 10) as u8]
}

/// `s` with register `x` set to `value`.
pub open spec fn with_v(s: CpuView, x: int, value: u8) -> CpuView {
    CpuView { v: s.v.update(x, value), ..s }
}

/// `s` with register `x` set to `value` and then the flag to `flag`.
pub open spec fn with_v_flag(s: CpuView, x: int, value: u8, flag: u8) -> CpuView {
    CpuView { v: s.v.update(x, value).update(FLAG as int, flag), ..s }
}

/// The bounds fault for `length` bytes at `offset`.
pub open spec fn memory_fault(offset: int, length: int) -> Fault {
    Fault::MemoryFault(OutOfBounds { offset: offset as usize, length: length as usize })
}

/// The effect of one instruction on `s`, with `random` the byte drawn for
/// the random instruction; an error leaves the state as it was.
pub open spec fn execute_spec(s: CpuView, instruction: Instruction, random: u8) -> Result<
    (CpuView, ProgramCounterStatus),
    Fault,
> {
    let v = s.v;
    let next = ProgramCounterStatus::Next;
    match instruction {
        Instruction::OpCode00E0 => Ok(
            (CpuView { frame: Seq::new(FRAME_SIZE as nat, |_p: int| false), ..s }, next),
        ),
        Instruction::OpCode00EE => if s.sp == 0 {
            Err(Fault::StackUnderflow)
        } else if s.sp > STACK_SIZE {
            Err(Fault::StackOverflow)
        } else {
            Ok((CpuView { sp: (s.sp - 1) as u8, pc: s.stack[s.sp - 1], ..s }, next))
        },
        Instruction::OpCode1NNN(nnn) => Ok((s, ProgramCounterStatus::Jump(nnn))),
        Instruction::OpCode2NNN(nnn) => if s.sp >= STACK_SIZE {
            Err(Fault::StackOverflow)
        } else {
            Ok(
                (
                    CpuView { stack: s.stack.update(s.sp as int, s.pc), sp: (s.sp + 1) as u8, ..s },
                    ProgramCounterStatus::Jump(nnn),
                ),
            )
        },
        Instruction::OpCode3XNN(x, nn) => Ok((s, skip_if(v[x as int] == nn))),
        Instruction::OpCode4XNN(x, nn) => Ok((s, skip_if(v[x as int] != nn))),
        Instruction::OpCode5XY0(x, y) => Ok((s, skip_if(v[x as int] == v[y as int]))),
        Instruction::OpCode6XNN(x, nn) => Ok((with_v(s, x as int, nn), next)),
        Instruction::OpCode7XNN(x, nn) => Ok(
            (with_v(s, x as int, ((v[x as int] + nn) % 256) as u8), next),
        ),
        Instruction::OpCode8XY0(x, y) => Ok((with_v(s, x as int, v[y as int]), next)),
        Instruction::OpCode8XY1(x, y) => Ok((with_v(s, x as int, v[x as int] | v[y as int]), next)),
        Instruction::OpCode8XY2(x, y) => Ok((with_v(s, x as int, v[x as int] & v[y as int]), next)),
        Instruction::OpCode8XY3(x, y) => Ok((with_v(s, x as int, v[x as int] ^ v[y as int]), next)),
        Instruction::OpCode8XY4(x, y) => {
            let sum = v[x as int] + v[y as int];
            Ok((with_v_flag(s, x as int, (sum % 256) as u8, flag_of(sum > 255)), next))
        },
        Instruction::OpCode8XY5(x, y) => {
            let diff = v[x as int] - v[y as int];
            Ok((with_v_flag(s, x as int, (diff % 256) as u8, flag_of(diff >= 0)), next))
        },
        Instruction::OpCode8XY6(x, y) => Ok(
            (with_v_flag(s, x as int, v[y as int] / 2, v[y as int] % 2), next),
        ),
        Instruction::OpCode8XY7(x, y) => {
            let diff = v[y as int] - v[x as int];
            Ok((with_v_flag(s, x as int, (diff % 256) as u8, flag_of(diff >= 0)), next))
        },
        Instruction::OpCode8XYE(x, y) => Ok(
            (with_v_flag(s, x as int, ((v[y as int] * 2) % 256) as u8, v[y as int] / 128), next),
        ),
        Instruction::OpCode9XY0(x, y) => Ok((s, skip_if(v[x as int] != v[y as int]))),
        Instruction::OpCodeANNN(nnn) => Ok((CpuView { i: nnn, ..s }, next)),
        Instruction::OpCodeBNNN(nnn) => Ok((s, ProgramCounterStatus::Jump((nnn + v[0]) as u16))),
        Instruction::OpCodeCXNN(x, nn) => Ok((with_v(s, x as int, random & nn), next)),
        Instruction::OpCodeDXYN(x, y, n) => if !in_bounds(s.i as int, n as int) {
            Err(memory_fault(s.i as int, n as int))
        } else {
            let sprite = s.ram.subrange(s.i as int, s.i + n);
            Ok(
                (
                    CpuView {
                        frame: drawn(s.frame, sprite, v[x as int] as int, v[y as int] as int),
                        v: v.update(
                            FLAG as int,
                            flag_of(collides(s.frame, sprite, v[x as int] as int, v[y as int] as int)),
                        ),
                        ..s
                    },
                    next,
                ),
            )
        },
        Instruction::OpCodeEX9E(x) => Ok((s, skip_if(key_pressed(s.keys, v[x as int])))),
        Instruction::OpCodeEXA1(x) => Ok((s, skip_if(!key_pressed(s.keys, v[x as int])))),
        Instruction::OpCodeFX07(x) => Ok((with_v(s, x as int, s.dt), next)),
        Instruction::OpCodeFX0A(x) => if any_released(s.keys) {
            Ok((with_v(s, x as int, first_released(s.keys) as u8), next))
        } else {
            Ok((s, ProgramCounterStatus::Repeat))
        },
        Instruction::OpCodeFX15(x) => Ok((CpuView { dt: v[x as int], ..s }, next)),
        Instruction::OpCodeFX18(x) => Ok((CpuView { st: v[x as int], ..s }, next)),
        Instruction::OpCodeFX1E(x) => Ok((CpuView { i: ((s.i + v[x as int]) % 65536) as u16, ..s }, next)),
        Instruction::OpCodeFX29(x) => Ok(
            (CpuView { i: (FONT_START_OFFSET + (v[x as int] % 16) * FONT_CHAR_SIZE) as u16, ..s }, next),
        ),
        Instruction::OpCodeFX33(x) => if !in_bounds(s.i as int, 3) {
            Err(memory_fault(s.i as int, 3))
        } else {
            Ok((CpuView { ram: written(s.ram, s.i as int, bcd(v[x as int])), ..s }, next))
        },
        Instruction::OpCodeFX55(x) => if !in_bounds(s.i as int, x + 1) {
            Err(memory_fault(s.i as int, x + 1))
        } else {
            Ok((CpuView { ram: written(s.ram, s.i as int, v.subrange(0, x + 1)), ..s }, next))
        },
        Instruction::OpCodeFX65(x) => if !in_bounds(s.i as int, x + 1) {
            Err(memory_fault(s.i as int, x + 1))
        } else {
            Ok(
                (
                    CpuView {
                        v: s.ram.subrange(s.i as int, s.i + x + 1) + v.subrange(x + 1, v.len() as int),
                        ..s
                    },
                    next,
                ),
            )
        },
    }
}

/// The opcode stored big-endian at `pc`.
pub open spec fn opcode_at(ram: Seq<u8>, pc: int) -> u16 {
    (ram[pc] * 256 + ram[pc + 1]) as u16
}

/// The program counter after an instruction that returned `status`.
pub open spec fn advance_pc(pc: u16, status: ProgramCounterStatus) -> u16 {
    match status {
        ProgramCounterStatus::Repeat => pc,
        ProgramCounterStatus::Next => ((pc + OPCODE_SIZE) % 65536) as u16,
        ProgramCounterStatus::Skip => ((pc + 2 * OPCODE_SIZE) % 65536) as u16,
        ProgramCounterStatus::Jump(address) => address,
    }
}

/// One instruction's worth of decay of a timer, at `instructions_per_second`:
/// the register and its accumulator afterwards. The accumulator measures
/// time exactly, in units of `1 / (60 * instructions_per_second)` seconds, so
/// that one instruction takes 60 units and one 60 Hz period takes
/// `instructions_per_second` units. A running timer counts down by one each
/// time the accumulated time reaches a period, keeping the rest; a stopped
/// one holds its accumulator at zero.
pub open spec fn timer_step(register: u8, accumulator: u32, instructions_per_second: u32) -> (
    u8,
    u32,
) {
    if register > 0 {
        let total = if accumulator + TIMER_FREQUENCY > u32::MAX {
            u32::MAX as int
        } else {
            accumulator + TIMER_FREQUENCY
        };
        if total >= instructions_per_second {
            ((register - 1) as u8, (total - instructions_per_second) as u32)
        } else {
            (register, total as u32)
        }
    } else {
        (register, 0)
    }
}

/// What follows an executed instruction within a cycle: the program counter
/// moves, both timers decay, and released edges are cleared.
pub open spec fn finish_cycle(s: CpuView, status: ProgramCounterStatus) -> CpuView {
    let (dt, dt_acc) = timer_step(s.dt, s.dt_acc, s.instructions_per_second);
    let (st, st_acc) = timer_step(s.st, s.st_acc, s.instructions_per_second);
    CpuView {
        pc: advance_pc(s.pc, status),
        dt,
        dt_acc,
        st,
        st_acc,
        keys: without_released(s.keys),
        ..s
    }
}

/// One full cycle from `s`: fetch, decode, execute, then `finish_cycle`.
#[verifier::opaque]
pub open spec fn step_spec(s: CpuView, random: u8) -> Result<CpuView, Fault> {
    if !in_bounds(s.pc as int, 2) {
        Err(memory_fault(s.pc as int, 2))
    } else {
        match decode(opcode_at(s.ram, s.pc as int)) {
            Err(e) => Err(Fault::InvalidOpcode(e)),
            Ok(instruction) => match execute_spec(s, instruction, random) {
                Err(e) => Err(e),
                Ok((t, status)) => Ok(finish_cycle(t, status)),
            },
        }
    }
}

/// Cycles from `s`, one per byte of `randoms`, stopping at the first fault:
/// the state reached and whether a fault stopped it.
pub open spec fn run(s: CpuView, randoms: Seq<u8>) -> (CpuView, Result<(), Fault>)
    decreases randoms.len(),
{
    if randoms.len() == 0 {
        (s, Ok(()))
    } else {
        match step_spec(s, randoms[0]) {
            Ok(t) => run(t, randoms.drop_first()),
            Err(e) => (s, Err(e)),
        }
    }
}

/// Whether `t` and `r` are what advancing `s` by `time_delta` microseconds
/// gives when the cycles draw the bytes `randoms`: as many cycles run as the
/// accumulated time pays for, and the rest of the time is carried over,
/// unless a fault stops the run first.
pub open spec fn update_outcome(
    s: CpuView,
    time_delta: u32,
    randoms: Seq<u8>,
    r: Result<(), Fault>,
    t: CpuView,
) -> bool {
    let total = s.cycle_acc + time_delta;
    let n = total / s.micro_seconds_per_instruction as int;
    &&& randoms.len() == n
    &&& run(s, randoms).1 == r
    &&& r is Ok ==> t == (CpuView {
        cycle_acc: (total - n * s.micro_seconds_per_instruction) as u32,
        ..run(s, randoms).0
    })
    &&& r is Err ==> t == run(s, randoms).0
}

/// Running one more cycle after a run that did not fault.
pub proof fn lemma_run_push(s: CpuView, randoms: Seq<u8>, random: u8)
    requires
        run(s, randoms).1 is Ok,
    ensures
        run(s, randoms.push(random)) == match step_spec(run(s, randoms).0, random) {
            Ok(t) => (t, Ok::<(), Fault>(())),
            Err(e) => (run(s, randoms).0, Err::<(), Fault>(e)),
        },
    decreases randoms.len(),
{
    if randoms.len() == 0 {
        assert(randoms.push(random)[0] == random);
        assert(randoms.push(random).drop_first() =~= Seq::<u8>::empty());
        if let Ok(t) = step_spec(s, random) {
            assert(run(t, Seq::<u8>::empty()) == (t, Ok::<(), Fault>(())));
        }
    } else {
        let t = step_spec(s, randoms[0])->Ok_0;
        assert(randoms.push(random)[0] == randoms[0]);
        assert(randoms.push(random).drop_first() =~= randoms.drop_first().push(random));
        lemma_run_push(t, randoms.drop_first(), random);
    }
}

/// The state of a machine fresh from construction or reset, at rate
/// `instructions_per_second`, with `keys` on the pad.
pub open spec fn power_on(instructions_per_second: u32, keys: Seq<KeyState>) -> CpuView {
    CpuView {
        v: Seq::new(16, |_k: int| 0u8),
        i: 0,
        pc: PROGRAM_START as u16,
        sp: 0,
        dt: 0,
        st: 0,
        stack: Seq::new(STACK_SIZE as nat, |_k: int| 0u16),
        ram: written(Seq::new(MEMORY_SIZE as nat, |_a: int| 0u8), FONT_START_OFFSET as int, glyphs()),
        frame: Seq::new(FRAME_SIZE as nat, |_p: int| false),
        keys,
        cycle_acc: 0,
        dt_acc: 0,
        st_acc: 0,
        instructions_per_second,
        micro_seconds_per_instruction: (ONE_SECOND_IN_MICRO_SECONDS / instructions_per_second) as u32,
    }
}

/// The processor and everything it owns.
pub struct Cpu {
    rng: WyRand,
    cpu_time_accumulator: u32,
    instructions_per_second: u32,
    micro_seconds_per_instruction: u32,
    registers: Registers,
    stack: [u16; STACK_SIZE],
    ram: Memory,
    frame: FrameBuffer,
    key_pad: KeyPad,
    st_time_accumulator: u32,
    dt_time_accumulator: u32,
}

impl Cpu {
    /// The state that the contracts speak of.
    pub closed spec fn view(&self) -> CpuView {
        CpuView {
            v: self.registers.v@,
            i: self.registers.i,
            pc: self.registers.pc,
            sp: self.registers.sp,
            dt: self.registers.dt,
            st: self.registers.st,
            stack: self.stack@,
            ram: self.ram@,
            frame: self.frame.pixels(),
            keys: self.key_pad@,
            cycle_acc: self.cpu_time_accumulator,
            dt_acc: self.dt_time_accumulator,
            st_acc: self.st_time_accumulator,
            instructions_per_second: self.instructions_per_second,
            micro_seconds_per_instruction: self.micro_seconds_per_instruction,
        }
    }

    /// The frame is well formed and the instruction rate is usable.
    pub closed spec fn wf(&self) -> bool {
        &&& self.frame.wf()
        &&& 1 <= self.instructions_per_second <= ONE_SECOND_IN_MICRO_SECONDS
        &&& self.micro_seconds_per_instruction == ONE_SECOND_IN_MICRO_SECONDS
            / self.instructions_per_second
    }

    /// Facts about the shape of the state that every machine has.
    pub proof fn lemma_view_shape(&self)
        ensures
            self@.v.len() == 16,
            self@.stack.len() == STACK_SIZE,
            self@.ram.len() == MEMORY_SIZE,
            self@.frame.len() == FRAME_SIZE,
            self@.keys.len() == KEY_COUNT,
            self.wf() ==> self@.micro_seconds_per_instruction >= 1,
    {
        self.key_pad.lemma_len();
        if self.wf() {
            let ips = self.instructions_per_second as int;
            assert(1_000_000int / ips >= 1) by (nonlinear_arith)
                requires
                    1 <= ips <= 1_000_000,
            ;
        }
    }

    /// A machine at power-on, at the default rate, its random generator seeded with `seed`.
    pub fn new(seed: u32) -> (r: Self)
        ensures
            r.wf(),
            r@ == power_on(
                DEFAULT_INSTRUCTIONS_PER_SECOND,
                Seq::new(KEY_COUNT as nat, |_k: int| KeyState::Idle),
            ),
    {
        let mut cpu = Self {
            rng: seeded_generator(seed as u64),
            cpu_time_accumulator: 0,
            instructions_per_second: DEFAULT_INSTRUCTIONS_PER_SECOND,
            micro_seconds_per_instruction: ONE_SECOND_IN_MICRO_SECONDS
                / DEFAULT_INSTRUCTIONS_PER_SECOND,
            registers: Registers::new(),
            stack: [0u16; STACK_SIZE],
            ram: Memory::new(),
            frame: FrameBuffer::new(None),
            key_pad: KeyPad::new(),
            st_time_accumulator: 0,
            dt_time_accumulator: 0,
        };
        let glyph_bytes = font();
        let loaded = cpu.ram.load(FONT_START_OFFSET, glyph_bytes.as_slice());
        assert(loaded is Ok);
        proof {
            let expected = power_on(
                DEFAULT_INSTRUCTIONS_PER_SECOND,
                Seq::new(KEY_COUNT as nat, |_k: int| KeyState::Idle),
            );
            assert(cpu@.stack =~= expected.stack);
            assert(cpu@.v =~= expected.v);
        }
        cpu
    }

    /// Copies `bytes` into memory at the program offset.
    pub fn load_program(&mut self, bytes: &[u8]) -> (r: Result<(), OutOfBounds>)
        requires
            old(self).wf(),
        ensures
            final(self).wf(),
            in_bounds(PROGRAM_START as int, bytes@.len() as int) ==> r is Ok && final(self)@
                == (CpuView { ram: written(old(self)@.ram, PROGRAM_START as int, bytes@), ..old(self)@ }),
            !in_bounds(PROGRAM_START as int, bytes@.len() as int) ==> r == Err::<(), OutOfBounds>(
                OutOfBounds { offset: PROGRAM_START, length: bytes@.len() as usize },
            ) && final(self)@ == old(self)@,
    {
        self.ram.load(PROGRAM_START, bytes)
    }

    /// Back to power-on: registers, stack, timers and memory cleared, the
    /// font reloaded, the frame dark. The rate, the key pad and the random
    /// generator are kept.
    pub fn reset(&mut self)
        requires
            old(self).wf(),
        ensures
            final(self).wf(),
            final(self)@ == power_on(old(self)@.instructions_per_second, old(self)@.keys),
            final(self)@.micro_seconds_per_instruction == old(self)@.micro_seconds_per_instruction,
    {
        self.cpu_time_accumulator = 0;
        self.registers = Registers::new();
        self.stack = [0u16; STACK_SIZE];
        self.ram = Memory::new();
        self.dt_time_accumulator = 0;
        self.st_time_accumulator = 0;
        self.frame.clear();
        let glyph_bytes = font();
        let loaded = self.ram.load(FONT_START_OFFSET, glyph_bytes.as_slice());
        assert(loaded is Ok);
        proof {
            let expected = power_on(old(self)@.instructions_per_second, old(self)@.keys);
            assert(self@.stack =~= expected.stack);
            assert(self@.v =~= expected.v);
        }
    }

    /// Sets the instruction rate, and with it the time one instruction takes
    /// and the share of a 60 Hz period that one instruction gives the timers.
    pub fn set_speed(&mut self, instructions_per_second: u32)
        requires
            old(self).wf(),
            1 <= instructions_per_second <= ONE_SECOND_IN_MICRO_SECONDS,
        ensures
            final(self).wf(),
            final(self)@ == (CpuView {
                instructions_per_second,
                micro_seconds_per_instruction: (ONE_SECOND_IN_MICRO_SECONDS
                    / instructions_per_second) as u32,
                ..old(self)@
            }),
    {
        self.instructions_per_second = instructions_per_second;
        self.micro_seconds_per_instruction = ONE_SECOND_IN_MICRO_SECONDS / instructions_per_second;
    }

    /// The instruction rate.
    pub fn speed(&self) -> (r: u32)
        ensures
            r == self@.instructions_per_second,
    {
        self.instructions_per_second
    }

    /// Runs as many cycles as `time_delta` microseconds, plus the time carried
    /// over from earlier calls, pay for; the rest is carried over. Stops at
    /// the first fault, which is returned.
    pub fn update(&mut self, time_delta: u32) -> (r: Result<(), Fault>)
        requires
            old(self).wf(),
        ensures
            final(self).wf(),
            exists|randoms: Seq<u8>| #[trigger]
                update_outcome(old(self)@, time_delta, randoms, r, final(self)@),
    {
        let ghost s = self@;
        proof {
            self.lemma_view_shape();
        }
        let per_instruction = self.micro_seconds_per_instruction as u64;
        let total_time_accumulated = self.cpu_time_accumulator as u64 + time_delta as u64;
        let instructions_to_emulate = total_time_accumulated / per_instruction;
        let ghost mut randoms: Seq<u8> = Seq::empty();
        let mut fault: Option<Fault> = None;
        let mut k: u64 = 0;
        while k < instructions_to_emulate
            invariant
                self.wf(),
                k <= instructions_to_emulate,
                fault is None ==> randoms.len() == k && run(s, randoms) == (self@, Ok::<(), Fault>(())),
                fault is Some ==> update_outcome(s, time_delta, randoms, Err(fault->Some_0), self@)
                    && k == instructions_to_emulate,
                self.micro_seconds_per_instruction == s.micro_seconds_per_instruction,
                s.micro_seconds_per_instruction >= 1,
                per_instruction == s.micro_seconds_per_instruction,
                total_time_accumulated == s.cycle_acc + time_delta,
                instructions_to_emulate == total_time_accumulated / per_instruction,
            decreases instructions_to_emulate - k,
        {
            let ghost before = self@;
            let result = self.step();
            proof {
                let random = choose|random: u8|
                    #[trigger] step_spec(before, random) == match result {
                        Ok(_) => Ok::<CpuView, Fault>(self@),
                        Err(e) => Err::<CpuView, Fault>(e),
                    };
                lemma_run_push(s, randoms, random);
                randoms = randoms.push(random);
            }
            match result {
                Ok(_) => {
                    k = k + 1;
                },
                Err(e) => {
                    proof {
                        let extra = Seq::new(
                            (instructions_to_emulate - k - 1) as nat,
                            |_j: int| 0u8,
                        );
                        lemma_run_stops(s, randoms, extra);
                        let w = randoms + extra;
                        assert(run(s, w) == (self@, Err::<(), Fault>(e)));
                        assert(w.len() == instructions_to_emulate);
                        randoms = w;
                    }
                    fault = Some(e);
                    k = instructions_to_emulate;
                },
            }
        }
        if let Some(e) = fault {
            return Err(e);
        }
        assert(instructions_to_emulate * per_instruction <= total_time_accumulated
            && total_time_accumulated - instructions_to_emulate * per_instruction < per_instruction)
            by (nonlinear_arith)
            requires
                instructions_to_emulate == total_time_accumulated / per_instruction,
                per_instruction >= 1,
        ;
        let time_progressed = instructions_to_emulate * per_instruction;
        self.cpu_time_accumulator = (total_time_accumulated - time_progressed) as u32;
        proof {
            let n = (s.cycle_acc + time_delta) / s.micro_seconds_per_instruction as int;
            assert(randoms.len() == n);
            assert(update_outcome(s, time_delta, randoms, Ok(()), self@));
        }
        Ok(())
    }

    /// One full cycle: fetch, decode and execute one instruction, move the
    /// program counter, decay both timers, clear released edges. On a fault
    /// nothing changes.
    pub fn step(&mut self) -> (r: Result<(), Fault>)
        requires
            old(self).wf(),
        ensures
            final(self).wf(),
            exists|random: u8|
                #[trigger] step_spec(old(self)@, random) == match r {
                    Ok(_) => Ok::<CpuView, Fault>(final(self)@),
                    Err(e) => Err::<CpuView, Fault>(e),
                },
            r is Err ==> final(self)@ == old(self)@,
            final(self)@.micro_seconds_per_instruction == old(self)@.micro_seconds_per_instruction,
            final(self)@.instructions_per_second == old(self)@.instructions_per_second,
    {
        let ghost s = self@;
        let random = match self.step_instruction() {
            Ok(random) => random,
            Err(e) => {
                assert(step_spec(s, 0u8) == Err::<CpuView, Fault>(e));
                return Err(e);
            },
        };
        self.step_timer(Timer::Delay);
        self.step_timer(Timer::Sound);
        self.key_pad.reset_released_keys();
        proof {
            reveal(step_spec);
            let instruction = decode(opcode_at(s.ram, s.pc as int))->Ok_0;
            let (t, status) = execute_spec(s, instruction, random)->Ok_0;
            assert(self@ == finish_cycle(t, status));
        }
        assert(step_spec(s, random) == Ok::<CpuView, Fault>(self@));
        Ok(())
    }

    /// Fetches, decodes and executes one instruction and moves the program
    /// counter; returns the random byte the instruction was given.
    fn step_instruction(&mut self) -> (r: Result<u8, Fault>)
        requires
            old(self).wf(),
        ensures
            final(self).wf(),
            r is Err ==> final(self)@ == old(self)@ && (forall|random: u8|
                #[trigger] step_spec(old(self)@, random) == Err::<CpuView, Fault>(r->Err_0)),
            r is Ok ==> {
                let s = old(self)@;
                let instruction = decode(opcode_at(s.ram, s.pc as int))->Ok_0;
                let (t, status) = execute_spec(s, instruction, r->Ok_0)->Ok_0;
                &&& in_bounds(s.pc as int, 2)
                &&& decode(opcode_at(s.ram, s.pc as int)) is Ok
                &&& execute_spec(s, instruction, r->Ok_0) is Ok
                &&& final(self)@ == (CpuView { pc: advance_pc(t.pc, status), ..t })
            },
    {
        proof {
            reveal(step_spec);
        }
        let opcode = match self.fetch() {
            Ok(opcode) => opcode,
            Err(e) => {
                return Err(e);
            },
        };
        proof {
            lemma_decode_operands(opcode);
        }
        let instruction = match Instruction::try_from(opcode) {
            Ok(instruction) => instruction,
            Err(e) => {
                return Err(Fault::InvalidOpcode(e));
            },
        };
        let random = match instruction {
            Instruction::OpCodeCXNN(_, _) => random_byte(&mut self.rng),
            _ => 0,
        };
        let ghost before = self@;
        let status = match self.execute(instruction, random) {
            Ok(status) => status,
            Err(e) => {
                proof {
                    assert forall|other: u8| #[trigger]
                        step_spec(before, other) == Err::<CpuView, Fault>(e) by {
                        lemma_execute_random(before, instruction, random, other);
                    }
                }
                return Err(e);
            },
        };
        match status {
            ProgramCounterStatus::Repeat => {},
            ProgramCounterStatus::Next => {
                self.registers.pc = ((self.registers.pc as u32 + OPCODE_SIZE as u32) % 65536) as u16;
            },
            ProgramCounterStatus::Skip => {
                self.registers.pc = ((self.registers.pc as u32 + 2 * OPCODE_SIZE as u32) % 65536) as u16;
            },
            ProgramCounterStatus::Jump(address) => {
                self.registers.pc = address;
            },
        }
        Ok(random)
    }

    /// Decays one timer by the time of one instruction.
    fn step_timer(&mut self, timer: Timer)
        ensures
            final(self).wf() == old(self).wf(),
            ({
                let s = old(self)@;
                let rate = s.instructions_per_second;
                match timer {
                    Timer::Delay => final(self)@ == (CpuView {
                        dt: timer_step(s.dt, s.dt_acc, rate).0,
                        dt_acc: timer_step(s.dt, s.dt_acc, rate).1,
                        ..s
                    }),
                    Timer::Sound => final(self)@ == (CpuView {
                        st: timer_step(s.st, s.st_acc, rate).0,
                        st_acc: timer_step(s.st, s.st_acc, rate).1,
                        ..s
                    }),
                }
            }),
    {
        let rate = self.instructions_per_second;
        match timer {
            Timer::Delay => decay(
                &mut self.registers.dt,
                &mut self.dt_time_accumulator,
                rate,
            ),
            Timer::Sound => decay(
                &mut self.registers.st,
                &mut self.st_time_accumulator,
                rate,
            ),
        }
    }

    /// The opcode at the program counter.
    fn fetch(&self) -> (r: Result<u16, Fault>)
        ensures
            in_bounds(self@.pc as int, 2) ==> r == Ok::<u16, Fault>(
                opcode_at(self@.ram, self@.pc as int),
            ),
            !in_bounds(self@.pc as int, 2) ==> r == Err::<u16, Fault>(
                memory_fault(self@.pc as int, 2),
            ),
    {
        match self.ram.read(self.registers.pc as usize, 2) {
            Ok(bytes) => Ok((bytes[0] as u16) * 256 + bytes[1] as u16),
            Err(e) => Err(Fault::MemoryFault(e)),
        }
    }

    /// The frame.
    pub fn frame(&self) -> (r: &FrameBuffer)
        requires
            self.wf(),
        ensures
            r.wf(),
            r.pixels() == self@.frame,
    {
        &self.frame
    }

    /// A copy of the registers.
    pub fn registers(&self) -> (r: Registers)
        ensures
            r.v@ == self@.v,
            r.i == self@.i,
            r.pc == self@.pc,
            r.sp == self@.sp,
            r.dt == self@.dt,
            r.st == self@.st,
    {
        self.registers
    }

    /// Replaces the registers.
    pub fn set_registers(&mut self, registers: Registers)
        ensures
            final(self).wf() == old(self).wf(),
            final(self)@ == (CpuView {
                v: registers.v@,
                i: registers.i,
                pc: registers.pc,
                sp: registers.sp,
                dt: registers.dt,
                st: registers.st,
                ..old(self)@
            }),
    {
        self.registers = registers;
    }

    /// Records a key event.
    pub fn handle_key_event(&mut self, key: Key, state: KeyState)
        ensures
            final(self).wf() == old(self).wf(),
            final(self)@ == (CpuView {
                keys: old(self)@.keys.update(key_index(key) as int, state),
                ..old(self)@
            }),
    {
        self.key_pad.set(key, state);
    }

    /// Applies one decoded instruction; `random` is used by the random instruction only.
    pub fn execute(&mut self, instruction: Instruction, random: u8) -> (r: Result<
        ProgramCounterStatus,
        Fault,
    >)
        requires
            old(self).wf(),
            operands_in_range(instruction),
        ensures
            final(self).wf(),
            match execute_spec(old(self)@, instruction, random) {
                Ok((s, status)) => r == Ok::<ProgramCounterStatus, Fault>(status) && final(self)@
                    == s,
                Err(e) => r == Err::<ProgramCounterStatus, Fault>(e) && final(self)@ == old(self)@,
            },
    {
        match instruction {
            Instruction::OpCode00E0
            | Instruction::OpCode00EE
            | Instruction::OpCode1NNN(..)
            | Instruction::OpCode2NNN(..)
            | Instruction::OpCode3XNN(..)
            | Instruction::OpCode4XNN(..)
            | Instruction::OpCode5XY0(..)
            | Instruction::OpCode9XY0(..)
            | Instruction::OpCodeBNNN(..) => self.execute_control(instruction, random),
            Instruction::OpCode6XNN(..)
            | Instruction::OpCode7XNN(..)
            | Instruction::OpCode8XY0(..)
            | Instruction::OpCode8XY1(..)
            | Instruction::OpCode8XY2(..)
            | Instruction::OpCode8XY3(..)
            | Instruction::OpCodeCXNN(..) => self.execute_arithmetic(instruction, random),
            Instruction::OpCode8XY4(..)
            | Instruction::OpCode8XY5(..)
            | Instruction::OpCode8XY7(..) => self.execute_flagged(instruction, random),
            Instruction::OpCode8XY6(..)
            | Instruction::OpCode8XYE(..) => self.execute_shift(instruction, random),
            Instruction::OpCodeANNN(..)
            | Instruction::OpCodeDXYN(..)
            | Instruction::OpCodeFX1E(..)
            | Instruction::OpCodeFX29(..)
            | Instruction::OpCodeFX33(..)
            | Instruction::OpCodeFX55(..)
            | Instruction::OpCodeFX65(..) => self.execute_memory(instruction, random),
            Instruction::OpCodeEX9E(..)
            | Instruction::OpCodeEXA1(..)
            | Instruction::OpCodeFX07(..)
            | Instruction::OpCodeFX0A(..)
            | Instruction::OpCodeFX15(..)
            | Instruction::OpCodeFX18(..) => self.execute_devices(instruction, random),
        }
    }

    /// Clears the screen, and the jumps, calls, returns and skips.
    fn execute_control(&mut self, instruction: Instruction, random: u8) -> (r: Result<
        ProgramCounterStatus,
        Fault,
    >)
        requires
            old(self).wf(),
            operands_in_range(instruction),
            instruction is OpCode00E0 || instruction is OpCode00EE || instruction is OpCode1NNN || instruction is OpCode2NNN || instruction is OpCode3XNN || instruction is OpCode4XNN || instruction is OpCode5XY0 || instruction is OpCode9XY0 || instruction is OpCodeBNNN,
        ensures
            final(self).wf(),
            match execute_spec(old(self)@, instruction, random) {
                Ok((s, status)) => r == Ok::<ProgramCounterStatus, Fault>(status) && final(self)@
                    == s,
                Err(e) => r == Err::<ProgramCounterStatus, Fault>(e) && final(self)@ == old(self)@,
            },
    {
        let ghost s = self@;
        proof {
            self.lemma_view_shape();
        }
        let mut status = ProgramCounterStatus::Next;
        match instruction {
            Instruction::OpCode00E0 => {
                self.frame.clear();
            },
            Instruction::OpCode00EE => {
                if self.registers.sp == 0 {
                    return Err(Fault::StackUnderflow);
                }
                if self.registers.sp as usize > STACK_SIZE {
                    return Err(Fault::StackOverflow);
                }
                self.registers.sp = self.registers.sp - 1;
                self.registers.pc = self.stack[self.registers.sp as usize];
            },
            Instruction::OpCode1NNN(nnn) => {
                status = ProgramCounterStatus::Jump(nnn);
            },
            Instruction::OpCode2NNN(nnn) => {
                if self.registers.sp as usize >= STACK_SIZE {
                    return Err(Fault::StackOverflow);
                }
                self.stack[self.registers.sp as usize] = self.registers.pc;
                self.registers.sp = self.registers.sp + 1;
                status = ProgramCounterStatus::Jump(nnn);
            },
            Instruction::OpCode3XNN(x, nn) => {
                if self.registers.v[x] == nn {
                    status = ProgramCounterStatus::Skip;
                }
            },
            Instruction::OpCode4XNN(x, nn) => {
                if self.registers.v[x] != nn {
                    status = ProgramCounterStatus::Skip;
                }
            },
            Instruction::OpCode5XY0(x, y) => {
                if self.registers.v[x] == self.registers.v[y] {
                    status = ProgramCounterStatus::Skip;
                }
            },
            Instruction::OpCode9XY0(x, y) => {
                if self.registers.v[x] != self.registers.v[y] {
                    status = ProgramCounterStatus::Skip;
                }
            },
            Instruction::OpCodeBNNN(nnn) => {
                status = ProgramCounterStatus::Jump(nnn + self.registers.v[0] as u16);
            },
            _ => {},
        }
        proof {
            lemma_executed(self@, execute_spec(s, instruction, random));
        }
        Ok(status)
    }

    /// Loads, arithmetic and logic on the general registers.
    fn execute_arithmetic(&mut self, instruction: Instruction, random: u8) -> (r: Result<
        ProgramCounterStatus,
        Fault,
    >)
        requires
            old(self).wf(),
            operands_in_range(instruction),
            instruction is OpCode6XNN || instruction is OpCode7XNN || instruction is OpCode8XY0 || instruction is OpCode8XY1 || instruction is OpCode8XY2 || instruction is OpCode8XY3 || instruction is OpCodeCXNN,
        ensures
            final(self).wf(),
            match execute_spec(old(self)@, instruction, random) {
                Ok((s, status)) => r == Ok::<ProgramCounterStatus, Fault>(status) && final(self)@
                    == s,
                Err(e) => r == Err::<ProgramCounterStatus, Fault>(e) && final(self)@ == old(self)@,
            },
    {
        let ghost s = self@;
        proof {
            self.lemma_view_shape();
        }
        match instruction {
            Instruction::OpCode6XNN(x, nn) => {
                self.registers.v[x] = nn;
            },
            Instruction::OpCode7XNN(x, nn) => {
                self.registers.v[x] = self.registers.v[x].wrapping_add(nn);
            },
            Instruction::OpCode8XY0(x, y) => {
                self.registers.v[x] = self.registers.v[y];
            },
            Instruction::OpCode8XY1(x, y) => {
                self.registers.v[x] = self.registers.v[x] | self.registers.v[y];
            },
            Instruction::OpCode8XY2(x, y) => {
                self.registers.v[x] = self.registers.v[x] & self.registers.v[y];
            },
            Instruction::OpCode8XY3(x, y) => {
                self.registers.v[x] = self.registers.v[x] ^ self.registers.v[y];
            },
            Instruction::OpCodeCXNN(x, nn) => {
                self.registers.v[x] = random & nn;
            },
            _ => {},
        }
        proof {
            lemma_executed(self@, execute_spec(s, instruction, random));
        }
        Ok(ProgramCounterStatus::Next)
    }

    /// Addition and subtraction, which set the flag register.
    #[verifier::spinoff_prover]
    #[verifier::rlimit(80)]
    fn execute_flagged(&mut self, instruction: Instruction, random: u8) -> (r: Result<
        ProgramCounterStatus,
        Fault,
    >)
        requires
            old(self).wf(),
            operands_in_range(instruction),
            instruction is OpCode8XY4 || instruction is OpCode8XY5 || instruction is OpCode8XY7,
        ensures
            final(self).wf(),
            match execute_spec(old(self)@, instruction, random) {
                Ok((s, status)) => r == Ok::<ProgramCounterStatus, Fault>(status) && final(self)@
                    == s,
                Err(e) => r == Err::<ProgramCounterStatus, Fault>(e) && final(self)@ == old(self)@,
            },
    {
        let ghost s = self@;
        proof {
            self.lemma_view_shape();
        }
        match instruction {
            Instruction::OpCode8XY4(x, y) => {
                let a = self.registers.v[x];
                let b = self.registers.v[y];
                let carry = a > u8::MAX - b;
                self.registers.v[x] = a.wrapping_add(b);
                self.registers.v[FLAG] = if carry {
                    1
                } else {
                    0
                };
            },
            Instruction::OpCode8XY5(x, y) => {
                let a = self.registers.v[x];
                let b = self.registers.v[y];
                self.registers.v[x] = a.wrapping_sub(b);
                self.registers.v[FLAG] = if a >= b {
                    1
                } else {
                    0
                };
            },
            Instruction::OpCode8XY7(x, y) => {
                let a = self.registers.v[x];
                let b = self.registers.v[y];
                self.registers.v[x] = b.wrapping_sub(a);
                self.registers.v[FLAG] = if b >= a {
                    1
                } else {
                    0
                };
            },
            _ => {},
        }
        proof {
            lemma_executed(self@, execute_spec(s, instruction, random));
        }
        Ok(ProgramCounterStatus::Next)
    }

    /// Shifts, which set the flag register to the bit shifted out.
    #[verifier::rlimit(40)]
    fn execute_shift(&mut self, instruction: Instruction, random: u8) -> (r: Result<
        ProgramCounterStatus,
        Fault,
    >)
        requires
            old(self).wf(),
            operands_in_range(instruction),
            instruction is OpCode8XY6 || instruction is OpCode8XYE,
        ensures
            final(self).wf(),
            match execute_spec(old(self)@, instruction, random) {
                Ok((s, status)) => r == Ok::<ProgramCounterStatus, Fault>(status) && final(self)@
                    == s,
                Err(e) => r == Err::<ProgramCounterStatus, Fault>(e) && final(self)@ == old(self)@,
            },
    {
        let ghost s = self@;
        proof {
            self.lemma_view_shape();
        }
        match instruction {
            Instruction::OpCode8XY6(x, y) => {
                let source = self.registers.v[y];
                self.registers.v[x] = source >> 1u8;
                self.registers.v[FLAG] = source & 1u8;
                assert(source >> 1u8 == source / 2 && source & 1u8 == source % 2) by (bit_vector);
            },
            Instruction::OpCode8XYE(x, y) => {
                let source = self.registers.v[y];
                self.registers.v[x] = source << 1u8;
                self.registers.v[FLAG] = (source >> 7u8) & 1u8;
                assert(source << 1u8 == ((source * 2) % 256) as u8 && (source >> 7u8) & 1u8
                    == source / 128) by (bit_vector);
            },
            _ => {},
        }
        proof {
            lemma_executed(self@, execute_spec(s, instruction, random));
        }
        Ok(ProgramCounterStatus::Next)
    }

    /// Instructions that use the address register: draw, digits, register transfer.
    fn execute_memory(&mut self, instruction: Instruction, random: u8) -> (r: Result<
        ProgramCounterStatus,
        Fault,
    >)
        requires
            old(self).wf(),
            operands_in_range(instruction),
            instruction is OpCodeANNN || instruction is OpCodeDXYN || instruction is OpCodeFX1E || instruction is OpCodeFX29 || instruction is OpCodeFX33 || instruction is OpCodeFX55 || instruction is OpCodeFX65,
        ensures
            final(self).wf(),
            match execute_spec(old(self)@, instruction, random) {
                Ok((s, status)) => r == Ok::<ProgramCounterStatus, Fault>(status) && final(self)@
                    == s,
                Err(e) => r == Err::<ProgramCounterStatus, Fault>(e) && final(self)@ == old(self)@,
            },
    {
        let ghost s = self@;
        proof {
            self.lemma_view_shape();
        }
        match instruction {
            Instruction::OpCodeANNN(nnn) => {
                self.registers.i = nnn;
            },
            Instruction::OpCodeDXYN(x, y, n) => {
                let start_x = self.registers.v[x] as usize;
                let start_y = self.registers.v[y] as usize;
                let collided = match self.ram.read(self.registers.i as usize, n as usize) {
                    Ok(sprite) => self.frame.draw(sprite, (start_x, start_y)),
                    Err(e) => {
                        return Err(Fault::MemoryFault(e));
                    },
                };
                self.registers.v[FLAG] = if collided {
                    1
                } else {
                    0
                };
            },
            Instruction::OpCodeFX1E(x) => {
                self.registers.i = self.registers.i.wrapping_add(self.registers.v[x] as u16);
            },
            Instruction::OpCodeFX29(x) => {
                let value = self.registers.v[x];
                let nibble = (value & 0xfu8) as usize;
                assert(value & 0xfu8 == value % 16) by (bit_vector);
                self.registers.i = (FONT_START_OFFSET + (nibble * FONT_CHAR_SIZE)) as u16;
            },
            Instruction::OpCodeFX33(x) => {
                let vx = self.registers.v[x];
                let units = vx % 10;
                let tens = (vx / 10) % 10;
                let hundreds = (vx / 100) % 10;
                let digits = [hundreds, tens, units];
                assert(digits@ =~= bcd(vx));
                if let Err(e) = self.ram.load(self.registers.i as usize, digits.as_slice()) {
                    return Err(Fault::MemoryFault(e));
                }
            },
            Instruction::OpCodeFX55(x) => {
                let buffer = slice_prefix(self.registers.v.as_slice(), x + 1);
                if let Err(e) = self.ram.load(self.registers.i as usize, buffer.as_slice()) {
                    return Err(Fault::MemoryFault(e));
                }
            },
            Instruction::OpCodeFX65(x) => {
                let loaded = match self.ram.read(self.registers.i as usize, x + 1) {
                    Ok(bytes) => slice_prefix(bytes, x + 1),
                    Err(e) => {
                        return Err(Fault::MemoryFault(e));
                    },
                };
                let mut k: usize = 0;
                while k <= x
                    invariant
                        x < 16,
                        k <= x + 1,
                        loaded@ == s.ram.subrange(s.i as int, s.i + x + 1),
                        loaded@.len() == x + 1,
                        s.v.len() == 16,
                        s.ram.len() == MEMORY_SIZE,
                        s.i + x + 1 <= MEMORY_SIZE,
                        self.registers.v@ == loaded@.subrange(0, k as int) + s.v.subrange(
                            k as int,
                            16,
                        ),
                        self.registers.i == s.i,
                        self.registers.pc == s.pc,
                        self.registers.sp == s.sp,
                        self.registers.dt == s.dt,
                        self.registers.st == s.st,
                        self@.stack == s.stack,
                        self@.ram == s.ram,
                        self@.frame == s.frame,
                        self@.keys == s.keys,
                        self@.cycle_acc == s.cycle_acc,
                        self@.dt_acc == s.dt_acc,
                        self@.st_acc == s.st_acc,
                        self@.instructions_per_second == s.instructions_per_second,
                        self@.micro_seconds_per_instruction == s.micro_seconds_per_instruction,
                        self.wf(),
                    decreases x + 1 - k,
                {
                    self.registers.v[k] = loaded[k];
                    k = k + 1;
                    assert(self.registers.v@ =~= loaded@.subrange(0, k as int) + s.v.subrange(
                        k as int,
                        16,
                    ));
                }
            },
            _ => {},
        }
        proof {
            lemma_executed(self@, execute_spec(s, instruction, random));
        }
        Ok(ProgramCounterStatus::Next)
    }

    /// Instructions on the keypad and the timers.
    fn execute_devices(&mut self, instruction: Instruction, random: u8) -> (r: Result<
        ProgramCounterStatus,
        Fault,
    >)
        requires
            old(self).wf(),
            operands_in_range(instruction),
            instruction is OpCodeEX9E || instruction is OpCodeEXA1 || instruction is OpCodeFX07 || instruction is OpCodeFX0A || instruction is OpCodeFX15 || instruction is OpCodeFX18,
        ensures
            final(self).wf(),
            match execute_spec(old(self)@, instruction, random) {
                Ok((s, status)) => r == Ok::<ProgramCounterStatus, Fault>(status) && final(self)@
                    == s,
                Err(e) => r == Err::<ProgramCounterStatus, Fault>(e) && final(self)@ == old(self)@,
            },
    {
        let ghost s = self@;
        proof {
            self.lemma_view_shape();
        }
        let mut status = ProgramCounterStatus::Next;
        match instruction {
            Instruction::OpCodeEX9E(x) => {
                if let Ok(key) = Key::try_from(self.registers.v[x]) {
                    if self.key_pad.get(key) == KeyState::Pressed {
                        status = ProgramCounterStatus::Skip;
                    }
                }
            },
            Instruction::OpCodeEXA1(x) => {
                let pressed = match Key::try_from(self.registers.v[x]) {
                    Ok(key) => self.key_pad.get(key) == KeyState::Pressed,
                    Err(_) => false,
                };
                if !pressed {
                    status = ProgramCounterStatus::Skip;
                }
            },
            Instruction::OpCodeFX07(x) => {
                self.registers.v[x] = self.registers.dt;
            },
            Instruction::OpCodeFX0A(x) => {
                match self.key_pad.find_released_key() {
                    Some(key) => {
                        proof {
                            let k = key_index(key) as int;
                            assert(is_first_released(s.keys, k));
                            let c = first_released(s.keys);
                            assert(is_first_released(s.keys, c));
                            assert(c == k) by {
                                if c < k {
                                    assert(s.keys[c] != KeyState::Released);
                                } else if k < c {
                                    assert(s.keys[k] != KeyState::Released);
                                }
                            }
                        }
                        self.registers.v[x] = u8::from(key);
                    },
                    None => {
                        status = ProgramCounterStatus::Repeat;
                    },
                }
            },
            Instruction::OpCodeFX15(x) => {
                self.registers.dt = self.registers.v[x];
            },
            Instruction::OpCodeFX18(x) => {
                self.registers.st = self.registers.v[x];
            },
            _ => {},
        }
        proof {
            lemma_executed(self@, execute_spec(s, instruction, random));
        }
        Ok(status)
    }

}

/// Decays `register` by the time of one instruction at
/// `instructions_per_second`; see `timer_step`.
fn decay(register: &mut u8, accumulator: &mut u32, instructions_per_second: u32)
    ensures
        (*final(register), *final(accumulator)) == timer_step(
            *old(register),
            *old(accumulator),
            instructions_per_second,
        ),
{
    if *register > 0 {
        let accumulated_time = accumulator.saturating_add(TIMER_FREQUENCY);
        if accumulated_time >= instructions_per_second {
            *accumulator = accumulated_time - instructions_per_second;
            *register = *register - 1;
        } else {
            *accumulator = accumulated_time;
        }
    } else {
        *accumulator = 0;
    }
}

/// A state equal field by field to the outcome of an instruction is that outcome.
proof fn lemma_executed(now: CpuView, outcome: Result<(CpuView, ProgramCounterStatus), Fault>)
    requires
        outcome is Ok ==> now =~= outcome->Ok_0.0,
    ensures
        outcome is Ok ==> now == outcome->Ok_0.0,
{
}

/// Only the random instruction reads the random byte, so a fault does not depend on it.
proof fn lemma_execute_random(s: CpuView, instruction: Instruction, a: u8, b: u8)
    ensures
        execute_spec(s, instruction, a) is Err ==> execute_spec(s, instruction, b)
            == execute_spec(s, instruction, a),
{
}

/// A run that stopped at a fault stops there whatever bytes follow.
proof fn lemma_run_stops(s: CpuView, randoms: Seq<u8>, extra: Seq<u8>)
    requires
        run(s, randoms).1 is Err,
    ensures
        run(s, randoms + extra) == run(s, randoms),
    decreases randoms.len(),
{
    assert((randoms + extra)[0] == randoms[0]);
    if let Ok(t) = step_spec(s, randoms[0]) {
        assert((randoms + extra).drop_first() =~= randoms.drop_first() + extra);
        lemma_run_stops(t, randoms.drop_first(), extra);
    }
}

/// The first `n` elements of `s`, copied.
fn slice_prefix(s: &[u8], n: usize) -> (r: Vec<u8>)
    requires
        n <= s@.len(),
    ensures
        r@ == s@.subrange(0, n as int),
{
    let mut r: Vec<u8> = Vec::new();
    let mut k: usize = 0;
    while k < n
        invariant
            k <= n,
            n <= s@.len(),
            r@ == s@.subrange(0, k as int),
        decreases n - k,
    {
        r.push(s[k]);
        k = k + 1;
        assert(r@ =~= s@.subrange(0, k as int));
    }
    r
}

} // verus!
