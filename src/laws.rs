//! Properties of the machine that relate several operations, proved over
//! the specifications that the operations' contracts use.
use vstd::prelude::*;
use vstd::arithmetic::div_mod::{lemma_fundamental_div_mod, lemma_fundamental_div_mod_converse};
use crate::cpu::instructions::{decode, op_family, op_nn, op_x, Instruction, InvalidOpcode};
use crate::cpu::{
    any_released, bcd, execute_spec, first_released, opcode_at, run, step_spec, timer_step,
    update_outcome, CpuView, Fault, DEFAULT_INSTRUCTIONS_PER_SECOND, ONE_SECOND_IN_MICRO_SECONDS,
    TIMER_FREQUENCY,
};
use crate::frame::{lemma_bytes_determined, tail_kept, FrameBuffer};
use crate::keypad::{without_released, KeyState, KEY_COUNT};
use crate::memory::{in_bounds, MEMORY_SIZE};
use crate::sprite::{collides, covers, drawn, FRAME_HEIGHT, FRAME_SIZE, FRAME_WIDTH};

verus! {

/// Whether `opcode` loads an immediate into a register or adds one to it.
pub open spec fn is_immediate(opcode: u16) -> bool {
    op_family(opcode) == 6 || op_family(opcode) == 7
}

/// Whether `ram` holds `program` as big-endian words from `pc`.
pub open spec fn holds_program(ram: Seq<u8>, pc: int, program: Seq<u16>) -> bool {
    forall|k: int| 0 <= k < program.len() ==> #[trigger] opcode_at(ram, pc + 2 * k) == program[k]
}

/// The general registers after a program of immediate loads and adds: a
/// load sets the register, an add adds modulo 256.
pub open spec fn immediate_result(v: Seq<u8>, program: Seq<u16>) -> Seq<u8>
    decreases program.len(),
{
    if program.len() == 0 {
        v
    } else {
        let opcode = program[0];
        let x = op_x(opcode) as int;
        let nn = op_nn(opcode);
        let next = if op_family(opcode) == 6 {
            v.update(x, nn)
        } else {
            v.update(x, ((v[x] + nn) % 256) as u8)
        };
        immediate_result(next, program.drop_first())
    }
}

/// A program of immediate loads and adds runs without fault, leaves each
/// register at the sum of what was loaded and added modulo 256, and moves the
/// program counter two bytes per instruction.
pub proof fn law_immediate_program(s: CpuView, program: Seq<u16>, randoms: Seq<u8>)
    requires
        s.v.len() == 16,
        randoms.len() == program.len(),
        s.pc + 2 * program.len() <= MEMORY_SIZE,
        holds_program(s.ram, s.pc as int, program),
        forall|k: int| 0 <= k < program.len() ==> #[trigger] is_immediate(program[k]),
    ensures
        run(s, randoms).1 is Ok,
        run(s, randoms).0.pc == s.pc + 2 * program.len(),
        run(s, randoms).0.v == immediate_result(s.v, program),
    decreases program.len(),
{
    if program.len() > 0 {
        reveal(step_spec);
        let opcode = program[0];
        assert(op_x(opcode) < 16) by (bit_vector);
        assert(opcode_at(s.ram, s.pc + 2 * 0) == program[0]);
        assert(is_immediate(program[0]));
        let t = step_spec(s, randoms[0])->Ok_0;
        assert(step_spec(s, randoms[0]) is Ok);
        assert(t.ram == s.ram);
        assert(t.pc == s.pc + 2);
        let rest = program.drop_first();
        assert forall|k: int| 0 <= k < rest.len() implies #[trigger] opcode_at(
            t.ram,
            t.pc + 2 * k,
        ) == rest[k] by {
            assert(opcode_at(s.ram, s.pc + 2 * (k + 1)) == program[k + 1]);
            assert(t.pc + 2 * k == s.pc + 2 * (k + 1));
        }
        assert forall|k: int| 0 <= k < rest.len() implies #[trigger] is_immediate(rest[k]) by {
            assert(is_immediate(program[k + 1]));
        }
        law_immediate_program(t, rest, randoms.drop_first());
    }
}

/// Drawing a sprite twice at the same place gives back the frame it started
/// from. On a dark frame the first draw collides with nothing, and the
/// second collides exactly when the sprite lit a pixel.
pub proof fn law_draw_twice(grid: Seq<bool>, sprite: Seq<u8>, x: int, y: int)
    requires
        grid.len() == FRAME_SIZE,
    ensures
        drawn(drawn(grid, sprite, x, y), sprite, x, y) == grid,
        (forall|p: int| 0 <= p < FRAME_SIZE ==> !grid[p]) ==> !collides(grid, sprite, x, y) && (
        collides(drawn(grid, sprite, x, y), sprite, x, y) <==> exists|p: int|
            0 <= p < FRAME_SIZE && #[trigger] drawn(grid, sprite, x, y)[p]),
{
    let x0 = x % FRAME_WIDTH as int;
    let y0 = y % FRAME_HEIGHT as int;
    let k = sprite.len() * 8 as int;
    let once = drawn(grid, sprite, x, y);
    assert(drawn(once, sprite, x, y) =~= grid);
    if forall|p: int| 0 <= p < FRAME_SIZE ==> !grid[p] {
        if exists|p: int| 0 <= p < FRAME_SIZE && #[trigger] once[p] {
            let p = choose|p: int| 0 <= p < FRAME_SIZE && #[trigger] once[p];
            assert(covers(sprite, x0, y0, p, k));
        }
        if collides(once, sprite, x, y) {
            let p = choose|p: int|
                0 <= p < once.len() && once[p] && #[trigger] covers(sprite, x0, y0, p, k);
            assert(once[p]);
        }
    }
}

/// Drawing a sprite twice at the same place gives back the frame buffer it
/// started from, byte for byte: `f1` and `f2` are what the two draws leave.
pub proof fn law_draw_twice_bytes(
    f0: FrameBuffer,
    f1: FrameBuffer,
    f2: FrameBuffer,
    sprite: Seq<u8>,
    x: int,
    y: int,
)
    requires
        f0.wf(),
        f1.wf(),
        f2.wf(),
        f1.pixels() == drawn(f0.pixels(), sprite, x, y),
        tail_kept(f0.bytes(), f1.bytes()),
        f2.pixels() == drawn(f1.pixels(), sprite, x, y),
        tail_kept(f1.bytes(), f2.bytes()),
    ensures
        f2.bytes() == f0.bytes(),
{
    law_draw_twice(f0.pixels(), sprite, x, y);
    lemma_bytes_determined(f2.bytes(), f0.bytes());
}

/// Clearing the screen leaves every pixel dark, whatever a draw lit before.
pub proof fn law_clear_after_draw(s: CpuView, x: usize, y: usize, n: u8, r1: u8, r2: u8)
    requires
        execute_spec(s, Instruction::OpCodeDXYN(x, y, n), r1) is Ok,
    ensures
        ({
            let t = execute_spec(s, Instruction::OpCodeDXYN(x, y, n), r1)->Ok_0.0;
            let u = execute_spec(t, Instruction::OpCode00E0, r2)->Ok_0.0;
            execute_spec(t, Instruction::OpCode00E0, r2) is Ok && forall|p: int|
                0 <= p < FRAME_SIZE ==> !#[trigger] u.frame[p]
        }),
{
}

/// Storing registers `V0..=Vx` at `I` and loading them back from `I` leaves
/// the registers as they were.
pub proof fn law_dump_load(s: CpuView, x: usize, r1: u8, r2: u8)
    requires
        x < 16,
        s.v.len() == 16,
        s.ram.len() == MEMORY_SIZE,
        in_bounds(s.i as int, x + 1),
    ensures
        ({
            let t = execute_spec(s, Instruction::OpCodeFX55(x), r1)->Ok_0.0;
            let u = execute_spec(t, Instruction::OpCodeFX65(x), r2)->Ok_0.0;
            &&& execute_spec(s, Instruction::OpCodeFX55(x), r1) is Ok
            &&& execute_spec(t, Instruction::OpCodeFX65(x), r2) is Ok
            &&& u.v == s.v
        }),
{
    let t = execute_spec(s, Instruction::OpCodeFX55(x), r1)->Ok_0.0;
    let u = execute_spec(t, Instruction::OpCodeFX65(x), r2)->Ok_0.0;
    assert(t.ram.subrange(s.i as int, s.i + x + 1) =~= s.v.subrange(0, x + 1));
    assert(u.v =~= s.v);
}

/// The three decimal digits of a byte are digits, and read back as the byte.
pub proof fn law_bcd(value: u8)
    ensures
        bcd(value).len() == 3,
        bcd(value)[0] < 10 && bcd(value)[1] < 10 && bcd(value)[2] < 10,
        bcd(value)[0] * 100 + bcd(value)[1] * 10 + bcd(value)[2] == value,
{
}

/// A timer decayed over `k` instructions at `instructions_per_second`.
pub open spec fn decay_for(register: u8, accumulator: u32, instructions_per_second: u32, k: nat) -> (
    u8,
    u32,
)
    decreases k,
{
    if k == 0 {
        (register, accumulator)
    } else {
        let (r, a) = decay_for(register, accumulator, instructions_per_second, (k - 1) as nat);
        timer_step(r, a, instructions_per_second)
    }
}

/// From an empty accumulator, a timer loses one count per whole 60 Hz
/// period that `k` instructions take, until it reaches zero, where it stays.
pub proof fn lemma_decay_for(n: u8, instructions_per_second: u32, k: nat)
    requires
        TIMER_FREQUENCY < instructions_per_second <= ONE_SECOND_IN_MICRO_SECONDS,
    ensures
        ({
            let t = instructions_per_second as int;
            let d = (k * TIMER_FREQUENCY) / t;
            &&& n > d ==> decay_for(n, 0, instructions_per_second, k) == ((n - d) as u8, ((k
                * TIMER_FREQUENCY) % t) as u32)
            &&& n <= d ==> decay_for(n, 0, instructions_per_second, k).0 == 0
        }),
    decreases k,
{
    let t = instructions_per_second as int;
    let m = TIMER_FREQUENCY as int;
    if k > 0 {
        let j = (k - 1) as nat;
        lemma_decay_for(n, instructions_per_second, j);
        let d = (j * m) / t;
        let a = (j * m) % t;
        lemma_fundamental_div_mod(j * m, t);
        assert(k * m == j * m + m) by (nonlinear_arith)
            requires
                k == j + 1,
        ;
        assert(j * m >= 0) by (nonlinear_arith)
            requires
                j >= 0,
                m >= 1,
        ;
        assert((d + 1) * t + (a + m - t) == k * m && d * t + (a + m) == k * m) by (nonlinear_arith)
            requires
                j * m == t * d + a,
                k * m == j * m + m,
        ;
        if a + m >= t {
            lemma_fundamental_div_mod_converse(k * m, t, d + 1, a + m - t);
        } else {
            lemma_fundamental_div_mod_converse(k * m, t, d, a + m);
        }
    }
}

/// Decaying for one more instruction is decaying from where the first
/// instruction leaves the timer.
pub proof fn lemma_decay_for_front(
    register: u8,
    accumulator: u32,
    instructions_per_second: u32,
    k: nat,
)
    ensures
        decay_for(register, accumulator, instructions_per_second, k + 1) == ({
            let (r, a) = timer_step(register, accumulator, instructions_per_second);
            decay_for(r, a, instructions_per_second, k)
        }),
    decreases k,
{
    let (r, a) = timer_step(register, accumulator, instructions_per_second);
    assert(decay_for(register, accumulator, instructions_per_second, 0) == (
        register,
        accumulator,
    ));
    assert(decay_for(r, a, instructions_per_second, 0) == (r, a));
    if k > 0 {
        lemma_decay_for_front(register, accumulator, instructions_per_second, (k - 1) as nat);
        assert(decay_for(r, a, instructions_per_second, k) == ({
            let (r1, a1) = decay_for(r, a, instructions_per_second, (k - 1) as nat);
            timer_step(r1, a1, instructions_per_second)
        }));
    }
}

/// Cycles on a jump to itself leave the machine where it is, with only the
/// timers decaying and released edges cleared.
pub proof fn lemma_self_jump_run(s: CpuView, randoms: Seq<u8>)
    requires
        s.pc + 2 <= MEMORY_SIZE,
        decode(opcode_at(s.ram, s.pc as int)) == Ok::<Instruction, InvalidOpcode>(
            Instruction::OpCode1NNN(s.pc),
        ),
    ensures
        run(s, randoms).1 is Ok,
        run(s, randoms).0.pc == s.pc,
        (run(s, randoms).0.dt, run(s, randoms).0.dt_acc) == decay_for(
            s.dt,
            s.dt_acc,
            s.instructions_per_second,
            randoms.len(),
        ),
    decreases randoms.len(),
{
    reveal(step_spec);
    if randoms.len() > 0 {
        let t = step_spec(s, randoms[0])->Ok_0;
        lemma_self_jump_run(t, randoms.drop_first());
        lemma_decay_for_front(
            s.dt,
            s.dt_acc,
            s.instructions_per_second,
            (randoms.len() - 1) as nat,
        );
    }
}

/// At the default rate one second of time runs 700 cycles, and a timer set
/// to at most 60 with nothing accumulated decays to zero over them. A timer
/// never counts up, and one at zero stays at zero with nothing accumulated.
pub proof fn law_timer_one_second(n: u8)
    requires
        n <= 60,
    ensures
        ONE_SECOND_IN_MICRO_SECONDS / (ONE_SECOND_IN_MICRO_SECONDS
            / DEFAULT_INSTRUCTIONS_PER_SECOND) == 700,
        decay_for(n, 0, DEFAULT_INSTRUCTIONS_PER_SECOND, 700).0 == 0,
        forall|r: u8, acc: u32, rate: u32| #[trigger] timer_step(r, acc, rate).0 <= r,
        forall|acc: u32, rate: u32| #[trigger] timer_step(0, acc, rate) == (0u8, 0u32),
{
    lemma_decay_for(n, DEFAULT_INSTRUCTIONS_PER_SECOND, 700);
    assert((700int * 60) / 700 == 60);
}

/// A machine at the default rate, idling on a jump to itself with its delay
/// timer set to at most 60 and no time carried over, has the delay timer at
/// zero after being advanced by one second.
pub proof fn law_delay_timer_after_one_second(
    s: CpuView,
    randoms: Seq<u8>,
    r: Result<(), Fault>,
    t: CpuView,
)
    requires
        s.instructions_per_second == DEFAULT_INSTRUCTIONS_PER_SECOND,
        s.micro_seconds_per_instruction == ONE_SECOND_IN_MICRO_SECONDS
            / DEFAULT_INSTRUCTIONS_PER_SECOND,
        s.cycle_acc == 0,
        s.dt_acc == 0,
        s.dt <= 60,
        s.pc + 2 <= MEMORY_SIZE,
        decode(opcode_at(s.ram, s.pc as int)) == Ok::<Instruction, InvalidOpcode>(
            Instruction::OpCode1NNN(s.pc),
        ),
        update_outcome(s, ONE_SECOND_IN_MICRO_SECONDS, randoms, r, t),
    ensures
        r is Ok,
        t.dt == 0,
        t.pc == s.pc,
{
    law_timer_one_second(s.dt);
    assert(randoms.len() == 700);
    lemma_self_jump_run(s, randoms);
}

/// While no key shows the released edge, cycles on a key-wait instruction
/// leave the program counter where it is. The first cycle with an edge puts
/// the first released key's digit in the target register, clears the edges
/// and moves on to the next instruction.
pub proof fn law_key_wait(s: CpuView, x: usize, randoms: Seq<u8>, random: u8)
    requires
        x < 16,
        s.v.len() == 16,
        s.keys.len() == KEY_COUNT,
        s.pc + 2 <= MEMORY_SIZE,
        decode(opcode_at(s.ram, s.pc as int)) == Ok::<Instruction, InvalidOpcode>(
            Instruction::OpCodeFX0A(x),
        ),
    ensures
        !any_released(s.keys) ==> run(s, randoms).1 is Ok && run(s, randoms).0.pc == s.pc,
        any_released(s.keys) ==> ({
            let t = step_spec(s, random)->Ok_0;
            &&& step_spec(s, random) is Ok
            &&& t.v[x as int] == first_released(s.keys)
            &&& t.pc == s.pc + 2
            &&& !any_released(t.keys)
        }),
    decreases randoms.len(),
{
    reveal(step_spec);
    if !any_released(s.keys) {
        if randoms.len() > 0 {
            let t = step_spec(s, randoms[0])->Ok_0;
            assert(without_released(s.keys) =~= s.keys);
            law_key_wait(t, x, randoms.drop_first(), random);
        }
    } else {
        let k = choose|k: int| 0 <= k < KEY_COUNT && s.keys[k] == KeyState::Released;
        let t = step_spec(s, random)->Ok_0;
        assert(exists|j: int| crate::cpu::is_first_released(s.keys, j)) by {
            lemma_first_released_exists(s.keys, k);
        }
        if any_released(t.keys) {
            let j = choose|j: int| 0 <= j < KEY_COUNT && t.keys[j] == KeyState::Released;
            assert(without_released(s.keys)[j] != KeyState::Released);
        }
    }
}

/// When some key shows the released edge, a first one does.
proof fn lemma_first_released_exists(keys: Seq<KeyState>, k: int)
    requires
        0 <= k < KEY_COUNT,
        keys[k] == KeyState::Released,
    ensures
        exists|j: int| crate::cpu::is_first_released(keys, j),
    decreases k,
{
    if forall|j: int| 0 <= j < k ==> keys[j] != KeyState::Released {
        assert(crate::cpu::is_first_released(keys, k));
    } else {
        let j = choose|j: int| 0 <= j < k && keys[j] == KeyState::Released;
        lemma_first_released_exists(keys, j);
    }
}

} // verus!
