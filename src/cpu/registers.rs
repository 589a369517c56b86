use vstd::prelude::*;

verus! {

/// Address at which programs are loaded, and where execution starts.
pub const PROGRAM_START_OFFSET: u16 = 0x200;

/// Number of general-purpose registers.
pub const V_REG_COUNT: usize = 16;

/// The processor's registers.
#[derive(Clone, Copy, Debug)]
pub struct Registers {
    /// Program counter.
    pub pc: u16,
    /// Address register.
    pub i: u16,
    /// Stack pointer: the number of return addresses on the stack.
    pub sp: u8,
    /// Delay timer.
    pub dt: u8,
    /// Sound timer.
    pub st: u8,
    /// General-purpose registers; the last one doubles as the flag.
    pub v: [u8; V_REG_COUNT],
}

impl Registers {
    /// Registers at power-on: the program counter at the load offset, the rest zero.
    pub fn new() -> (r: Self)
        ensures
            r.pc == PROGRAM_START_OFFSET,
            r.i == 0,
            r.sp == 0,
            r.dt == 0,
            r.st == 0,
            r.v@ == Seq::new(V_REG_COUNT as nat, |_k: int| 0u8),
    {
        let r = Self { pc: PROGRAM_START_OFFSET, i: 0, sp: 0, dt: 0, st: 0, v: [0u8; V_REG_COUNT] };
        assert(r.v@ =~= Seq::new(V_REG_COUNT as nat, |_k: int| 0u8));
        r
    }
}

} // verus!
