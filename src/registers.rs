//! A bank of registers addressed by name: the address register, program
//! counter and stack pointer, the two timers, and the sixteen general ones.
//! Every register starts at zero.
use vstd::prelude::*;
use register::{Register, Word};

pub mod register;

verus! {

/// Number of general-purpose registers.
pub const V_REG_COUNT: usize = 16;

/// The name of a register.
#[derive(Clone, Copy, Debug, PartialEq, Eq, Hash, Structural)]
pub enum RegisterName {
    I,
    PC,
    SP,
    DT,
    ST,
    /// General-purpose register with the given index, below 16.
    V(usize),
}

/// Whether `name` names a register of the bank.
pub open spec fn is_valid(name: RegisterName) -> bool {
    match name {
        RegisterName::V(k) => k < V_REG_COUNT,
        _ => true,
    }
}

/// The number of values the register `name` holds: the address register and
/// the program counter are 16 bits wide, the others 8.
pub open spec fn width(name: RegisterName) -> int {
    match name {
        RegisterName::I | RegisterName::PC => 65536,
        _ => 256,
    }
}

/// The register bank.
pub struct Registers {
    i: Register<u16>,
    pc: Register<u16>,
    sp: Register<u8>,
    dt: Register<u8>,
    st: Register<u8>,
    v: [Register<u8>; V_REG_COUNT],
}

impl Registers {
    /// The value of register `name`.
    pub closed spec fn get(&self, name: RegisterName) -> int {
        match name {
            RegisterName::I => self.i.value as int,
            RegisterName::PC => self.pc.value as int,
            RegisterName::SP => self.sp.value as int,
            RegisterName::DT => self.dt.value as int,
            RegisterName::ST => self.st.value as int,
            RegisterName::V(k) => self.v[k as int].value as int,
        }
    }

    /// A bank with every register zero.
    pub fn new() -> (r: Self)
        ensures
            forall|name: RegisterName| is_valid(name) ==> #[trigger] r.get(name) == 0,
    {
        Self {
            i: Register::new(),
            pc: Register::new(),
            sp: Register::new(),
            dt: Register::new(),
            st: Register::new(),
            v: [Register { value: 0u8 }; V_REG_COUNT],
        }
    }

    /// The value of register `name`.
    pub fn read(&self, name: RegisterName) -> (r: usize)
        requires
            is_valid(name),
        ensures
            r == self.get(name),
    {
        match name {
            RegisterName::I => self.i.read() as usize,
            RegisterName::PC => self.pc.read() as usize,
            RegisterName::SP => self.sp.read() as usize,
            RegisterName::DT => self.dt.read() as usize,
            RegisterName::ST => self.st.read() as usize,
            RegisterName::V(k) => self.v[k].read() as usize,
        }
    }

    /// Stores `value` in register `name`, keeping as many low bits as the register is wide.
    pub fn set(&mut self, name: RegisterName, value: usize)
        requires
            is_valid(name),
        ensures
            final(self).get(name) == value as int % width(name),
            forall|other: RegisterName|
                is_valid(other) && other != name ==> #[trigger] final(self).get(other) == old(
                    self,
                ).get(other),
    {
        match name {
            RegisterName::I => self.i.set((value % 65536) as u16),
            RegisterName::PC => self.pc.set((value % 65536) as u16),
            RegisterName::SP => self.sp.set((value % 256) as u8),
            RegisterName::DT => self.dt.set((value % 256) as u8),
            RegisterName::ST => self.st.set((value % 256) as u8),
            RegisterName::V(k) => self.v[k].set((value % 256) as u8),
        }
    }

    /// Adds the low bits of `value` to register `name`, wrapping; returns
    /// whether the sum wrapped.
    pub fn increment(&mut self, name: RegisterName, value: usize) -> (has_overflown: bool)
        requires
            is_valid(name),
        ensures
            final(self).get(name) == (old(self).get(name) + value as int % width(name)) % width(name),
            has_overflown == (old(self).get(name) + value as int % width(name) >= width(name)),
            forall|other: RegisterName|
                is_valid(other) && other != name ==> #[trigger] final(self).get(other) == old(
                    self,
                ).get(other),
    {
        match name {
            RegisterName::I => self.i.increment((value % 65536) as u16),
            RegisterName::PC => self.pc.increment((value % 65536) as u16),
            RegisterName::SP => self.sp.increment((value % 256) as u8),
            RegisterName::DT => self.dt.increment((value % 256) as u8),
            RegisterName::ST => self.st.increment((value % 256) as u8),
            RegisterName::V(k) => self.v[k].increment((value % 256) as u8),
        }
    }

    /// Subtracts the low bits of `value` from register `name`, wrapping;
    /// returns whether the difference wrapped.
    pub fn decrement(&mut self, name: RegisterName, value: usize) -> (has_underflown: bool)
        requires
            is_valid(name),
        ensures
            final(self).get(name) == (old(self).get(name) - value as int % width(name)) % width(name),
            has_underflown == (old(self).get(name) < value as int % width(name)),
            forall|other: RegisterName|
                is_valid(other) && other != name ==> #[trigger] final(self).get(other) == old(
                    self,
                ).get(other),
    {
        match name {
            RegisterName::I => self.i.decrement((value % 65536) as u16),
            RegisterName::PC => self.pc.decrement((value % 65536) as u16),
            RegisterName::SP => self.sp.decrement((value % 256) as u8),
            RegisterName::DT => self.dt.decrement((value % 256) as u8),
            RegisterName::ST => self.st.decrement((value % 256) as u8),
            RegisterName::V(k) => self.v[k].decrement((value % 256) as u8),
        }
    }

    /// Whether registers `a` and `b` hold the same value.
    pub fn are_equal(&self, a: RegisterName, b: RegisterName) -> (r: bool)
        requires
            is_valid(a),
            is_valid(b),
        ensures
            r == (self.get(a) == self.get(b)),
    {
        self.read(a) == self.read(b)
    }
}

} // verus!
