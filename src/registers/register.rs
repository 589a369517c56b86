//! A single register holding an unsigned word, with wrapping arithmetic
//! that reports overflow.
use vstd::prelude::*;

verus! {

/// An unsigned machine word: its value as a number, and the number of values it has.
pub trait Word: Copy + Sized {
    /// The word as a number, from 0 up to `modulus() - 1`.
    spec fn value(&self) -> int;

    /// The number of values the word can hold.
    spec fn modulus() -> int;

    /// The word zero.
    fn zero() -> (r: Self)
        ensures
            r.value() == 0,
    ;

    /// The sum, wrapped, and whether it wrapped.
    fn add_overflowing(self, other: Self) -> (r: (Self, bool))
        ensures
            r.0.value() == (self.value() + other.value()) % Self::modulus(),
            r.1 == (self.value() + other.value() >= Self::modulus()),
    ;

    /// The difference, wrapped, and whether it wrapped.
    fn sub_overflowing(self, other: Self) -> (r: (Self, bool))
        ensures
            r.0.value() == (self.value() - other.value()) % Self::modulus(),
            r.1 == (self.value() < other.value()),
    ;
}

impl Word for u8 {
    open spec fn value(&self) -> int {
        *self as int
    }

    open spec fn modulus() -> int {
        256
    }

    fn zero() -> (r: u8) {
        0
    }

    fn add_overflowing(self, other: u8) -> (r: (u8, bool)) {
        let wide = self as u16 + other as u16;
        if wide > 255 {
            ((wide - 256) as u8, true)
        } else {
            (wide as u8, false)
        }
    }

    fn sub_overflowing(self, other: u8) -> (r: (u8, bool)) {
        if self >= other {
            (self - other, false)
        } else {
            ((self as u16 + 256 - other as u16) as u8, true)
        }
    }
}

impl Word for u16 {
    open spec fn value(&self) -> int {
        *self as int
    }

    open spec fn modulus() -> int {
        65536
    }

    fn zero() -> (r: u16) {
        0
    }

    fn add_overflowing(self, other: u16) -> (r: (u16, bool)) {
        let wide = self as u32 + other as u32;
        if wide > 65535 {
            ((wide - 65536) as u16, true)
        } else {
            (wide as u16, false)
        }
    }

    fn sub_overflowing(self, other: u16) -> (r: (u16, bool)) {
        if self >= other {
            (self - other, false)
        } else {
            ((self as u32 + 65536 - other as u32) as u16, true)
        }
    }
}

impl Word for u32 {
    open spec fn value(&self) -> int {
        *self as int
    }

    open spec fn modulus() -> int {
        0x1_0000_0000
    }

    fn zero() -> (r: u32) {
        0
    }

    fn add_overflowing(self, other: u32) -> (r: (u32, bool)) {
        let wide = self as u64 + other as u64;
        if wide > 0xffff_ffff {
            ((wide - 0x1_0000_0000) as u32, true)
        } else {
            (wide as u32, false)
        }
    }

    fn sub_overflowing(self, other: u32) -> (r: (u32, bool)) {
        if self >= other {
            (self - other, false)
        } else {
            ((self as u64 + 0x1_0000_0000 - other as u64) as u32, true)
        }
    }
}

/// A register holding one word.
#[derive(Clone, Copy, Debug)]
pub struct Register<T> {
    pub value: T,
}

impl<T: Word> Register<T> {
    /// A register holding zero.
    pub fn new() -> (r: Self)
        ensures
            r.value.value() == 0,
    {
        Self { value: T::zero() }
    }

    /// Stores `value`.
    pub fn set(&mut self, value: T)
        ensures
            final(self).value == value,
    {
        self.value = value;
    }

    /// The stored word.
    pub fn read(&self) -> (r: T)
        ensures
            r == self.value,
    {
        self.value
    }

    /// Adds `value`, wrapping; returns whether the sum wrapped.
    pub fn increment(&mut self, value: T) -> (has_overflown: bool)
        ensures
            final(self).value.value() == (old(self).value.value() + value.value()) % T::modulus(),
            has_overflown == (old(self).value.value() + value.value() >= T::modulus()),
    {
        let (result, has_overflown) = self.value.add_overflowing(value);
        self.value = result;
        has_overflown
    }

    /// Subtracts `value`, wrapping; returns whether the difference wrapped.
    pub fn decrement(&mut self, value: T) -> (has_underflown: bool)
        ensures
            final(self).value.value() == (old(self).value.value() - value.value()) % T::modulus(),
            has_underflown == (old(self).value.value() < value.value()),
    {
        let (result, has_underflown) = self.value.sub_overflowing(value);
        self.value = result;
        has_underflown
    }
}

} // verus!
