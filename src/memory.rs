use vstd::prelude::*;
use vstd::slice::slice_subrange;

verus! {

/// Number of bytes of addressable memory.
pub const MEMORY_SIZE: usize = 4096;

/// An access whose range runs past the end of memory.
#[derive(Clone, Copy, Debug, PartialEq, Eq, Structural)]
pub struct OutOfBounds {
    /// First address of the range.
    pub offset: usize,
    /// Number of bytes in the range.
    pub length: usize,
}

/// Whether `length` bytes from `offset` lie inside memory.
pub open spec fn in_bounds(offset: int, length: int) -> bool {
    0 <= offset && 0 <= length && offset + length <= MEMORY_SIZE
}

/// Flat byte store with bounds-checked access.
pub struct Memory {
    pub data: [u8; MEMORY_SIZE],
}

impl View for Memory {
    type V = Seq<u8>;

    open spec fn view(&self) -> Seq<u8> {
        self.data@
    }
}

impl Memory {
    /// Memory with every byte zero.
    pub fn new() -> (r: Self)
        ensures
            r@ == Seq::new(MEMORY_SIZE as nat, |_i: int| 0u8),
    {
        let r = Self { data: [0u8; MEMORY_SIZE] };
        assert(r@ =~= Seq::new(MEMORY_SIZE as nat, |_i: int| 0u8));
        r
    }

    /// The `length` bytes from `offset`.
    pub fn read(&self, offset: usize, length: usize) -> (r: Result<&[u8], OutOfBounds>)
        ensures
            in_bounds(offset as int, length as int) ==> r is Ok && r->Ok_0@ == self@.subrange(
                offset as int,
                offset + length,
            ),
            !in_bounds(offset as int, length as int) ==> r == Err::<&[u8], OutOfBounds>(
                OutOfBounds { offset, length },
            ),
    {
        if offset > MEMORY_SIZE || length > MEMORY_SIZE - offset {
            return Err(OutOfBounds { offset, length });
        }
        Ok(slice_subrange(self.data.as_slice(), offset, offset + length))
    }

    /// Copies `buffer` into memory from `offset`.
    pub fn write(&mut self, offset: usize, buffer: &[u8]) -> (r: Result<(), OutOfBounds>)
        ensures
            in_bounds(offset as int, buffer@.len() as int) ==> r is Ok && final(self)@
                == written(old(self)@, offset as int, buffer@),
            !in_bounds(offset as int, buffer@.len() as int) ==> r == Err::<(), OutOfBounds>(
                OutOfBounds { offset, length: buffer@.len() as usize },
            ) && final(self)@ == old(self)@,
    {
        if offset > MEMORY_SIZE || buffer.len() > MEMORY_SIZE - offset {
            return Err(OutOfBounds { offset, length: buffer.len() });
        }
        let mut k: usize = 0;
        while k < buffer.len()
            invariant
                k <= buffer@.len(),
                offset + buffer@.len() <= MEMORY_SIZE,
                self@ == written(old(self)@, offset as int, buffer@.subrange(0, k as int)),
            decreases buffer@.len() - k,
        {
            self.data[offset + k] = buffer[k];
            k = k + 1;
            assert(self@ =~= written(old(self)@, offset as int, buffer@.subrange(0, k as int)));
        }
        assert(buffer@.subrange(0, k as int) =~= buffer@);
        Ok(())
    }

    /// Copies `bytes` into memory from `offset`; the same as `write`.
    pub fn load(&mut self, offset: usize, bytes: &[u8]) -> (r: Result<(), OutOfBounds>)
        ensures
            in_bounds(offset as int, bytes@.len() as int) ==> r is Ok && final(self)@ == written(
                old(self)@,
                offset as int,
                bytes@,
            ),
            !in_bounds(offset as int, bytes@.len() as int) ==> r == Err::<(), OutOfBounds>(
                OutOfBounds { offset, length: bytes@.len() as usize },
            ) && final(self)@ == old(self)@,
    {
        self.write(offset, bytes)
    }
}

/// `mem` with `bytes` copied in from `offset`.
pub open spec fn written(mem: Seq<u8>, offset: int, bytes: Seq<u8>) -> Seq<u8> {
    Seq::new(
        mem.len(),
        |a: int|
            if offset <= a < offset + bytes.len() {
                bytes[a - offset]
            } else {
                mem[a]
            },
    )
}

} // verus!
