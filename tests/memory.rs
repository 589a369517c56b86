use chip8_core::memory::{Memory, OutOfBounds};

#[test]
fn can_create_new_memory() {
    let memory = Memory::new();
    let is_equal = memory.data.iter().eq([0; 4096].iter());
    assert_eq!(is_equal, true);
}

#[test]
fn can_read_memory() {
    let mut memory = Memory::new();
    let offset = 0x13;
    memory.data[offset] = 0xa4;
    memory.data[offset + 1] = 0x22;
    let length = 3;
    let buffer = memory.read(offset, length).unwrap();
    let upper_bound = offset + length;
    let is_equal = buffer.iter().eq(memory.data[offset..upper_bound].iter());
    assert_eq!(is_equal, true);
}

#[test]
fn can_write_memory() {
    let mut memory = Memory::new();
    let offset = 0x43;
    let buffer = [0x22, 0x43, 0xa1].as_slice();
    let upper_limit = offset + buffer.len();
    memory.write(offset, buffer).unwrap();
    let is_equal = buffer.iter().eq(memory.data[offset..upper_limit].iter());
    assert_eq!(is_equal, true);
}

#[test]
fn read_past_the_end_is_out_of_bounds() {
    let memory = Memory::new();
    assert_eq!(memory.read(4094, 3), Err(OutOfBounds { offset: 4094, length: 3 }));
    assert_eq!(memory.read(4093, 3).unwrap(), &[0, 0, 0]);
    assert_eq!(memory.read(4097, 0), Err(OutOfBounds { offset: 4097, length: 0 }));
}

#[test]
fn write_past_the_end_changes_nothing() {
    let mut memory = Memory::new();
    assert_eq!(memory.write(4095, &[1, 2]), Err(OutOfBounds { offset: 4095, length: 2 }));
    assert_eq!(memory.data[4095], 0);
    assert_eq!(memory.load(4094, &[7, 8]), Ok(()));
    assert_eq!(memory.data[4094], 7);
    assert_eq!(memory.data[4095], 8);
}
