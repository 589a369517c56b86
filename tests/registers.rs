use chip8_core::registers::{RegisterName, Registers};

#[test]
fn can_read_a_register() {
    let registers = Registers::new();
    let value = registers.read(RegisterName::PC);
    assert_eq!(value, 0);
}

#[test]
fn can_read_a_set_value() {
    let mut registers = Registers::new();
    let test_value = 0x2121;
    registers.set(RegisterName::I, test_value);
    let register_value = registers.read(RegisterName::I);
    assert_eq!(register_value, test_value);
}

#[test]
fn is_equal_determines_true_correctly() {
    let mut registers = Registers::new();
    let test_value = 0x3a;
    registers.set(RegisterName::V(3), test_value);
    registers.set(RegisterName::V(8), test_value);
    assert_eq!(
        registers.are_equal(RegisterName::V(3), RegisterName::V(8)),
        true
    );
}

#[test]
fn is_equal_determines_false_correctly() {
    let mut registers = Registers::new();
    let test_value_1 = 0x3a;
    let test_value_2 = 0x55;
    registers.set(RegisterName::V(3), test_value_1);
    registers.set(RegisterName::V(8), test_value_2);
    assert_eq!(
        registers.are_equal(RegisterName::V(3), RegisterName::V(8)),
        false
    );
}

#[test]
fn set_keeps_only_the_register_width() {
    let mut registers = Registers::new();
    registers.set(RegisterName::SP, 0x1ff);
    assert_eq!(registers.read(RegisterName::SP), 0xff);
    registers.set(RegisterName::PC, 0x1_2345);
    assert_eq!(registers.read(RegisterName::PC), 0x2345);
}

#[test]
fn increment_and_decrement_by_name() {
    let mut registers = Registers::new();
    registers.set(RegisterName::V(15), 0xfe);
    assert_eq!(registers.increment(RegisterName::V(15), 3), true);
    assert_eq!(registers.read(RegisterName::V(15)), 1);
    assert_eq!(registers.decrement(RegisterName::I, 1), true);
    assert_eq!(registers.read(RegisterName::I), 0xffff);
    assert_eq!(registers.decrement(RegisterName::I, 0xfff), false);
    assert_eq!(registers.read(RegisterName::I), 0xf000);
    assert_eq!(registers.read(RegisterName::V(14)), 0);
}
