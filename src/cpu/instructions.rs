use vstd::prelude::*;

verus! {

/// A decoded instruction with its operands: register indices (`usize`,
/// below 16), bytes (`u8`), 12-bit addresses (`u16`) and nibble counts.
#[derive(Clone, Copy, Debug, PartialEq, Eq, Structural)]
pub enum Instruction {
    /// `00E0`: clear the display.
    OpCode00E0,
    /// `00EE`: return from a subroutine.
    OpCode00EE,
    /// `1nnn`: jump to `nnn`.
    OpCode1NNN(u16),
    /// `2nnn`: call the subroutine at `nnn`.
    OpCode2NNN(u16),
    /// `3xnn`: skip the next instruction if `Vx == nn`.
    OpCode3XNN(usize, u8),
    /// `4xnn`: skip the next instruction if `Vx != nn`.
    OpCode4XNN(usize, u8),
    /// `5xy0`: skip the next instruction if `Vx == Vy`.
    OpCode5XY0(usize, usize),
    /// `6xnn`: `Vx = nn`.
    OpCode6XNN(usize, u8),
    /// `7xnn`: `Vx = Vx + nn`, wrapping, flag untouched.
    OpCode7XNN(usize, u8),
    /// `8xy0`: `Vx = Vy`.
    OpCode8XY0(usize, usize),
    /// `8xy1`: `Vx = Vx | Vy`.
    OpCode8XY1(usize, usize),
    /// `8xy2`: `Vx = Vx & Vy`.
    OpCode8XY2(usize, usize),
    /// `8xy3`: `Vx = Vx ^ Vy`.
    OpCode8XY3(usize, usize),
    /// `8xy4`: `Vx = Vx + Vy`, `VF` = carry.
    OpCode8XY4(usize, usize),
    /// `8xy5`: `Vx = Vx - Vy`, `VF` = no borrow.
    OpCode8XY5(usize, usize),
    /// `8xy6`: `Vx = Vy >> 1`, `VF` = the bit shifted out.
    OpCode8XY6(usize, usize),
    /// `8xy7`: `Vx = Vy - Vx`, `VF` = no borrow.
    OpCode8XY7(usize, usize),
    /// `8xyE`: `Vx = Vy << 1`, `VF` = the bit shifted out.
    OpCode8XYE(usize, usize),
    /// `9xy0`: skip the next instruction if `Vx != Vy`.
    OpCode9XY0(usize, usize),
    /// `Annn`: `I = nnn`.
    OpCodeANNN(u16),
    /// `Bnnn`: jump to `nnn + V0`.
    OpCodeBNNN(u16),
    /// `Cxnn`: `Vx` = a random byte `& nn`.
    OpCodeCXNN(usize, u8),
    /// `Dxyn`: draw the `n`-byte sprite at `I` at (`Vx`, `Vy`), `VF` = collision.
    OpCodeDXYN(usize, usize, u8),
    /// `Ex9E`: skip the next instruction if the key named by `Vx` is pressed.
    OpCodeEX9E(usize),
    /// `ExA1`: skip the next instruction if the key named by `Vx` is not pressed.
    OpCodeEXA1(usize),
    /// `Fx07`: `Vx` = delay timer.
    OpCodeFX07(usize),
    /// `Fx0A`: wait for a key to be released and put its digit in `Vx`.
    OpCodeFX0A(usize),
    /// `Fx15`: delay timer = `Vx`.
    OpCodeFX15(usize),
    /// `Fx18`: sound timer = `Vx`.
    OpCodeFX18(usize),
    /// `Fx1E`: `I = I + Vx`, wrapping.
    OpCodeFX1E(usize),
    /// `Fx29`: `I` = address of the glyph for the low digit of `Vx`.
    OpCodeFX29(usize),
    /// `Fx33`: the decimal digits of `Vx` at `I`, `I+1`, `I+2`.
    OpCodeFX33(usize),
    /// `Fx55`: store `V0..=Vx` from `I`.
    OpCodeFX55(usize),
    /// `Fx65`: load `V0..=Vx` from `I`.
    OpCodeFX65(usize),
}

/// A 16-bit word that encodes no instruction.
#[derive(Clone, Copy, Debug, PartialEq, Eq, Structural)]
pub struct InvalidOpcode {
    pub opcode: u16,
}

/// The instruction family: the top nibble.
pub open spec fn op_family(opcode: u16) -> u16 {
    (opcode & 0xf000u16) >> 12u16
}

/// The first register operand: the second nibble.
pub open spec fn op_x(opcode: u16) -> u16 {
    (opcode & 0x0f00u16) >> 8u16
}

/// The second register operand: the third nibble.
pub open spec fn op_y(opcode: u16) -> u16 {
    (opcode & 0x00f0u16) >> 4u16
}

/// The low nibble.
pub open spec fn op_n(opcode: u16) -> u16 {
    opcode & 0x000fu16
}

/// The low byte.
pub open spec fn op_nn(opcode: u16) -> u8 {
    (opcode & 0x00ffu16) as u8
}

/// The low twelve bits, an address.
pub open spec fn op_nnn(opcode: u16) -> u16 {
    opcode & 0x0fffu16
}

/// The instruction that `opcode` encodes.
pub open spec fn decode(opcode: u16) -> Result<Instruction, InvalidOpcode> {
    let x = op_x(opcode) as usize;
    let y = op_y(opcode) as usize;
    let n = op_n(opcode);
    let nn = op_nn(opcode);
    let nnn = op_nnn(opcode);
    match op_family(opcode) {
        0x0 => if opcode == 0x00e0 {
            Ok(Instruction::OpCode00E0)
        } else if opcode == 0x00ee {
            Ok(Instruction::OpCode00EE)
        } else {
            Err(InvalidOpcode { opcode })
        },
        0x1 => Ok(Instruction::OpCode1NNN(nnn)),
        0x2 => Ok(Instruction::OpCode2NNN(nnn)),
        0x3 => Ok(Instruction::OpCode3XNN(x, nn)),
        0x4 => Ok(Instruction::OpCode4XNN(x, nn)),
        0x5 => if n == 0 {
            Ok(Instruction::OpCode5XY0(x, y))
        } else {
            Err(InvalidOpcode { opcode })
        },
        0x6 => Ok(Instruction::OpCode6XNN(x, nn)),
        0x7 => Ok(Instruction::OpCode7XNN(x, nn)),
        0x8 => match n {
            0x0 => Ok(Instruction::OpCode8XY0(x, y)),
            0x1 => Ok(Instruction::OpCode8XY1(x, y)),
            0x2 => Ok(Instruction::OpCode8XY2(x, y)),
            0x3 => Ok(Instruction::OpCode8XY3(x, y)),
            0x4 => Ok(Instruction::OpCode8XY4(x, y)),
            0x5 => Ok(Instruction::OpCode8XY5(x, y)),
            0x6 => Ok(Instruction::OpCode8XY6(x, y)),
            0x7 => Ok(Instruction::OpCode8XY7(x, y)),
            0xe => Ok(Instruction::OpCode8XYE(x, y)),
            _ => Err(InvalidOpcode { opcode }),
        },
        0x9 => if n == 0 {
            Ok(Instruction::OpCode9XY0(x, y))
        } else {
            Err(InvalidOpcode { opcode })
        },
        0xa => Ok(Instruction::OpCodeANNN(nnn)),
        0xb => Ok(Instruction::OpCodeBNNN(nnn)),
        0xc => Ok(Instruction::OpCodeCXNN(x, nn)),
        0xd => Ok(Instruction::OpCodeDXYN(x, y, n as u8)),
        0xe => match nn {
            0x9e => Ok(Instruction::OpCodeEX9E(x)),
            0xa1 => Ok(Instruction::OpCodeEXA1(x)),
            _ => Err(InvalidOpcode { opcode }),
        },
        _ => match nn {
            0x07 => Ok(Instruction::OpCodeFX07(x)),
            0x0a => Ok(Instruction::OpCodeFX0A(x)),
            0x15 => Ok(Instruction::OpCodeFX15(x)),
            0x18 => Ok(Instruction::OpCodeFX18(x)),
            0x1e => Ok(Instruction::OpCodeFX1E(x)),
            0x29 => Ok(Instruction::OpCodeFX29(x)),
            0x33 => Ok(Instruction::OpCodeFX33(x)),
            0x55 => Ok(Instruction::OpCodeFX55(x)),
            0x65 => Ok(Instruction::OpCodeFX65(x)),
            _ => Err(InvalidOpcode { opcode }),
        },
    }
}

/// Whether every register index and nibble among the operands is below 16,
/// and every address fits in twelve bits.
pub open spec fn operands_in_range(instruction: Instruction) -> bool {
    match instruction {
        Instruction::OpCode3XNN(x, _) | Instruction::OpCode4XNN(x, _) | Instruction::OpCode6XNN(
            x,
            _,
        ) | Instruction::OpCode7XNN(x, _) | Instruction::OpCodeCXNN(x, _) => x < 16,
        Instruction::OpCode5XY0(x, y) | Instruction::OpCode8XY0(x, y) | Instruction::OpCode8XY1(
            x,
            y,
        ) | Instruction::OpCode8XY2(x, y) | Instruction::OpCode8XY3(x, y)
        | Instruction::OpCode8XY4(x, y) | Instruction::OpCode8XY5(x, y)
        | Instruction::OpCode8XY6(x, y) | Instruction::OpCode8XY7(x, y)
        | Instruction::OpCode8XYE(x, y) | Instruction::OpCode9XY0(x, y)
        => x < 16 && y < 16,
        Instruction::OpCodeDXYN(x, y, n) => x < 16 && y < 16 && n < 16,
        Instruction::OpCode1NNN(nnn) | Instruction::OpCode2NNN(nnn) | Instruction::OpCodeANNN(nnn)
        | Instruction::OpCodeBNNN(nnn) => nnn <= 0xfff,
        Instruction::OpCodeEX9E(x) | Instruction::OpCodeEXA1(x) | Instruction::OpCodeFX07(x)
        | Instruction::OpCodeFX0A(x) | Instruction::OpCodeFX15(x) | Instruction::OpCodeFX18(x)
        | Instruction::OpCodeFX1E(x) | Instruction::OpCodeFX29(x) | Instruction::OpCodeFX33(x)
        | Instruction::OpCodeFX55(x) | Instruction::OpCodeFX65(x) => x < 16,
        _ => true,
    }
}

/// Decoding only ever yields register indices below 16.
pub proof fn lemma_decode_operands(opcode: u16)
    ensures
        decode(opcode) is Ok ==> operands_in_range(decode(opcode)->Ok_0),
{
    assert(op_x(opcode) < 16 && op_y(opcode) < 16 && op_n(opcode) < 16 && op_nnn(opcode) <= 0xfff)
        by (bit_vector);
}

impl TryFrom<u16> for Instruction {
    type Error = InvalidOpcode;

    fn try_from(opcode: u16) -> (r: Result<Instruction, InvalidOpcode>) {
        let op_type = (opcode & 0xf000u16) >> 12u16;
        let x = ((opcode & 0x0f00u16) >> 8u16) as usize;
        let y = ((opcode & 0x00f0u16) >> 4u16) as usize;
        let nnn = opcode & 0x0fffu16;
        let nn = (opcode & 0x00ffu16) as u8;
        let n = opcode & 0x000fu16;
        match op_type {
            0x0 => if opcode == 0x00e0 {
                Ok(Instruction::OpCode00E0)
            } else if opcode == 0x00ee {
                Ok(Instruction::OpCode00EE)
            } else {
                Err(InvalidOpcode { opcode })
            },
            0x1 => Ok(Instruction::OpCode1NNN(nnn)),
            0x2 => Ok(Instruction::OpCode2NNN(nnn)),
            0x3 => Ok(Instruction::OpCode3XNN(x, nn)),
            0x4 => Ok(Instruction::OpCode4XNN(x, nn)),
            0x5 => if n == 0 {
                Ok(Instruction::OpCode5XY0(x, y))
            } else {
                Err(InvalidOpcode { opcode })
            },
            0x6 => Ok(Instruction::OpCode6XNN(x, nn)),
            0x7 => Ok(Instruction::OpCode7XNN(x, nn)),
            0x8 => match n {
                0x0 => Ok(Instruction::OpCode8XY0(x, y)),
                0x1 => Ok(Instruction::OpCode8XY1(x, y)),
                0x2 => Ok(Instruction::OpCode8XY2(x, y)),
                0x3 => Ok(Instruction::OpCode8XY3(x, y)),
                0x4 => Ok(Instruction::OpCode8XY4(x, y)),
                0x5 => Ok(Instruction::OpCode8XY5(x, y)),
                0x6 => Ok(Instruction::OpCode8XY6(x, y)),
                0x7 => Ok(Instruction::OpCode8XY7(x, y)),
                0xe => Ok(Instruction::OpCode8XYE(x, y)),
                _ => Err(InvalidOpcode { opcode }),
            },
            0x9 => if n == 0 {
                Ok(Instruction::OpCode9XY0(x, y))
            } else {
                Err(InvalidOpcode { opcode })
            },
            0xa => Ok(Instruction::OpCodeANNN(nnn)),
            0xb => Ok(Instruction::OpCodeBNNN(nnn)),
            0xc => Ok(Instruction::OpCodeCXNN(x, nn)),
            0xd => Ok(Instruction::OpCodeDXYN(x, y, n as u8)),
            0xe => match nn {
                0x9e => Ok(Instruction::OpCodeEX9E(x)),
                0xa1 => Ok(Instruction::OpCodeEXA1(x)),
                _ => Err(InvalidOpcode { opcode }),
            },
            _ => match nn {
                0x07 => Ok(Instruction::OpCodeFX07(x)),
                0x0a => Ok(Instruction::OpCodeFX0A(x)),
                0x15 => Ok(Instruction::OpCodeFX15(x)),
                0x18 => Ok(Instruction::OpCodeFX18(x)),
                0x1e => Ok(Instruction::OpCodeFX1E(x)),
                0x29 => Ok(Instruction::OpCodeFX29(x)),
                0x33 => Ok(Instruction::OpCodeFX33(x)),
                0x55 => Ok(Instruction::OpCodeFX55(x)),
                0x65 => Ok(Instruction::OpCodeFX65(x)),
                _ => Err(InvalidOpcode { opcode }),
            },
        }
    }
}

impl vstd::std_specs::convert::TryFromSpecImpl<u16> for Instruction {
    open spec fn obeys_try_from_spec() -> bool {
        true
    }

    open spec fn try_from_spec(opcode: u16) -> Result<Instruction, InvalidOpcode> {
        decode(opcode)
    }
}

} // verus!
