//! The CHIP-8 instruction set and the decision of which instruction an
//! opcode names.
use vstd::prelude::*;

use crate::cpu::DecodedOpcode;

verus! {

/// The instructions that the machine knows, named by their opcode
/// pattern (X and Y are register numbers, N a nibble, NN a byte and NNN
/// an address).
#[allow(non_camel_case_types)]
#[derive(Debug, Clone, Copy, PartialEq, Eq, Structural)]
pub enum Chip8Instruction {
    _00E0,
    _00EE,
    _1NNN,
    _2NNN,
    _3XNN,
    _4XNN,
    _5XY0,
    _6XNN,
    _7XNN,
    _8XY0,
    _8XY1,
    _8XY2,
    _8XY3,
    _8XY4,
    _8XY5,
    _8XY6,
    _8XY7,
    _8XYE,
    _9XY0,
    _ANNN,
    _BNNN,
    _BXNN,
    _CXNN,
    _DXYN,
    _EX9A,
    _EXA1,
    _FX07,
    _FX0A,
    _FX15,
    _FX18,
    _FX29,
    _FX1E,
    _FX33,
    _FX55,
    _FX65,
}

/// The instruction that an opcode names, given its first nibble `n1`, its
/// last nibble `n` and its low byte `nn`; `None` for an opcode that the
/// machine does not know. Opcodes that start with B jump by V0 on the
/// original hardware and by VX otherwise.
pub open spec fn instruction_spec(n1: u8, n: u8, nn: u8, og_behaviour: bool) -> Option<
    Chip8Instruction,
> {
    if n1 == 0x0 {
        if nn == 0xE0 {
            Some(Chip8Instruction::_00E0)
        } else if nn == 0xEE {
            Some(Chip8Instruction::_00EE)
        } else {
            None
        }
    } else if n1 == 0x1 {
        Some(Chip8Instruction::_1NNN)
    } else if n1 == 0x2 {
        Some(Chip8Instruction::_2NNN)
    } else if n1 == 0x3 {
        Some(Chip8Instruction::_3XNN)
    } else if n1 == 0x4 {
        Some(Chip8Instruction::_4XNN)
    } else if n1 == 0x5 {
        Some(Chip8Instruction::_5XY0)
    } else if n1 == 0x6 {
        Some(Chip8Instruction::_6XNN)
    } else if n1 == 0x7 {
        Some(Chip8Instruction::_7XNN)
    } else if n1 == 0x8 {
        if n == 0x0 {
            Some(Chip8Instruction::_8XY0)
        } else if n == 0x1 {
            Some(Chip8Instruction::_8XY1)
        } else if n == 0x2 {
            Some(Chip8Instruction::_8XY2)
        } else if n == 0x3 {
            Some(Chip8Instruction::_8XY3)
        } else if n == 0x4 {
            Some(Chip8Instruction::_8XY4)
        } else if n == 0x5 {
            Some(Chip8Instruction::_8XY5)
        } else if n == 0x6 {
            Some(Chip8Instruction::_8XY6)
        } else if n == 0x7 {
            Some(Chip8Instruction::_8XY7)
        } else if n == 0xE {
            Some(Chip8Instruction::_8XYE)
        } else {
            None
        }
    } else if n1 == 0x9 {
        Some(Chip8Instruction::_9XY0)
    } else if n1 == 0xA {
        Some(Chip8Instruction::_ANNN)
    } else if n1 == 0xB {
        if og_behaviour {
            Some(Chip8Instruction::_BNNN)
        } else {
            Some(Chip8Instruction::_BXNN)
        }
    } else if n1 == 0xC {
        Some(Chip8Instruction::_CXNN)
    } else if n1 == 0xD {
        Some(Chip8Instruction::_DXYN)
    } else if n1 == 0xE {
        if nn == 0x9E {
            Some(Chip8Instruction::_EX9A)
        } else if nn == 0xA1 {
            Some(Chip8Instruction::_EXA1)
        } else {
            None
        }
    } else if n1 == 0xF {
        if nn == 0x07 {
            Some(Chip8Instruction::_FX07)
        } else if nn == 0x0A {
            Some(Chip8Instruction::_FX0A)
        } else if nn == 0x15 {
            Some(Chip8Instruction::_FX15)
        } else if nn == 0x18 {
            Some(Chip8Instruction::_FX18)
        } else if nn == 0x29 {
            Some(Chip8Instruction::_FX29)
        } else if nn == 0x1E {
            Some(Chip8Instruction::_FX1E)
        } else if nn == 0x33 {
            Some(Chip8Instruction::_FX33)
        } else if nn == 0x55 {
            Some(Chip8Instruction::_FX55)
        } else if nn == 0x65 {
            Some(Chip8Instruction::_FX65)
        } else {
            None
        }
    } else {
        None
    }
}

/// Tells which instruction a decoded opcode names: `Ok` with it, or
/// `Err(())` for an opcode that the machine does not know.
pub fn get_instruction(decoded: &DecodedOpcode, og_behaviour: bool) -> (r: Result<
    Chip8Instruction,
    (),
>)
    ensures
        match instruction_spec(decoded.n1, decoded.n, decoded.nn, og_behaviour) {
            Some(i) => r == Ok::<Chip8Instruction, ()>(i),
            None => r is Err,
        },
{
    match decoded.n1 {
        0x0 => match decoded.nn {
            0xE0 => return Ok(Chip8Instruction::_00E0),
            0xEE => return Ok(Chip8Instruction::_00EE),
            _ => return Err(()),
        },
        0x1 => return Ok(Chip8Instruction::_1NNN),
        0x2 => return Ok(Chip8Instruction::_2NNN),
        0x3 => return Ok(Chip8Instruction::_3XNN),
        0x4 => return Ok(Chip8Instruction::_4XNN),
        0x5 => return Ok(Chip8Instruction::_5XY0),
        0x6 => return Ok(Chip8Instruction::_6XNN),
        0x7 => return Ok(Chip8Instruction::_7XNN),
        0x8 => match decoded.n {
            0x0 => return Ok(Chip8Instruction::_8XY0),
            0x1 => return Ok(Chip8Instruction::_8XY1),
            0x2 => return Ok(Chip8Instruction::_8XY2),
            0x3 => return Ok(Chip8Instruction::_8XY3),
            0x4 => return Ok(Chip8Instruction::_8XY4),
            0x5 => return Ok(Chip8Instruction::_8XY5),
            0x6 => return Ok(Chip8Instruction::_8XY6),
            0x7 => return Ok(Chip8Instruction::_8XY7),
            0xE => return Ok(Chip8Instruction::_8XYE),
            _ => return Err(()),
        },
        0x9 => return Ok(Chip8Instruction::_9XY0),
        0xA => return Ok(Chip8Instruction::_ANNN),
        0xB => {
            if og_behaviour {
                return Ok(Chip8Instruction::_BNNN);
            }
            return Ok(Chip8Instruction::_BXNN);
        },
        0xC => return Ok(Chip8Instruction::_CXNN),
        0xD => return Ok(Chip8Instruction::_DXYN),
        0xE => {
            match decoded.nn {
                0x9E => return Ok(Chip8Instruction::_EX9A),
                0xA1 => return Ok(Chip8Instruction::_EXA1),
                _ => return Err(()),
            };
        },
        0xF => {
            match decoded.nn {
                0x07 => return Ok(Chip8Instruction::_FX07),
                0x0A => return Ok(Chip8Instruction::_FX0A),
                0x15 => return Ok(Chip8Instruction::_FX15),
                0x18 => return Ok(Chip8Instruction::_FX18),
                0x29 => return Ok(Chip8Instruction::_FX29),
                0x1E => return Ok(Chip8Instruction::_FX1E),
                0x33 => return Ok(Chip8Instruction::_FX33),
                0x55 => return Ok(Chip8Instruction::_FX55),
                0x65 => return Ok(Chip8Instruction::_FX65),
                _ => return Err(()),
            };
        },
        _ => return Err(()),
    };
}

} // verus!
