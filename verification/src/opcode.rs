use vstd::prelude::*;

use crate::error::EmulatorError;
use crate::registers::{lemma_reg_roundtrip, reg_of, Reg};
use crate::utils::{addr_of, low_byte, nib0, nib1, nib2, nib3, stretch_u16};
use crate::utils::lemma_field_bounds;

verus! {

/// One decoded instruction, tagged by the classic mnemonic shape. Register
/// operands are addressed by their nibble position in the raw word.
#[derive(Copy, Clone, Debug, PartialEq, Eq, Structural)]
#[allow(clippy::upper_case_acronyms)]
pub enum OpCode {
    /// Clear the screen.
    _00E0,
    /// Return from a subroutine.
    _00EE,
    /// Jump to an absolute address.
    _1NNN(u16),
    /// Call the subroutine at an absolute address.
    _2NNN(u16),
    /// Skip the next instruction if the register equals the immediate.
    _3XNN { reg: Reg, value: u8 },
    /// Skip the next instruction if the register differs from the immediate.
    _4XNN { reg: Reg, value: u8 },
    /// Skip the next instruction if the two registers are equal.
    _5XY0 { x: Reg, y: Reg },
    /// Load an immediate into a register.
    _6XNN { reg: Reg, value: u8 },
    /// Wrapping-add an immediate into a register (no flag change).
    _7XNN { reg: Reg, value: u8 },
    /// Copy register Y into register X.
    _8XY0 { x: Reg, y: Reg },
    /// Bitwise OR of the two registers into X.
    _8XY1 { x: Reg, y: Reg },
    /// Bitwise AND of the two registers into X.
    _8XY2 { x: Reg, y: Reg },
    /// Bitwise XOR of the two registers into X.
    _8XY3 { x: Reg, y: Reg },
    /// Wrapping add with carry-out into the flag register.
    _8XY4 { x: Reg, y: Reg },
    /// X minus Y with the no-borrow signal in the flag register.
    _8XY5 { x: Reg, y: Reg },
    /// Shift X right by one; the shifted-out bit goes to the flag register.
    _8XY6 { x: Reg, y: Reg },
    /// Y minus X into X with the no-borrow signal in the flag register.
    _8XY7 { x: Reg, y: Reg },
    /// Shift X left by one; the shifted-out bit goes to the flag register.
    _8XYE { x: Reg, y: Reg },
    /// Skip the next instruction if the two registers differ.
    _9XY0 { x: Reg, y: Reg },
    /// Set the index register to an absolute address.
    ANNN(u16),
    /// Jump to an absolute address plus register V0.
    BNNN(u16),
    /// Random byte AND an immediate mask, stored in a register.
    CXNN { reg: Reg, value: u8 },
    /// Draw a sprite of the given height at coordinates taken from two
    /// registers.
    DXYN { x: Reg, y: Reg, height: u8 },
    /// Skip the next instruction if the key named by the register is down.
    EX9E(Reg),
    /// Skip the next instruction if the key named by the register is up.
    EXA1(Reg),
    /// Copy the delay timer into a register.
    FX07(Reg),
    /// Block until a key press and store the key in a register.
    FX0A(Reg),
    /// Copy a register into the delay timer.
    FX15(Reg),
    /// Copy a register into the sound timer.
    FX18(Reg),
    /// Wrapping-add a register into the index register.
    FX1E(Reg),
    /// Point the index register at the font glyph for a register's value.
    FX29(Reg),
    /// Write the decimal digits of a register to memory at the index
    /// register.
    FX33(Reg),
    /// Store registers V0 through X to memory at the index register.
    FX55(Reg),
    /// Load registers V0 through X from memory at the index register.
    FX65(Reg),
}

/// The fixed priority-ordered decode table: the instruction encoded by a
/// 16-bit word, or nothing when the word matches no known shape.
pub open spec fn spec_decode(w: u16) -> Option<OpCode> {
    let x = reg_of(nib1(w));
    let y = reg_of(nib2(w));
    let n = nib3(w);
    let nn = low_byte(w);
    let nnn = addr_of(w);
    if w == 0x00E0 {
        Some(OpCode::_00E0)
    } else if w == 0x00EE {
        Some(OpCode::_00EE)
    } else if nib0(w) == 0x1 {
        Some(OpCode::_1NNN(nnn))
    } else if nib0(w) == 0x2 {
        Some(OpCode::_2NNN(nnn))
    } else if nib0(w) == 0x3 {
        Some(OpCode::_3XNN { reg: x, value: nn })
    } else if nib0(w) == 0x4 {
        Some(OpCode::_4XNN { reg: x, value: nn })
    } else if nib0(w) == 0x5 && n == 0x0 {
        Some(OpCode::_5XY0 { x, y })
    } else if nib0(w) == 0x6 {
        Some(OpCode::_6XNN { reg: x, value: nn })
    } else if nib0(w) == 0x7 {
        Some(OpCode::_7XNN { reg: x, value: nn })
    } else if nib0(w) == 0x8 && n == 0x0 {
        Some(OpCode::_8XY0 { x, y })
    } else if nib0(w) == 0x8 && n == 0x1 {
        Some(OpCode::_8XY1 { x, y })
    } else if nib0(w) == 0x8 && n == 0x2 {
        Some(OpCode::_8XY2 { x, y })
    } else if nib0(w) == 0x8 && n == 0x3 {
        Some(OpCode::_8XY3 { x, y })
    } else if nib0(w) == 0x8 && n == 0x4 {
        Some(OpCode::_8XY4 { x, y })
    } else if nib0(w) == 0x8 && n == 0x5 {
        Some(OpCode::_8XY5 { x, y })
    } else if nib0(w) == 0x8 && n == 0x6 {
        Some(OpCode::_8XY6 { x, y })
    } else if nib0(w) == 0x8 && n == 0x7 {
        Some(OpCode::_8XY7 { x, y })
    } else if nib0(w) == 0x8 && n == 0xE {
        Some(OpCode::_8XYE { x, y })
    } else if nib0(w) == 0x9 && n == 0x0 {
        Some(OpCode::_9XY0 { x, y })
    } else if nib0(w) == 0xA {
        Some(OpCode::ANNN(nnn))
    } else if nib0(w) == 0xB {
        Some(OpCode::BNNN(nnn))
    } else if nib0(w) == 0xC {
        Some(OpCode::CXNN { reg: x, value: nn })
    } else if nib0(w) == 0xD {
        Some(OpCode::DXYN { x, y, height: n })
    } else if nib0(w) == 0xE && nn == 0x9E {
        Some(OpCode::EX9E(x))
    } else if nib0(w) == 0xE && nn == 0xA1 {
        Some(OpCode::EXA1(x))
    } else if nib0(w) == 0xF && nn == 0x07 {
        Some(OpCode::FX07(x))
    } else if nib0(w) == 0xF && nn == 0x0A {
        Some(OpCode::FX0A(x))
    } else if nib0(w) == 0xF && nn == 0x15 {
        Some(OpCode::FX15(x))
    } else if nib0(w) == 0xF && nn == 0x18 {
        Some(OpCode::FX18(x))
    } else if nib0(w) == 0xF && nn == 0x1E {
        Some(OpCode::FX1E(x))
    } else if nib0(w) == 0xF && nn == 0x29 {
        Some(OpCode::FX29(x))
    } else if nib0(w) == 0xF && nn == 0x33 {
        Some(OpCode::FX33(x))
    } else if nib0(w) == 0xF && nn == 0x55 {
        Some(OpCode::FX55(x))
    } else if nib0(w) == 0xF && nn == 0x65 {
        Some(OpCode::FX65(x))
    } else {
        None
    }
}

/// The immediate and address operands recompose from the nibbles of the
/// word they were split from.
proof fn lemma_assemble(w: u16)
    by (bit_vector)
    ensures
        (nib2(w) << 4) | nib3(w) == low_byte(w),
        ((nib1(w) as u16) << 8) | ((nib2(w) as u16) << 4) | (nib3(w) as u16) == addr_of(w),
{
}

/// Decode a raw 16-bit instruction word, or report it unrecognized.
///
/// Decoding is a pure function of the word alone: it reads no machine
/// state, and the result is pinned to the decode table `spec_decode`.
pub fn decode(raw: u16) -> (r: Result<OpCode, EmulatorError>)
    ensures
        match spec_decode(raw) {
            Some(op) => r == Ok::<OpCode, EmulatorError>(op),
            None => r == Err::<OpCode, EmulatorError>(EmulatorError::UnknownOpCode(raw)),
        },
        (r matches Ok(op) ==> wf_op(op)),
{
    proof {
        lemma_field_bounds(raw);
        lemma_assemble(raw);
    }
    if raw == 0x00E0 {
        return Ok(OpCode::_00E0);
    }
    if raw == 0x00EE {
        return Ok(OpCode::_00EE);
    }
    let parts = stretch_u16(raw);
    let p0 = parts[0];
    let x = parts[1];
    let y = parts[2];
    let n = parts[3];
    let nn: u8 = (y << 4) | n;
    let nnn: u16 = ((x as u16) << 8) | ((y as u16) << 4) | (n as u16);
    match p0 {
        0x1 => Ok(OpCode::_1NNN(nnn)),
        0x2 => Ok(OpCode::_2NNN(nnn)),
        0x3 => Ok(OpCode::_3XNN { reg: Reg::from_nibble(x), value: nn }),
        0x4 => Ok(OpCode::_4XNN { reg: Reg::from_nibble(x), value: nn }),
        0x5 if n == 0x0 => Ok(
            OpCode::_5XY0 { x: Reg::from_nibble(x), y: Reg::from_nibble(y) },
        ),
        0x6 => Ok(OpCode::_6XNN { reg: Reg::from_nibble(x), value: nn }),
        0x7 => Ok(OpCode::_7XNN { reg: Reg::from_nibble(x), value: nn }),
        0x8 if n == 0x0 => Ok(
            OpCode::_8XY0 { x: Reg::from_nibble(x), y: Reg::from_nibble(y) },
        ),
        0x8 if n == 0x1 => Ok(
            OpCode::_8XY1 { x: Reg::from_nibble(x), y: Reg::from_nibble(y) },
        ),
        0x8 if n == 0x2 => Ok(
            OpCode::_8XY2 { x: Reg::from_nibble(x), y: Reg::from_nibble(y) },
        ),
        0x8 if n == 0x3 => Ok(
            OpCode::_8XY3 { x: Reg::from_nibble(x), y: Reg::from_nibble(y) },
        ),
        0x8 if n == 0x4 => Ok(
            OpCode::_8XY4 { x: Reg::from_nibble(x), y: Reg::from_nibble(y) },
        ),
        0x8 if n == 0x5 => Ok(
            OpCode::_8XY5 { x: Reg::from_nibble(x), y: Reg::from_nibble(y) },
        ),
        0x8 if n == 0x6 => Ok(
            OpCode::_8XY6 { x: Reg::from_nibble(x), y: Reg::from_nibble(y) },
        ),
        0x8 if n == 0x7 => Ok(
            OpCode::_8XY7 { x: Reg::from_nibble(x), y: Reg::from_nibble(y) },
        ),
        0x8 if n == 0xE => Ok(
            OpCode::_8XYE { x: Reg::from_nibble(x), y: Reg::from_nibble(y) },
        ),
        0x9 if n == 0x0 => Ok(
            OpCode::_9XY0 { x: Reg::from_nibble(x), y: Reg::from_nibble(y) },
        ),
        0xA => Ok(OpCode::ANNN(nnn)),
        0xB => Ok(OpCode::BNNN(nnn)),
        0xC => Ok(OpCode::CXNN { reg: Reg::from_nibble(x), value: nn }),
        0xD => Ok(
            OpCode::DXYN { x: Reg::from_nibble(x), y: Reg::from_nibble(y), height: n },
        ),
        0xE if nn == 0x9E => Ok(OpCode::EX9E(Reg::from_nibble(x))),
        0xE if nn == 0xA1 => Ok(OpCode::EXA1(Reg::from_nibble(x))),
        0xF if nn == 0x07 => Ok(OpCode::FX07(Reg::from_nibble(x))),
        0xF if nn == 0x0A => Ok(OpCode::FX0A(Reg::from_nibble(x))),
        0xF if nn == 0x15 => Ok(OpCode::FX15(Reg::from_nibble(x))),
        0xF if nn == 0x18 => Ok(OpCode::FX18(Reg::from_nibble(x))),
        0xF if nn == 0x1E => Ok(OpCode::FX1E(Reg::from_nibble(x))),
        0xF if nn == 0x29 => Ok(OpCode::FX29(Reg::from_nibble(x))),
        0xF if nn == 0x33 => Ok(OpCode::FX33(Reg::from_nibble(x))),
        0xF if nn == 0x55 => Ok(OpCode::FX55(Reg::from_nibble(x))),
        0xF if nn == 0x65 => Ok(OpCode::FX65(Reg::from_nibble(x))),
        _ => Err(EmulatorError::UnknownOpCode(raw)),
    }
}

/// Decoding the same word twice yields the same result, and reads nothing
/// but the word.
pub proof fn lemma_decode_deterministic(w1: u16, w2: u16)
    requires
        w1 == w2,
    ensures
        spec_decode(w1) == spec_decode(w2),
{
}

/// Canonical operands: every register operand names a general register,
/// addresses fit 12 bits, and a sprite height fits a nibble.
pub open spec fn wf_op(op: OpCode) -> bool {
    match op {
        OpCode::_00E0 => true,
        OpCode::_00EE => true,
        OpCode::_1NNN(nnn) | OpCode::_2NNN(nnn) | OpCode::ANNN(nnn) | OpCode::BNNN(nnn) => nnn
            < 0x1000,
        OpCode::_3XNN { reg, .. } | OpCode::_4XNN { reg, .. } | OpCode::_6XNN { reg, .. }
        | OpCode::_7XNN { reg, .. } | OpCode::CXNN { reg, .. } => reg.is_general(),
        OpCode::_5XY0 { x, y } | OpCode::_8XY0 { x, y } | OpCode::_8XY1 { x, y }
        | OpCode::_8XY2 { x, y } | OpCode::_8XY3 { x, y } | OpCode::_8XY4 { x, y }
        | OpCode::_8XY5 { x, y } | OpCode::_8XY6 { x, y } | OpCode::_8XY7 { x, y }
        | OpCode::_8XYE { x, y } | OpCode::_9XY0 { x, y } => x.is_general() && y.is_general(),
        OpCode::DXYN { x, y, height } => x.is_general() && y.is_general() && height < 16,
        OpCode::EX9E(r) | OpCode::EXA1(r) | OpCode::FX07(r) | OpCode::FX0A(r) | OpCode::FX15(r)
        | OpCode::FX18(r) | OpCode::FX1E(r) | OpCode::FX29(r) | OpCode::FX33(r)
        | OpCode::FX55(r) | OpCode::FX65(r) => r.is_general(),
    }
}

/// A word made of a leading nibble and a 12-bit address operand.
pub open spec fn enc_nnn(h: u8, nnn: u16) -> u16 {
    ((h as u16) << 12) | nnn
}

/// A word made of a leading nibble, a register operand and an immediate.
pub open spec fn enc_xnn(h: u8, x: Reg, nn: u8) -> u16 {
    ((h as u16) << 12) | ((x.idx() as u16) << 8) | (nn as u16)
}

/// A word made of a leading nibble, two register operands and a trailing
/// nibble.
pub open spec fn enc_xyn(h: u8, x: Reg, y: Reg, n: u8) -> u16 {
    ((h as u16) << 12) | ((x.idx() as u16) << 8) | ((y.idx() as u16) << 4) | (n as u16)
}

/// The canonical bit pattern of an instruction.
pub open spec fn spec_encode(op: OpCode) -> u16 {
    match op {
        OpCode::_00E0 => 0x00E0,
        OpCode::_00EE => 0x00EE,
        OpCode::_1NNN(nnn) => enc_nnn(0x1, nnn),
        OpCode::_2NNN(nnn) => enc_nnn(0x2, nnn),
        OpCode::_3XNN { reg, value } => enc_xnn(0x3, reg, value),
        OpCode::_4XNN { reg, value } => enc_xnn(0x4, reg, value),
        OpCode::_5XY0 { x, y } => enc_xyn(0x5, x, y, 0x0),
        OpCode::_6XNN { reg, value } => enc_xnn(0x6, reg, value),
        OpCode::_7XNN { reg, value } => enc_xnn(0x7, reg, value),
        OpCode::_8XY0 { x, y } => enc_xyn(0x8, x, y, 0x0),
        OpCode::_8XY1 { x, y } => enc_xyn(0x8, x, y, 0x1),
        OpCode::_8XY2 { x, y } => enc_xyn(0x8, x, y, 0x2),
        OpCode::_8XY3 { x, y } => enc_xyn(0x8, x, y, 0x3),
        OpCode::_8XY4 { x, y } => enc_xyn(0x8, x, y, 0x4),
        OpCode::_8XY5 { x, y } => enc_xyn(0x8, x, y, 0x5),
        OpCode::_8XY6 { x, y } => enc_xyn(0x8, x, y, 0x6),
        OpCode::_8XY7 { x, y } => enc_xyn(0x8, x, y, 0x7),
        OpCode::_8XYE { x, y } => enc_xyn(0x8, x, y, 0xE),
        OpCode::_9XY0 { x, y } => enc_xyn(0x9, x, y, 0x0),
        OpCode::ANNN(nnn) => enc_nnn(0xA, nnn),
        OpCode::BNNN(nnn) => enc_nnn(0xB, nnn),
        OpCode::CXNN { reg, value } => enc_xnn(0xC, reg, value),
        OpCode::DXYN { x, y, height } => enc_xyn(0xD, x, y, height),
        OpCode::EX9E(r) => enc_xnn(0xE, r, 0x9E),
        OpCode::EXA1(r) => enc_xnn(0xE, r, 0xA1),
        OpCode::FX07(r) => enc_xnn(0xF, r, 0x07),
        OpCode::FX0A(r) => enc_xnn(0xF, r, 0x0A),
        OpCode::FX15(r) => enc_xnn(0xF, r, 0x15),
        OpCode::FX18(r) => enc_xnn(0xF, r, 0x18),
        OpCode::FX1E(r) => enc_xnn(0xF, r, 0x1E),
        OpCode::FX29(r) => enc_xnn(0xF, r, 0x29),
        OpCode::FX33(r) => enc_xnn(0xF, r, 0x33),
        OpCode::FX55(r) => enc_xnn(0xF, r, 0x55),
        OpCode::FX65(r) => enc_xnn(0xF, r, 0x65),
    }
}

/// Field extraction inverts composition for address-operand words.
proof fn lemma_word_nnn(h: u8, nnn: u16)
    by (bit_vector)
    requires
        0 < h < 16,
        nnn < 0x1000,
    ensures
        ({
            let w = ((h as u16) << 12) | nnn;
            nib0(w) == h && addr_of(w) == nnn && w != 0x00E0 && w != 0x00EE
        }),
{
}

/// Field extraction inverts composition for immediate-operand words.
proof fn lemma_word_xnn(h: u8, x: u8, nn: u8)
    by (bit_vector)
    requires
        0 < h < 16,
        x < 16,
    ensures
        ({
            let w = ((h as u16) << 12) | ((x as u16) << 8) | (nn as u16);
            nib0(w) == h && nib1(w) == x && low_byte(w) == nn && w != 0x00E0 && w != 0x00EE
        }),
{
}

/// Field extraction inverts composition for two-register words.
proof fn lemma_word_xyn(h: u8, x: u8, y: u8, n: u8)
    by (bit_vector)
    requires
        0 < h < 16,
        x < 16,
        y < 16,
        n < 16,
    ensures
        ({
            let w = ((h as u16) << 12) | ((x as u16) << 8) | ((y as u16) << 4) | (n as u16);
            nib0(w) == h && nib1(w) == x && nib2(w) == y && nib3(w) == n && w != 0x00E0 && w
                != 0x00EE
        }),
{
}

/// Round trip for the address-operand instructions.
proof fn lemma_rt_addr(op: OpCode)
    requires
        wf_op(op),
        op matches OpCode::_00E0 || op matches OpCode::_00EE || op matches OpCode::_1NNN(_)
            || op matches OpCode::_2NNN(_) || op matches OpCode::ANNN(_) || op matches
            OpCode::BNNN(_),
    ensures
        spec_decode(spec_encode(op)) == Some(op),
{
    match op {
        OpCode::_1NNN(nnn) => {
            lemma_word_nnn(0x1, nnn);
        },
        OpCode::_2NNN(nnn) => {
            lemma_word_nnn(0x2, nnn);
        },
        OpCode::ANNN(nnn) => {
            lemma_word_nnn(0xA, nnn);
        },
        OpCode::BNNN(nnn) => {
            lemma_word_nnn(0xB, nnn);
        },
        _ => {
        },
    }
}

/// Round trip for the immediate-operand instructions.
proof fn lemma_rt_imm(op: OpCode)
    requires
        wf_op(op),
        op matches OpCode::_3XNN { .. } || op matches OpCode::_4XNN { .. } || op matches
            OpCode::_6XNN { .. } || op matches OpCode::_7XNN { .. } || op matches OpCode::CXNN {
            ..
        },
    ensures
        spec_decode(spec_encode(op)) == Some(op),
{
    match op {
        OpCode::_3XNN { reg, value } => {
            lemma_word_xnn(0x3, reg.idx() as u8, value);
            lemma_reg_roundtrip(reg);
        },
        OpCode::_4XNN { reg, value } => {
            lemma_word_xnn(0x4, reg.idx() as u8, value);
            lemma_reg_roundtrip(reg);
        },
        OpCode::_6XNN { reg, value } => {
            lemma_word_xnn(0x6, reg.idx() as u8, value);
            lemma_reg_roundtrip(reg);
        },
        OpCode::_7XNN { reg, value } => {
            lemma_word_xnn(0x7, reg.idx() as u8, value);
            lemma_reg_roundtrip(reg);
        },
        OpCode::CXNN { reg, value } => {
            lemma_word_xnn(0xC, reg.idx() as u8, value);
            lemma_reg_roundtrip(reg);
        },
        _ => {
        },
    }
}

/// Round trip for the two-register instructions.
proof fn lemma_rt_two_reg(op: OpCode)
    requires
        wf_op(op),
        op matches OpCode::_5XY0 { .. } || op matches OpCode::_8XY0 { .. } || op matches
            OpCode::_8XY1 { .. } || op matches OpCode::_8XY2 { .. } || op matches OpCode::_8XY3 {
            ..
        } || op matches OpCode::_8XY4 { .. } || op matches OpCode::_8XY5 { .. } || op matches
            OpCode::_8XY6 { .. } || op matches OpCode::_8XY7 { .. } || op matches OpCode::_8XYE {
            ..
        } || op matches OpCode::_9XY0 { .. } || op matches OpCode::DXYN { .. },
    ensures
        spec_decode(spec_encode(op)) == Some(op),
{
    match op {
        OpCode::_5XY0 { x, y } => {
            lemma_word_xyn(0x5, x.idx() as u8, y.idx() as u8, 0x0);
            lemma_reg_roundtrip(x);
            lemma_reg_roundtrip(y);
        },
        OpCode::_8XY0 { x, y } => {
            lemma_word_xyn(0x8, x.idx() as u8, y.idx() as u8, 0x0);
            lemma_reg_roundtrip(x);
            lemma_reg_roundtrip(y);
        },
        OpCode::_8XY1 { x, y } => {
            lemma_word_xyn(0x8, x.idx() as u8, y.idx() as u8, 0x1);
            lemma_reg_roundtrip(x);
            lemma_reg_roundtrip(y);
        },
        OpCode::_8XY2 { x, y } => {
            lemma_word_xyn(0x8, x.idx() as u8, y.idx() as u8, 0x2);
            lemma_reg_roundtrip(x);
            lemma_reg_roundtrip(y);
        },
        OpCode::_8XY3 { x, y } => {
            lemma_word_xyn(0x8, x.idx() as u8, y.idx() as u8, 0x3);
            lemma_reg_roundtrip(x);
            lemma_reg_roundtrip(y);
        },
        OpCode::_8XY4 { x, y } => {
            lemma_word_xyn(0x8, x.idx() as u8, y.idx() as u8, 0x4);
            lemma_reg_roundtrip(x);
            lemma_reg_roundtrip(y);
        },
        OpCode::_8XY5 { x, y } => {
            lemma_word_xyn(0x8, x.idx() as u8, y.idx() as u8, 0x5);
            lemma_reg_roundtrip(x);
            lemma_reg_roundtrip(y);
        },
        OpCode::_8XY6 { x, y } => {
            lemma_word_xyn(0x8, x.idx() as u8, y.idx() as u8, 0x6);
            lemma_reg_roundtrip(x);
            lemma_reg_roundtrip(y);
        },
        OpCode::_8XY7 { x, y } => {
            lemma_word_xyn(0x8, x.idx() as u8, y.idx() as u8, 0x7);
            lemma_reg_roundtrip(x);
            lemma_reg_roundtrip(y);
        },
        OpCode::_8XYE { x, y } => {
            lemma_word_xyn(0x8, x.idx() as u8, y.idx() as u8, 0xE);
            lemma_reg_roundtrip(x);
            lemma_reg_roundtrip(y);
        },
        OpCode::_9XY0 { x, y } => {
            lemma_word_xyn(0x9, x.idx() as u8, y.idx() as u8, 0x0);
            lemma_reg_roundtrip(x);
            lemma_reg_roundtrip(y);
        },
        OpCode::DXYN { x, y, height } => {
            lemma_word_xyn(0xD, x.idx() as u8, y.idx() as u8, height);
            lemma_reg_roundtrip(x);
            lemma_reg_roundtrip(y);
        },
        _ => {
        },
    }
}

/// Round trip for the key and timer instructions keyed on the low byte.
proof fn lemma_rt_low_byte(op: OpCode)
    requires
        wf_op(op),
        op matches OpCode::EX9E(_) || op matches OpCode::EXA1(_) || op matches OpCode::FX07(_)
            || op matches OpCode::FX0A(_) || op matches OpCode::FX15(_) || op matches
            OpCode::FX18(_) || op matches OpCode::FX1E(_) || op matches OpCode::FX29(_)
            || op matches OpCode::FX33(_) || op matches OpCode::FX55(_) || op matches
            OpCode::FX65(_),
    ensures
        spec_decode(spec_encode(op)) == Some(op),
{
    match op {
        OpCode::EX9E(r) => {
            lemma_word_xnn(0xE, r.idx() as u8, 0x9E);
            lemma_reg_roundtrip(r);
        },
        OpCode::EXA1(r) => {
            lemma_word_xnn(0xE, r.idx() as u8, 0xA1);
            lemma_reg_roundtrip(r);
        },
        OpCode::FX07(r) => {
            lemma_word_xnn(0xF, r.idx() as u8, 0x07);
            lemma_reg_roundtrip(r);
        },
        OpCode::FX0A(r) => {
            lemma_word_xnn(0xF, r.idx() as u8, 0x0A);
            lemma_reg_roundtrip(r);
        },
        OpCode::FX15(r) => {
            lemma_word_xnn(0xF, r.idx() as u8, 0x15);
            lemma_reg_roundtrip(r);
        },
        OpCode::FX18(r) => {
            lemma_word_xnn(0xF, r.idx() as u8, 0x18);
            lemma_reg_roundtrip(r);
        },
        OpCode::FX1E(r) => {
            lemma_word_xnn(0xF, r.idx() as u8, 0x1E);
            lemma_reg_roundtrip(r);
        },
        OpCode::FX29(r) => {
            lemma_word_xnn(0xF, r.idx() as u8, 0x29);
            lemma_reg_roundtrip(r);
        },
        OpCode::FX33(r) => {
            lemma_word_xnn(0xF, r.idx() as u8, 0x33);
            lemma_reg_roundtrip(r);
        },
        OpCode::FX55(r) => {
            lemma_word_xnn(0xF, r.idx() as u8, 0x55);
            lemma_reg_roundtrip(r);
        },
        OpCode::FX65(r) => {
            lemma_word_xnn(0xF, r.idx() as u8, 0x65);
            lemma_reg_roundtrip(r);
        },
        _ => {
        },
    }
}

/// Round trip: decoding the canonical bit pattern of an instruction with
/// canonical operands recovers the instruction, operand for operand.
pub proof fn lemma_encode_decode(op: OpCode)
    requires
        wf_op(op),
    ensures
        spec_decode(spec_encode(op)) == Some(op),
{
    match op {
        OpCode::_00E0 | OpCode::_00EE | OpCode::_1NNN(_) | OpCode::_2NNN(_) | OpCode::ANNN(_)
        | OpCode::BNNN(_) => lemma_rt_addr(op),
        OpCode::_3XNN { .. } | OpCode::_4XNN { .. } | OpCode::_6XNN { .. } | OpCode::_7XNN {
            ..
        } | OpCode::CXNN { .. } => lemma_rt_imm(op),
        OpCode::_5XY0 { .. } | OpCode::_8XY0 { .. } | OpCode::_8XY1 { .. } | OpCode::_8XY2 {
            ..
        } | OpCode::_8XY3 { .. } | OpCode::_8XY4 { .. } | OpCode::_8XY5 { .. } | OpCode::_8XY6 {
            ..
        } | OpCode::_8XY7 { .. } | OpCode::_8XYE { .. } | OpCode::_9XY0 { .. } | OpCode::DXYN {
            ..
        } => lemma_rt_two_reg(op),
        OpCode::EX9E(_) | OpCode::EXA1(_) | OpCode::FX07(_) | OpCode::FX0A(_) | OpCode::FX15(_)
        | OpCode::FX18(_) | OpCode::FX1E(_) | OpCode::FX29(_) | OpCode::FX33(_)
        | OpCode::FX55(_) | OpCode::FX65(_) => lemma_rt_low_byte(op),
    }
}

/// Build the canonical bit pattern of the address-operand instructions.
fn encode_addr(op: OpCode) -> (w: u16)
    requires
        wf_op(op),
        op matches OpCode::_00E0 || op matches OpCode::_00EE || op matches OpCode::_1NNN(_)
            || op matches OpCode::_2NNN(_) || op matches OpCode::ANNN(_) || op matches
            OpCode::BNNN(_),
    ensures
        w == spec_encode(op),
{
    match op {
        OpCode::_00E0 => 0x00E0,
        OpCode::_00EE => 0x00EE,
        OpCode::_1NNN(nnn) => ((0x1u16) << 12) | nnn,
        OpCode::_2NNN(nnn) => ((0x2u16) << 12) | nnn,
        OpCode::ANNN(nnn) => ((0xAu16) << 12) | nnn,
        OpCode::BNNN(nnn) => ((0xBu16) << 12) | nnn,
        _ => {
            proof {
                assert(false);
            }
            0
        },
    }
}

/// Build the canonical bit pattern of the immediate-operand instructions.
fn encode_imm(op: OpCode) -> (w: u16)
    requires
        wf_op(op),
        op matches OpCode::_3XNN { .. } || op matches OpCode::_4XNN { .. } || op matches
            OpCode::_6XNN { .. } || op matches OpCode::_7XNN { .. } || op matches OpCode::CXNN {
            ..
        },
    ensures
        w == spec_encode(op),
{
    match op {
        OpCode::_3XNN { reg, value } => exec_xnn(0x3, reg, value),
        OpCode::_4XNN { reg, value } => exec_xnn(0x4, reg, value),
        OpCode::_6XNN { reg, value } => exec_xnn(0x6, reg, value),
        OpCode::_7XNN { reg, value } => exec_xnn(0x7, reg, value),
        OpCode::CXNN { reg, value } => exec_xnn(0xC, reg, value),
        _ => {
            proof {
                assert(false);
            }
            0
        },
    }
}

/// Build the canonical bit pattern of the two-register instructions.
fn encode_two_reg(op: OpCode) -> (w: u16)
    requires
        wf_op(op),
        op matches OpCode::_5XY0 { .. } || op matches OpCode::_8XY0 { .. } || op matches
            OpCode::_8XY1 { .. } || op matches OpCode::_8XY2 { .. } || op matches OpCode::_8XY3 {
            ..
        } || op matches OpCode::_8XY4 { .. } || op matches OpCode::_8XY5 { .. } || op matches
            OpCode::_8XY6 { .. } || op matches OpCode::_8XY7 { .. } || op matches OpCode::_8XYE {
            ..
        } || op matches OpCode::_9XY0 { .. } || op matches OpCode::DXYN { .. },
    ensures
        w == spec_encode(op),
{
    match op {
        OpCode::_5XY0 { x, y } => exec_xyn(0x5, x, y, 0x0),
        OpCode::_8XY0 { x, y } => exec_xyn(0x8, x, y, 0x0),
        OpCode::_8XY1 { x, y } => exec_xyn(0x8, x, y, 0x1),
        OpCode::_8XY2 { x, y } => exec_xyn(0x8, x, y, 0x2),
        OpCode::_8XY3 { x, y } => exec_xyn(0x8, x, y, 0x3),
        OpCode::_8XY4 { x, y } => exec_xyn(0x8, x, y, 0x4),
        OpCode::_8XY5 { x, y } => exec_xyn(0x8, x, y, 0x5),
        OpCode::_8XY6 { x, y } => exec_xyn(0x8, x, y, 0x6),
        OpCode::_8XY7 { x, y } => exec_xyn(0x8, x, y, 0x7),
        OpCode::_8XYE { x, y } => exec_xyn(0x8, x, y, 0xE),
        OpCode::_9XY0 { x, y } => exec_xyn(0x9, x, y, 0x0),
        OpCode::DXYN { x, y, height } => exec_xyn(0xD, x, y, height),
        _ => {
            proof {
                assert(false);
            }
            0
        },
    }
}

/// Build the canonical bit pattern of the key and timer instructions.
fn encode_low_byte(op: OpCode) -> (w: u16)
    requires
        wf_op(op),
        op matches OpCode::EX9E(_) || op matches OpCode::EXA1(_) || op matches OpCode::FX07(_)
            || op matches OpCode::FX0A(_) || op matches OpCode::FX15(_) || op matches
            OpCode::FX18(_) || op matches OpCode::FX1E(_) || op matches OpCode::FX29(_)
            || op matches OpCode::FX33(_) || op matches OpCode::FX55(_) || op matches
            OpCode::FX65(_),
    ensures
        w == spec_encode(op),
{
    match op {
        OpCode::EX9E(r) => exec_xnn(0xE, r, 0x9E),
        OpCode::EXA1(r) => exec_xnn(0xE, r, 0xA1),
        OpCode::FX07(r) => exec_xnn(0xF, r, 0x07),
        OpCode::FX0A(r) => exec_xnn(0xF, r, 0x0A),
        OpCode::FX15(r) => exec_xnn(0xF, r, 0x15),
        OpCode::FX18(r) => exec_xnn(0xF, r, 0x18),
        OpCode::FX1E(r) => exec_xnn(0xF, r, 0x1E),
        OpCode::FX29(r) => exec_xnn(0xF, r, 0x29),
        OpCode::FX33(r) => exec_xnn(0xF, r, 0x33),
        OpCode::FX55(r) => exec_xnn(0xF, r, 0x55),
        OpCode::FX65(r) => exec_xnn(0xF, r, 0x65),
        _ => {
            proof {
                assert(false);
            }
            0
        },
    }
}

/// Build the canonical bit pattern of an instruction with canonical
/// operands.
pub fn encode(op: OpCode) -> (w: u16)
    requires
        wf_op(op),
    ensures
        w == spec_encode(op),
{
    match op {
        OpCode::_00E0 | OpCode::_00EE | OpCode::_1NNN(_) | OpCode::_2NNN(_) | OpCode::ANNN(_)
        | OpCode::BNNN(_) => encode_addr(op),
        OpCode::_3XNN { .. } | OpCode::_4XNN { .. } | OpCode::_6XNN { .. } | OpCode::_7XNN {
            ..
        } | OpCode::CXNN { .. } => encode_imm(op),
        OpCode::_5XY0 { .. } | OpCode::_8XY0 { .. } | OpCode::_8XY1 { .. } | OpCode::_8XY2 {
            ..
        } | OpCode::_8XY3 { .. } | OpCode::_8XY4 { .. } | OpCode::_8XY5 { .. } | OpCode::_8XY6 {
            ..
        } | OpCode::_8XY7 { .. } | OpCode::_8XYE { .. } | OpCode::_9XY0 { .. } | OpCode::DXYN {
            ..
        } => encode_two_reg(op),
        OpCode::EX9E(_) | OpCode::EXA1(_) | OpCode::FX07(_) | OpCode::FX0A(_) | OpCode::FX15(_)
        | OpCode::FX18(_) | OpCode::FX1E(_) | OpCode::FX29(_) | OpCode::FX33(_)
        | OpCode::FX55(_) | OpCode::FX65(_) => encode_low_byte(op),
    }
}

/// Compose an immediate-operand word.
fn exec_xnn(h: u8, x: Reg, nn: u8) -> (w: u16)
    requires
        x.is_general(),
    ensures
        w == enc_xnn(h, x, nn),
{
    ((h as u16) << 12) | ((x.index() as u16) << 8) | (nn as u16)
}

/// Compose a two-register word.
fn exec_xyn(h: u8, x: Reg, y: Reg, n: u8) -> (w: u16)
    requires
        x.is_general(),
        y.is_general(),
    ensures
        w == enc_xyn(h, x, y, n),
{
    ((h as u16) << 12) | ((x.index() as u16) << 8) | ((y.index() as u16) << 4) | (n as u16)
}

}
