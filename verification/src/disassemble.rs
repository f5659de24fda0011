use vstd::prelude::*;

use crate::emulator::word_of;
use crate::error::EmulatorError;
use crate::opcode::{decode, spec_decode, OpCode};

verus! {

/// The big-endian 16-bit instruction words of a program image.
pub open spec fn spec_words(rom: Seq<u8>) -> Seq<u16> {
    Seq::new((rom.len() / 2) as nat, |k: int| word_of(rom[2 * k], rom[2 * k + 1]))
}

/// Decode every instruction word of a program image, in order. Succeeds
/// with one instruction per word exactly when every word decodes; stops at
/// the first unrecognized word and reports it.
pub fn disassemble(rom: Vec<u8>) -> (r: Result<Vec<OpCode>, EmulatorError>)
    requires
        rom@.len() % 2 == 0,
    ensures
        match r {
            Ok(ops) => ops@.len() == spec_words(rom@).len() && forall|k: int|
                0 <= k < ops@.len() ==> Some(ops@[k]) == spec_decode(#[trigger] spec_words(rom@)[k]),
            Err(e) => exists|k: int|
                0 <= k < spec_words(rom@).len() && spec_decode(#[trigger] spec_words(rom@)[k])
                    is None && e == EmulatorError::UnknownOpCode(spec_words(rom@)[k]) && (
                forall|j: int| 0 <= j < k ==> spec_decode(#[trigger] spec_words(rom@)[j]) is Some),
        },
{
    let mut idx: usize = 0;
    let mut res: Vec<OpCode> = Vec::new();
    while idx < rom.len()
        invariant
            rom@.len() % 2 == 0,
            idx % 2 == 0,
            idx <= rom@.len(),
            res@.len() == idx / 2,
            forall|k: int|
                0 <= k < res@.len() ==> Some(res@[k]) == spec_decode(
                    #[trigger] spec_words(rom@)[k],
                ),
        decreases rom@.len() - idx,
    {
        let ghost k = idx as int / 2;
        let first_half = rom[idx];
        let second_half = rom[idx + 1];
        idx += 2;
        let raw_opcode: u16 = ((first_half as u16) << 8) | (second_half as u16);
        proof {
            assert(raw_opcode == spec_words(rom@)[k]);
        }
        match decode(raw_opcode) {
            Ok(op) => {
                res.push(op);
            },
            Err(e) => {
                return Err(e);
            },
        }
    }
    Ok(res)
}

/// The batch decoding utility as a named component.
pub struct Disassembler();

impl Disassembler {
    /// Decode a whole program image, word by word, as `disassemble` does.
    pub fn disassemble(rom: Vec<u8>) -> (r: Result<Vec<OpCode>, EmulatorError>)
        requires
            rom@.len() % 2 == 0,
        ensures
            match r {
                Ok(ops) => ops@.len() == spec_words(rom@).len() && forall|k: int|
                    0 <= k < ops@.len() ==> Some(ops@[k]) == spec_decode(
                        #[trigger] spec_words(rom@)[k],
                    ),
                Err(e) => exists|k: int|
                    0 <= k < spec_words(rom@).len() && spec_decode(
                        #[trigger] spec_words(rom@)[k],
                    ) is None && e == EmulatorError::UnknownOpCode(spec_words(rom@)[k]) && (
                    forall|j: int|
                        0 <= j < k ==> spec_decode(#[trigger] spec_words(rom@)[j]) is Some),
            },
    {
        crate::disassemble::disassemble(rom)
    }
}

}
