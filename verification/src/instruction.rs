//! Decoding of one 32-bit instruction word.
//!
//! The low byte of a word is the opcode, multiplied (modulo 256) by the
//! encode key of the chunk's producer. The rest of the word holds the operands
//! in one of three layouts: `A B C` (one byte each), `A D` (a byte and a signed
//! 16-bit half) or `E` (a signed 24-bit value).
use crate::error::ParseErrorKind;
use crate::op_code::{op_code_of, OpCode};
use vstd::prelude::*;

verus! {

/// A decoded instruction. `aux` is the auxiliary word that follows the
/// instruction in the code, for the opcodes that have one, and 0 otherwise.
#[derive(Debug, Clone, Copy)]
pub enum Instruction {
    BC { op_code: OpCode, a: u8, b: u8, c: u8, aux: u32 },
    AD { op_code: OpCode, a: u8, d: i16, aux: u32 },
    E { op_code: OpCode, e: i32 },
}

impl DeepView for Instruction {
    type V = Instruction;

    open spec fn deep_view(&self) -> Instruction {
        *self
    }
}

/// The opcode number of a word under an encode key.
pub open spec fn decoded_op(insn: u32, encode_key: u8) -> u8 {
    ((insn % 256) * encode_key % 256) as u8
}

/// Opcodes with operands `A B C`.
pub open spec fn is_abc_op(op: u8) -> bool {
    ||| op <= 3
    ||| 6 <= op <= 11
    ||| 13 <= op <= 18
    ||| 20 <= op <= 22
    ||| 33 <= op <= 53
    ||| op == 55 || op == 60 || op == 63 || op == 65 || op == 66 || op == 68 || op == 70
    ||| 71 <= op <= 75
    ||| 81 <= op <= 85
}

/// Opcodes with operands `A D`.
pub open spec fn is_ad_op(op: u8) -> bool {
    ||| op == 4 || op == 5 || op == 12 || op == 19
    ||| 23 <= op <= 32
    ||| op == 54
    ||| 56 <= op <= 59
    ||| op == 61 || op == 62 || op == 64
    ||| 76 <= op <= 80
}

/// Opcodes with operand `E`.
pub open spec fn is_e_op(op: u8) -> bool {
    op == 67 || op == 69
}

/// The opcode number that some producers write for a `NOP`.
pub open spec fn is_alternate_nop(op: u8) -> bool {
    op == 97
}

/// Operand `A`: the second byte.
pub open spec fn operand_a(insn: u32) -> u8 {
    (insn / 256 % 256) as u8
}

/// Operand `B`: the third byte.
pub open spec fn operand_b(insn: u32) -> u8 {
    (insn / 65536 % 256) as u8
}

/// Operand `C`: the fourth byte.
pub open spec fn operand_c(insn: u32) -> u8 {
    (insn / 16777216) as u8
}

/// Operand `D`: the upper half, as a signed number.
pub open spec fn operand_d(insn: u32) -> i16 {
    let h = insn / 65536;
    if h < 32768 {
        h as i16
    } else {
        (h - 65536) as i16
    }
}

/// Operand `E`: the upper 24 bits, as a signed number.
pub open spec fn operand_e(insn: u32) -> i32 {
    let h = insn / 256;
    if h < 0x80_0000 {
        h as i32
    } else {
        (h - 0x100_0000) as i32
    }
}

/// The instruction that a word stands for, or the error for an unknown opcode.
pub open spec fn instruction_of(insn: u32, encode_key: u8) -> Result<Instruction, ParseErrorKind> {
    let op = decoded_op(insn, encode_key);
    if is_abc_op(op) {
        Ok(
            Instruction::BC {
                op_code: op_code_of(op),
                a: operand_a(insn),
                b: operand_b(insn),
                c: operand_c(insn),
                aux: 0,
            },
        )
    } else if is_ad_op(op) {
        Ok(Instruction::AD { op_code: op_code_of(op), a: operand_a(insn), d: operand_d(insn), aux: 0 })
    } else if is_e_op(op) {
        Ok(Instruction::E { op_code: op_code_of(op), e: operand_e(insn) })
    } else if is_alternate_nop(op) {
        Ok(Instruction::BC { op_code: OpCode::LOP_NOP, a: 0, b: 0, c: 0, aux: 0 })
    } else {
        Err(ParseErrorKind::Tag)
    }
}

impl Instruction {
    /// Decodes one instruction word.
    pub fn parse(insn: u32, encode_key: u8) -> (res: Result<Instruction, ParseErrorKind>)
        ensures
            res == instruction_of(insn, encode_key),
    {
        let op_code = (insn & 0xFF) as u8;
        proof {
            assert(insn & 0xFF == insn % 256) by (bit_vector);
        }
        let op_code = op_code.wrapping_mul(encode_key);
        if op_code <= 3 || (6 <= op_code && op_code <= 11) || (13 <= op_code && op_code <= 18) || (20
            <= op_code && op_code <= 22) || (33 <= op_code && op_code <= 53) || op_code == 55
            || op_code == 60 || op_code == 63 || op_code == 65 || op_code == 66 || op_code == 68
            || op_code == 70 || (71 <= op_code && op_code <= 75) || (81 <= op_code && op_code
            <= 85) {
            let (a, b, c) = Self::parse_abc(insn);
            match OpCode::from_byte(op_code) {
                Some(op_code) => Ok(Self::BC { op_code, a, b, c, aux: 0 }),
                None => Err(ParseErrorKind::Tag),
            }
        } else if op_code == 4 || op_code == 5 || op_code == 12 || op_code == 19 || (23 <= op_code
            && op_code <= 32) || op_code == 54 || (56 <= op_code && op_code <= 59) || op_code == 61
            || op_code == 62 || op_code == 64 || (76 <= op_code && op_code <= 80) {
            let (a, d) = Self::parse_ad(insn);
            match OpCode::from_byte(op_code) {
                Some(op_code) => Ok(Self::AD { op_code, a, d, aux: 0 }),
                None => Err(ParseErrorKind::Tag),
            }
        } else if op_code == 67 || op_code == 69 {
            let e = Self::parse_e(insn);
            match OpCode::from_byte(op_code) {
                Some(op_code) => Ok(Self::E { op_code, e }),
                None => Err(ParseErrorKind::Tag),
            }
        } else if op_code == 97 {
            Ok(Self::BC { op_code: OpCode::LOP_NOP, a: 0, b: 0, c: 0, aux: 0 })
        } else {
            Err(ParseErrorKind::Tag)
        }
    }

    /// Operands `A`, `B` and `C` of a word.
    pub fn parse_abc(insn: u32) -> (res: (u8, u8, u8))
        ensures
            res == (operand_a(insn), operand_b(insn), operand_c(insn)),
    {
        let a = ((insn >> 8) & 0xFF) as u8;
        let b = ((insn >> 16) & 0xFF) as u8;
        let c = ((insn >> 24) & 0xFF) as u8;
        proof {
            assert((insn >> 8) & 0xFF == insn / 256 % 256) by (bit_vector);
            assert((insn >> 16) & 0xFF == insn / 65536 % 256) by (bit_vector);
            assert((insn >> 24) & 0xFF == insn / 16777216) by (bit_vector);
        }
        (a, b, c)
    }

    /// Operands `A` and `D` of a word.
    pub fn parse_ad(insn: u32) -> (res: (u8, i16))
        ensures
            res == (operand_a(insn), operand_d(insn)),
    {
        let a = ((insn >> 8) & 0xFF) as u8;
        let h = (insn >> 16) & 0xFFFF;
        let d = h as i16;
        proof {
            assert((insn >> 8) & 0xFF == insn / 256 % 256) by (bit_vector);
            assert((insn >> 16) & 0xFFFF == insn / 65536) by (bit_vector);
            assert(h < 32768 ==> h as i16 == h) by (bit_vector);
            assert(h >= 32768 && h < 65536 ==> h as i16 == h - 65536) by (bit_vector);
        }
        (a, d)
    }

    /// Operand `E` of a word: its upper 24 bits, sign-extended.
    pub fn parse_e(insn: u32) -> (res: i32)
        ensures
            res == operand_e(insn),
    {
        let e = (insn as i32) >> 8;
        proof {
            assert(insn / 256 < 0x80_0000 ==> (insn as i32) >> 8 == insn / 256) by (bit_vector);
            assert(insn / 256 >= 0x80_0000 ==> (insn as i32) >> 8 == insn / 256 - 0x100_0000)
                by (bit_vector);
        }
        e
    }
}

} // verus!
