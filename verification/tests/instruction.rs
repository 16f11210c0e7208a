use luau_lifter::error::ParseErrorKind;
use luau_lifter::instruction::Instruction;
use luau_lifter::op_code::OpCode;

fn encoded_opcode(op_code: u8, encode_key: u8) -> u8 {
    (0..=u8::MAX)
        .find(|candidate| candidate.wrapping_mul(encode_key) == op_code)
        .expect("encode key must be invertible modulo 256")
}

fn abc_instruction(op_code: u8, encode_key: u8, a: u8, b: u8, c: u8) -> u32 {
    u32::from(encoded_opcode(op_code, encode_key))
        | (u32::from(a) << 8)
        | (u32::from(b) << 16)
        | (u32::from(c) << 24)
}

#[test]
fn parses_version_nine_userdata_opcodes_with_roblox_key() {
    let encode_key = 203;
    for (raw_opcode, expected) in [
        (83, OpCode::LOP_GETUDATAKS),
        (84, OpCode::LOP_SETUDATAKS),
        (85, OpCode::LOP_NAMECALLUDATA),
    ] {
        let instruction =
            Instruction::parse(abc_instruction(raw_opcode, encode_key, 1, 2, 3), encode_key)
                .unwrap();

        assert!(matches!(
            instruction,
            Instruction::BC {
                op_code,
                a: 1,
                b: 2,
                c: 3,
                ..
            } if op_code == expected
        ));
    }
}

#[test]
fn rejects_unknown_opcodes_without_panicking() {
    let result = Instruction::parse(86, 1);
    assert!(result.is_err());
    assert_eq!(result.unwrap_err(), ParseErrorKind::Tag);
}

#[test]
fn decodes_ad_operands_with_negative_d() {
    // LOADN (4), A = 7, D = -2
    let word = 4u32 | (7 << 8) | (0xfffe << 16);
    assert!(matches!(
        Instruction::parse(word, 1).unwrap(),
        Instruction::AD { op_code: OpCode::LOP_LOADN, a: 7, d: -2, aux: 0 }
    ));
}

#[test]
fn decodes_e_operand_sign_extended() {
    // JUMPX (67), E = -3
    let word = 67u32 | ((-3i32 as u32) << 8);
    assert!(matches!(
        Instruction::parse(word, 1).unwrap(),
        Instruction::E { op_code: OpCode::LOP_JUMPX, e: -3 }
    ));
    // COVERAGE (69), E = 0x7fffff
    let word = 69u32 | (0x7f_ffff << 8);
    assert!(matches!(
        Instruction::parse(word, 1).unwrap(),
        Instruction::E { op_code: OpCode::LOP_COVERAGE, e: 0x7f_ffff }
    ));
}

#[test]
fn encode_key_multiplies_the_opcode_byte() {
    // 0x0b * 203 = 2233 = 8 * 256 + 185: not an opcode; 0x5f * 203 = 19285 = 75 * 256 + 85
    assert!(Instruction::parse(0x0b, 203).is_err());
    assert!(matches!(
        Instruction::parse(0x5f | (9 << 8), 203).unwrap(),
        Instruction::BC { op_code: OpCode::LOP_NAMECALLUDATA, a: 9, .. }
    ));
}

#[test]
fn opcode_97_reads_as_nop() {
    assert!(matches!(
        Instruction::parse(97 | (5 << 8), 1).unwrap(),
        Instruction::BC { op_code: OpCode::LOP_NOP, a: 0, b: 0, c: 0, aux: 0 }
    ));
}

#[test]
fn every_opcode_number_decodes_to_its_opcode() {
    for n in 0u8..=85 {
        let op = OpCode::from_byte(n).unwrap();
        assert_eq!(op as u8, n);
        let op_code = match Instruction::parse(u32::from(n), 1).unwrap() {
            Instruction::BC { op_code, .. } => op_code,
            Instruction::AD { op_code, .. } => op_code,
            Instruction::E { op_code, .. } => op_code,
        };
        assert_eq!(op_code, op);
    }
    assert!(OpCode::from_byte(86).is_none());
}
