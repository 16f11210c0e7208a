use luau_lifter::bytecode::{deserialize, Bytecode, MAX_SUPPORTED_VERSION, MIN_SUPPORTED_VERSION};
use luau_lifter::constant::Constant;
use luau_lifter::instruction::Instruction;
use luau_lifter::op_code::OpCode;

fn encoded_opcode(op_code: u8, encode_key: u8) -> u8 {
    (0..=u8::MAX)
        .find(|candidate| candidate.wrapping_mul(encode_key) == op_code)
        .expect("encode key must be invertible modulo 256")
}

fn abc_instruction(op_code: u8, encode_key: u8, a: u8, b: u8, c: u8) -> u32 {
    u32::from(encoded_opcode(op_code, encode_key))
        | (u32::from(a) << 8)
        | (u32::from(b) << 16)
        | (u32::from(c) << 24)
}

fn ad_instruction(op_code: u8, encode_key: u8, a: u8, d: i16) -> u32 {
    u32::from(encoded_opcode(op_code, encode_key))
        | (u32::from(a) << 8)
        | (u32::from(d as u16) << 16)
}

fn version_nine_chunk(encode_key: u8) -> Vec<u8> {
    let mut result = vec![
        9, // bytecode version
        3, // type encoding version
        1, 5, b'f', b'i', b'e', b'l', b'd', // string table
        0,    // end of userdata type remapping
        1,    // function count
        2, 1, 0, 0, 0, // function header
        0, // type info size
        3, // instruction word count
    ];

    result.extend_from_slice(
        &abc_instruction(OpCode::LOP_GETUDATAKS as u8, encode_key, 1, 0, 0).to_le_bytes(),
    );
    result.extend_from_slice(&(0xabcd_u32 << 16).to_le_bytes());
    result.extend_from_slice(
        &abc_instruction(OpCode::LOP_RETURN as u8, encode_key, 1, 2, 0).to_le_bytes(),
    );
    result.extend_from_slice(&[
        1, // constant count
        3, 1, // string constant, string table index 1
        0, // child function count
        0, // line defined
        0, // debug function name
        0, // no line info
        1, // debug info is present
        1, // local count
        1, // local name: string table index 1
        0, // local start pc
        3, // local end pc
        0, // local register
        0, // debug upvalue count
        0, // main function index
    ]);
    result
}

fn version_nine_prefilled_table_chunk(encode_key: u8) -> Vec<u8> {
    let mut result = vec![
        9, // bytecode version
        3, // type encoding version
        1, 6, b'a', b'n', b's', b'w', b'e', b'r', // string table
        0,    // end of userdata type remapping
        1,    // function count
        1, 0, 0, 0, 0, // function header
        0, // type info size
        2, // instruction word count
    ];

    result.extend_from_slice(
        &ad_instruction(OpCode::LOP_DUPTABLE as u8, encode_key, 0, 2).to_le_bytes(),
    );
    result.extend_from_slice(
        &abc_instruction(OpCode::LOP_RETURN as u8, encode_key, 0, 2, 0).to_le_bytes(),
    );
    result.extend_from_slice(&[
        3, // constant count
        3, 1, // constant 0: string table index 1
        9, 0, 42, // constant 1: positive integer 42
        8, 1, 0, // constant 2: table template, one entry, key constant 0
    ]);
    result.extend_from_slice(&1i32.to_le_bytes()); // value constant 1
    result.extend_from_slice(&[
        0, // child function count
        0, // line defined
        0, // debug function name
        0, // no line info
        0, // no debug info
        0, // main function index
    ]);
    result
}

fn empty_chunk(version: u8) -> Vec<u8> {
    // version, type version, string count, proto count, main proto id
    vec![version, 1, 0, 0, 0]
}

#[test]
fn accepts_supported_versions_through_nine() {
    for version in MIN_SUPPORTED_VERSION..=MAX_SUPPORTED_VERSION {
        let input = empty_chunk(version);
        let (remaining, parsed) = Bytecode::parse(&input, 1).unwrap();

        assert!(remaining.is_empty());
        assert!(matches!(parsed, Bytecode::Chunk(_)));
    }
}

#[test]
fn rejects_unsupported_versions_without_panicking() {
    let result = Bytecode::parse(&[10], 1);
    assert!(result.is_err());
}

#[test]
fn deserializes_complete_version_nine_chunk() {
    let encode_key = 203;
    let bytecode = version_nine_chunk(encode_key);
    let parsed = deserialize(&bytecode, encode_key).unwrap();
    let Bytecode::Chunk(chunk) = parsed else {
        panic!("expected a bytecode chunk")
    };

    assert_eq!(chunk.string_table, vec![b"field".to_vec()]);
    assert_eq!(chunk.functions.len(), 1);
    assert_eq!(chunk.functions[0].instructions.len(), 3);
    assert!(matches!(
        chunk.functions[0].instructions[0],
        Instruction::BC {
            op_code: OpCode::LOP_GETUDATAKS,
            a: 1,
            b: 0,
            aux: 0xabcd0000,
            ..
        }
    ));
}

#[test]
fn decompiles_cumulative_version_seven_and_eight_features_in_version_nine() {
    let encode_key = 203;
    let parsed = deserialize(&version_nine_prefilled_table_chunk(encode_key), encode_key).unwrap();
    let Bytecode::Chunk(chunk) = parsed else {
        panic!("expected a bytecode chunk")
    };

    assert_eq!(chunk.string_table, vec![b"answer".to_vec()]);
    let function = &chunk.functions[0];
    assert_eq!(function.constants[0], Constant::String(1));
    assert_eq!(function.constants[1], Constant::Integer(42));
    assert_eq!(function.constants[2], Constant::TableWithConstants(vec![(0, Some(1))]));
    assert!(matches!(
        function.instructions[0],
        Instruction::AD { op_code: OpCode::LOP_DUPTABLE, a: 0, d: 2, aux: 0 }
    ));
}

#[test]
fn accepts_host_data_after_a_complete_version_nine_chunk() {
    let encode_key = 203;
    let mut bytecode = version_nine_chunk(encode_key);
    let chunk_len = bytecode.len();
    bytecode.extend_from_slice(&[0xa5; 24]);

    let (remaining, _) = Bytecode::parse(&bytecode, encode_key).unwrap();
    assert_eq!(remaining.len(), 24);
    assert_eq!(bytecode.len() - remaining.len(), chunk_len);

    let Bytecode::Chunk(chunk) = deserialize(&bytecode, encode_key).unwrap() else {
        panic!("expected a bytecode chunk")
    };
    assert_eq!(chunk.string_table, vec![b"field".to_vec()]);
    assert_eq!(chunk.functions[0].instructions.len(), 3);
}

#[test]
fn reports_future_versions_without_panicking_the_server_worker() {
    let result = deserialize(&[10], 203);
    assert_eq!(
        result.unwrap_err(),
        "unsupported bytecode version: 10 (supported: 4..=9)"
    );
}

#[test]
fn reports_empty_input() {
    assert_eq!(deserialize(&[], 203).unwrap_err(), "bytecode is empty");
}

#[test]
fn returns_compiler_error_messages() {
    let mut blob = vec![0];
    blob.extend_from_slice(b"[string \"x\"]:1: syntax error");
    let Bytecode::Error(message) = deserialize(&blob, 203).unwrap() else {
        panic!("expected an error message")
    };
    assert_eq!(message, "[string \"x\"]:1: syntax error");
}

#[test]
fn reports_parse_errors_as_nom_does() {
    // a version 9 chunk cut off after the type version byte
    assert_eq!(
        deserialize(&[9, 3], 203).unwrap_err(),
        "Parsing requires 1 bytes/chars"
    );
    // a string table entry longer than the input
    assert_eq!(
        deserialize(&[9, 1, 1, 5, b'a'], 203).unwrap_err(),
        "Parsing Error: Error { input: [97], code: Eof }"
    );
}

#[test]
fn keeps_auxiliary_words_in_place() {
    let encode_key = 203;
    let bytecode = version_nine_chunk(encode_key);
    let Bytecode::Chunk(chunk) = deserialize(&bytecode, encode_key).unwrap() else {
        panic!("expected a bytecode chunk")
    };
    let function = &chunk.functions[0];
    assert!(matches!(
        function.instructions[1],
        Instruction::BC { op_code: OpCode::LOP_NOP, aux: 0xabcd0000, .. }
    ));
    assert!(matches!(
        function.instructions[2],
        Instruction::BC { op_code: OpCode::LOP_RETURN, a: 1, b: 2, .. }
    ));
    let debug = function.debug_info.as_ref().unwrap();
    assert_eq!(debug.locals.len(), 1);
    assert_eq!(debug.locals[0].end_pc, 3);
    assert_eq!(chunk.main, 0);
}

#[test]
fn rejects_unknown_opcodes_in_code() {
    let mut blob = vec![6, 1, 0, 1, 0, 0, 0, 0, 0, 0, 1];
    blob.extend_from_slice(&86u32.to_le_bytes());
    let rest_at = blob.len();
    blob.extend_from_slice(&[0, 0, 0, 0, 0, 0, 0]);
    let err = Bytecode::parse(&blob, 1).unwrap_err();
    assert_eq!(
        err,
        luau_lifter::error::ParseError::Failure {
            offset: rest_at,
            kind: luau_lifter::error::ParseErrorKind::Tag
        }
    );
}

#[test]
fn utf8_compiler_messages_come_back_unchanged() {
    let Bytecode::Error(message) = deserialize(&[0, b'o', b'k'], 203).unwrap() else {
        panic!("expected an error message")
    };
    assert_eq!(message, "ok");
    assert_eq!(
        deserialize(&[9, 1, 1, 5, b'a', b'b'], 203).unwrap_err(),
        "Parsing Error: Error { input: [97, 98], code: Eof }"
    );
}
