//! The opcodes of Luau bytecode, numbered as the VM numbers them.
use vstd::prelude::*;

verus! {

/// A Luau opcode. Each variant stands in the position of its number.
#[allow(non_camel_case_types)]
#[derive(Debug, Clone, Copy, PartialEq, Eq, Structural)]
pub enum OpCode {
    LOP_NOP,
    LOP_BREAK,
    LOP_LOADNIL,
    LOP_LOADB,
    LOP_LOADN,
    LOP_LOADK,
    LOP_MOVE,
    LOP_GETGLOBAL,
    LOP_SETGLOBAL,
    LOP_GETUPVAL,
    LOP_SETUPVAL,
    LOP_CLOSEUPVALS,
    LOP_GETIMPORT,
    LOP_GETTABLE,
    LOP_SETTABLE,
    LOP_GETTABLEKS,
    LOP_SETTABLEKS,
    LOP_GETTABLEN,
    LOP_SETTABLEN,
    LOP_NEWCLOSURE,
    LOP_NAMECALL,
    LOP_CALL,
    LOP_RETURN,
    LOP_JUMP,
    LOP_JUMPBACK,
    LOP_JUMPIF,
    LOP_JUMPIFNOT,
    LOP_JUMPIFEQ,
    LOP_JUMPIFLE,
    LOP_JUMPIFLT,
    LOP_JUMPIFNOTEQ,
    LOP_JUMPIFNOTLE,
    LOP_JUMPIFNOTLT,
    LOP_ADD,
    LOP_SUB,
    LOP_MUL,
    LOP_DIV,
    LOP_MOD,
    LOP_POW,
    LOP_ADDK,
    LOP_SUBK,
    LOP_MULK,
    LOP_DIVK,
    LOP_MODK,
    LOP_POWK,
    LOP_AND,
    LOP_OR,
    LOP_ANDK,
    LOP_ORK,
    LOP_CONCAT,
    LOP_NOT,
    LOP_MINUS,
    LOP_LENGTH,
    LOP_NEWTABLE,
    LOP_DUPTABLE,
    LOP_SETLIST,
    LOP_FORNPREP,
    LOP_FORNLOOP,
    LOP_FORGLOOP,
    LOP_FORGPREP_INEXT,
    LOP_FASTCALL3,
    LOP_FORGPREP_NEXT,
    LOP_NATIVECALL,
    LOP_GETVARARGS,
    LOP_DUPCLOSURE,
    LOP_PREPVARARGS,
    LOP_LOADKX,
    LOP_JUMPX,
    LOP_FASTCALL,
    LOP_COVERAGE,
    LOP_CAPTURE,
    LOP_SUBRK,
    LOP_DIVRK,
    LOP_FASTCALL1,
    LOP_FASTCALL2,
    LOP_FASTCALL2K,
    LOP_FORGPREP,
    LOP_JUMPXEQKNIL,
    LOP_JUMPXEQKB,
    LOP_JUMPXEQKN,
    LOP_JUMPXEQKS,
    LOP_IDIV,
    LOP_IDIVK,
    LOP_GETUDATAKS,
    LOP_SETUDATAKS,
    LOP_NAMECALLUDATA,
}

/// The number of the highest opcode.
pub const MAX_OP_CODE: u8 = 85;

/// The opcode numbered `b`, for `b <= MAX_OP_CODE`.
pub open spec fn op_code_of(b: u8) -> OpCode {
    match b {
        0 => OpCode::LOP_NOP,
        1 => OpCode::LOP_BREAK,
        2 => OpCode::LOP_LOADNIL,
        3 => OpCode::LOP_LOADB,
        4 => OpCode::LOP_LOADN,
        5 => OpCode::LOP_LOADK,
        6 => OpCode::LOP_MOVE,
        7 => OpCode::LOP_GETGLOBAL,
        8 => OpCode::LOP_SETGLOBAL,
        9 => OpCode::LOP_GETUPVAL,
        10 => OpCode::LOP_SETUPVAL,
        11 => OpCode::LOP_CLOSEUPVALS,
        12 => OpCode::LOP_GETIMPORT,
        13 => OpCode::LOP_GETTABLE,
        14 => OpCode::LOP_SETTABLE,
        15 => OpCode::LOP_GETTABLEKS,
        16 => OpCode::LOP_SETTABLEKS,
        17 => OpCode::LOP_GETTABLEN,
        18 => OpCode::LOP_SETTABLEN,
        19 => OpCode::LOP_NEWCLOSURE,
        20 => OpCode::LOP_NAMECALL,
        21 => OpCode::LOP_CALL,
        22 => OpCode::LOP_RETURN,
        23 => OpCode::LOP_JUMP,
        24 => OpCode::LOP_JUMPBACK,
        25 => OpCode::LOP_JUMPIF,
        26 => OpCode::LOP_JUMPIFNOT,
        27 => OpCode::LOP_JUMPIFEQ,
        28 => OpCode::LOP_JUMPIFLE,
        29 => OpCode::LOP_JUMPIFLT,
        30 => OpCode::LOP_JUMPIFNOTEQ,
        31 => OpCode::LOP_JUMPIFNOTLE,
        32 => OpCode::LOP_JUMPIFNOTLT,
        33 => OpCode::LOP_ADD,
        34 => OpCode::LOP_SUB,
        35 => OpCode::LOP_MUL,
        36 => OpCode::LOP_DIV,
        37 => OpCode::LOP_MOD,
        38 => OpCode::LOP_POW,
        39 => OpCode::LOP_ADDK,
        40 => OpCode::LOP_SUBK,
        41 => OpCode::LOP_MULK,
        42 => OpCode::LOP_DIVK,
        43 => OpCode::LOP_MODK,
        44 => OpCode::LOP_POWK,
        45 => OpCode::LOP_AND,
        46 => OpCode::LOP_OR,
        47 => OpCode::LOP_ANDK,
        48 => OpCode::LOP_ORK,
        49 => OpCode::LOP_CONCAT,
        50 => OpCode::LOP_NOT,
        51 => OpCode::LOP_MINUS,
        52 => OpCode::LOP_LENGTH,
        53 => OpCode::LOP_NEWTABLE,
        54 => OpCode::LOP_DUPTABLE,
        55 => OpCode::LOP_SETLIST,
        56 => OpCode::LOP_FORNPREP,
        57 => OpCode::LOP_FORNLOOP,
        58 => OpCode::LOP_FORGLOOP,
        59 => OpCode::LOP_FORGPREP_INEXT,
        60 => OpCode::LOP_FASTCALL3,
        61 => OpCode::LOP_FORGPREP_NEXT,
        62 => OpCode::LOP_NATIVECALL,
        63 => OpCode::LOP_GETVARARGS,
        64 => OpCode::LOP_DUPCLOSURE,
        65 => OpCode::LOP_PREPVARARGS,
        66 => OpCode::LOP_LOADKX,
        67 => OpCode::LOP_JUMPX,
        68 => OpCode::LOP_FASTCALL,
        69 => OpCode::LOP_COVERAGE,
        70 => OpCode::LOP_CAPTURE,
        71 => OpCode::LOP_SUBRK,
        72 => OpCode::LOP_DIVRK,
        73 => OpCode::LOP_FASTCALL1,
        74 => OpCode::LOP_FASTCALL2,
        75 => OpCode::LOP_FASTCALL2K,
        76 => OpCode::LOP_FORGPREP,
        77 => OpCode::LOP_JUMPXEQKNIL,
        78 => OpCode::LOP_JUMPXEQKB,
        79 => OpCode::LOP_JUMPXEQKN,
        80 => OpCode::LOP_JUMPXEQKS,
        81 => OpCode::LOP_IDIV,
        82 => OpCode::LOP_IDIVK,
        83 => OpCode::LOP_GETUDATAKS,
        84 => OpCode::LOP_SETUDATAKS,
        _ => OpCode::LOP_NAMECALLUDATA,
    }
}

/// The number of an opcode.
pub open spec fn op_code_number(op: OpCode) -> u8 {
    match op {
        OpCode::LOP_NOP => 0,
        OpCode::LOP_BREAK => 1,
        OpCode::LOP_LOADNIL => 2,
        OpCode::LOP_LOADB => 3,
        OpCode::LOP_LOADN => 4,
        OpCode::LOP_LOADK => 5,
        OpCode::LOP_MOVE => 6,
        OpCode::LOP_GETGLOBAL => 7,
        OpCode::LOP_SETGLOBAL => 8,
        OpCode::LOP_GETUPVAL => 9,
        OpCode::LOP_SETUPVAL => 10,
        OpCode::LOP_CLOSEUPVALS => 11,
        OpCode::LOP_GETIMPORT => 12,
        OpCode::LOP_GETTABLE => 13,
        OpCode::LOP_SETTABLE => 14,
        OpCode::LOP_GETTABLEKS => 15,
        OpCode::LOP_SETTABLEKS => 16,
        OpCode::LOP_GETTABLEN => 17,
        OpCode::LOP_SETTABLEN => 18,
        OpCode::LOP_NEWCLOSURE => 19,
        OpCode::LOP_NAMECALL => 20,
        OpCode::LOP_CALL => 21,
        OpCode::LOP_RETURN => 22,
        OpCode::LOP_JUMP => 23,
        OpCode::LOP_JUMPBACK => 24,
        OpCode::LOP_JUMPIF => 25,
        OpCode::LOP_JUMPIFNOT => 26,
        OpCode::LOP_JUMPIFEQ => 27,
        OpCode::LOP_JUMPIFLE => 28,
        OpCode::LOP_JUMPIFLT => 29,
        OpCode::LOP_JUMPIFNOTEQ => 30,
        OpCode::LOP_JUMPIFNOTLE => 31,
        OpCode::LOP_JUMPIFNOTLT => 32,
        OpCode::LOP_ADD => 33,
        OpCode::LOP_SUB => 34,
        OpCode::LOP_MUL => 35,
        OpCode::LOP_DIV => 36,
        OpCode::LOP_MOD => 37,
        OpCode::LOP_POW => 38,
        OpCode::LOP_ADDK => 39,
        OpCode::LOP_SUBK => 40,
        OpCode::LOP_MULK => 41,
        OpCode::LOP_DIVK => 42,
        OpCode::LOP_MODK => 43,
        OpCode::LOP_POWK => 44,
        OpCode::LOP_AND => 45,
        OpCode::LOP_OR => 46,
        OpCode::LOP_ANDK => 47,
        OpCode::LOP_ORK => 48,
        OpCode::LOP_CONCAT => 49,
        OpCode::LOP_NOT => 50,
        OpCode::LOP_MINUS => 51,
        OpCode::LOP_LENGTH => 52,
        OpCode::LOP_NEWTABLE => 53,
        OpCode::LOP_DUPTABLE => 54,
        OpCode::LOP_SETLIST => 55,
        OpCode::LOP_FORNPREP => 56,
        OpCode::LOP_FORNLOOP => 57,
        OpCode::LOP_FORGLOOP => 58,
        OpCode::LOP_FORGPREP_INEXT => 59,
        OpCode::LOP_FASTCALL3 => 60,
        OpCode::LOP_FORGPREP_NEXT => 61,
        OpCode::LOP_NATIVECALL => 62,
        OpCode::LOP_GETVARARGS => 63,
        OpCode::LOP_DUPCLOSURE => 64,
        OpCode::LOP_PREPVARARGS => 65,
        OpCode::LOP_LOADKX => 66,
        OpCode::LOP_JUMPX => 67,
        OpCode::LOP_FASTCALL => 68,
        OpCode::LOP_COVERAGE => 69,
        OpCode::LOP_CAPTURE => 70,
        OpCode::LOP_SUBRK => 71,
        OpCode::LOP_DIVRK => 72,
        OpCode::LOP_FASTCALL1 => 73,
        OpCode::LOP_FASTCALL2 => 74,
        OpCode::LOP_FASTCALL2K => 75,
        OpCode::LOP_FORGPREP => 76,
        OpCode::LOP_JUMPXEQKNIL => 77,
        OpCode::LOP_JUMPXEQKB => 78,
        OpCode::LOP_JUMPXEQKN => 79,
        OpCode::LOP_JUMPXEQKS => 80,
        OpCode::LOP_IDIV => 81,
        OpCode::LOP_IDIVK => 82,
        OpCode::LOP_GETUDATAKS => 83,
        OpCode::LOP_SETUDATAKS => 84,
        OpCode::LOP_NAMECALLUDATA => 85,
    }
}

/// The opcodes whose instruction is followed by an auxiliary word.
pub open spec fn spec_has_aux(op: OpCode) -> bool {
    match op {
        OpCode::LOP_GETGLOBAL => true,
        OpCode::LOP_SETGLOBAL => true,
        OpCode::LOP_GETIMPORT => true,
        OpCode::LOP_GETTABLEKS => true,
        OpCode::LOP_SETTABLEKS => true,
        OpCode::LOP_NAMECALL => true,
        OpCode::LOP_JUMPIFEQ => true,
        OpCode::LOP_JUMPIFLE => true,
        OpCode::LOP_JUMPIFLT => true,
        OpCode::LOP_JUMPIFNOTEQ => true,
        OpCode::LOP_JUMPIFNOTLE => true,
        OpCode::LOP_JUMPIFNOTLT => true,
        OpCode::LOP_NEWTABLE => true,
        OpCode::LOP_SETLIST => true,
        OpCode::LOP_FORGLOOP => true,
        OpCode::LOP_LOADKX => true,
        OpCode::LOP_FASTCALL2 => true,
        OpCode::LOP_FASTCALL2K => true,
        OpCode::LOP_FASTCALL3 => true,
        OpCode::LOP_JUMPXEQKNIL => true,
        OpCode::LOP_JUMPXEQKB => true,
        OpCode::LOP_JUMPXEQKN => true,
        OpCode::LOP_JUMPXEQKS => true,
        OpCode::LOP_GETUDATAKS => true,
        OpCode::LOP_SETUDATAKS => true,
        OpCode::LOP_NAMECALLUDATA => true,
        _ => false,
    }
}

impl OpCode {
    /// The opcode numbered `b`, if there is one.
    pub fn from_byte(b: u8) -> (res: Option<OpCode>)
        ensures
            res == (if b <= MAX_OP_CODE { Some(op_code_of(b)) } else { None::<OpCode> }),
    {
        match b {
            0 => Some(OpCode::LOP_NOP),
            1 => Some(OpCode::LOP_BREAK),
            2 => Some(OpCode::LOP_LOADNIL),
            3 => Some(OpCode::LOP_LOADB),
            4 => Some(OpCode::LOP_LOADN),
            5 => Some(OpCode::LOP_LOADK),
            6 => Some(OpCode::LOP_MOVE),
            7 => Some(OpCode::LOP_GETGLOBAL),
            8 => Some(OpCode::LOP_SETGLOBAL),
            9 => Some(OpCode::LOP_GETUPVAL),
            10 => Some(OpCode::LOP_SETUPVAL),
            11 => Some(OpCode::LOP_CLOSEUPVALS),
            12 => Some(OpCode::LOP_GETIMPORT),
            13 => Some(OpCode::LOP_GETTABLE),
            14 => Some(OpCode::LOP_SETTABLE),
            15 => Some(OpCode::LOP_GETTABLEKS),
            16 => Some(OpCode::LOP_SETTABLEKS),
            17 => Some(OpCode::LOP_GETTABLEN),
            18 => Some(OpCode::LOP_SETTABLEN),
            19 => Some(OpCode::LOP_NEWCLOSURE),
            20 => Some(OpCode::LOP_NAMECALL),
            21 => Some(OpCode::LOP_CALL),
            22 => Some(OpCode::LOP_RETURN),
            23 => Some(OpCode::LOP_JUMP),
            24 => Some(OpCode::LOP_JUMPBACK),
            25 => Some(OpCode::LOP_JUMPIF),
            26 => Some(OpCode::LOP_JUMPIFNOT),
            27 => Some(OpCode::LOP_JUMPIFEQ),
            28 => Some(OpCode::LOP_JUMPIFLE),
            29 => Some(OpCode::LOP_JUMPIFLT),
            30 => Some(OpCode::LOP_JUMPIFNOTEQ),
            31 => Some(OpCode::LOP_JUMPIFNOTLE),
            32 => Some(OpCode::LOP_JUMPIFNOTLT),
            33 => Some(OpCode::LOP_ADD),
            34 => Some(OpCode::LOP_SUB),
            35 => Some(OpCode::LOP_MUL),
            36 => Some(OpCode::LOP_DIV),
            37 => Some(OpCode::LOP_MOD),
            38 => Some(OpCode::LOP_POW),
            39 => Some(OpCode::LOP_ADDK),
            40 => Some(OpCode::LOP_SUBK),
            41 => Some(OpCode::LOP_MULK),
            42 => Some(OpCode::LOP_DIVK),
            43 => Some(OpCode::LOP_MODK),
            44 => Some(OpCode::LOP_POWK),
            45 => Some(OpCode::LOP_AND),
            46 => Some(OpCode::LOP_OR),
            47 => Some(OpCode::LOP_ANDK),
            48 => Some(OpCode::LOP_ORK),
            49 => Some(OpCode::LOP_CONCAT),
            50 => Some(OpCode::LOP_NOT),
            51 => Some(OpCode::LOP_MINUS),
            52 => Some(OpCode::LOP_LENGTH),
            53 => Some(OpCode::LOP_NEWTABLE),
            54 => Some(OpCode::LOP_DUPTABLE),
            55 => Some(OpCode::LOP_SETLIST),
            56 => Some(OpCode::LOP_FORNPREP),
            57 => Some(OpCode::LOP_FORNLOOP),
            58 => Some(OpCode::LOP_FORGLOOP),
            59 => Some(OpCode::LOP_FORGPREP_INEXT),
            60 => Some(OpCode::LOP_FASTCALL3),
            61 => Some(OpCode::LOP_FORGPREP_NEXT),
            62 => Some(OpCode::LOP_NATIVECALL),
            63 => Some(OpCode::LOP_GETVARARGS),
            64 => Some(OpCode::LOP_DUPCLOSURE),
            65 => Some(OpCode::LOP_PREPVARARGS),
            66 => Some(OpCode::LOP_LOADKX),
            67 => Some(OpCode::LOP_JUMPX),
            68 => Some(OpCode::LOP_FASTCALL),
            69 => Some(OpCode::LOP_COVERAGE),
            70 => Some(OpCode::LOP_CAPTURE),
            71 => Some(OpCode::LOP_SUBRK),
            72 => Some(OpCode::LOP_DIVRK),
            73 => Some(OpCode::LOP_FASTCALL1),
            74 => Some(OpCode::LOP_FASTCALL2),
            75 => Some(OpCode::LOP_FASTCALL2K),
            76 => Some(OpCode::LOP_FORGPREP),
            77 => Some(OpCode::LOP_JUMPXEQKNIL),
            78 => Some(OpCode::LOP_JUMPXEQKB),
            79 => Some(OpCode::LOP_JUMPXEQKN),
            80 => Some(OpCode::LOP_JUMPXEQKS),
            81 => Some(OpCode::LOP_IDIV),
            82 => Some(OpCode::LOP_IDIVK),
            83 => Some(OpCode::LOP_GETUDATAKS),
            84 => Some(OpCode::LOP_SETUDATAKS),
            85 => Some(OpCode::LOP_NAMECALLUDATA),
            _ => None,
        }
    }

    /// Whether an auxiliary word follows an instruction with this opcode.
    pub fn has_aux(self) -> (res: bool)
        ensures
            res == spec_has_aux(self),
    {
        match self {
            OpCode::LOP_GETGLOBAL => true,
            OpCode::LOP_SETGLOBAL => true,
            OpCode::LOP_GETIMPORT => true,
            OpCode::LOP_GETTABLEKS => true,
            OpCode::LOP_SETTABLEKS => true,
            OpCode::LOP_NAMECALL => true,
            OpCode::LOP_JUMPIFEQ => true,
            OpCode::LOP_JUMPIFLE => true,
            OpCode::LOP_JUMPIFLT => true,
            OpCode::LOP_JUMPIFNOTEQ => true,
            OpCode::LOP_JUMPIFNOTLE => true,
            OpCode::LOP_JUMPIFNOTLT => true,
            OpCode::LOP_NEWTABLE => true,
            OpCode::LOP_SETLIST => true,
            OpCode::LOP_FORGLOOP => true,
            OpCode::LOP_LOADKX => true,
            OpCode::LOP_FASTCALL2 => true,
            OpCode::LOP_FASTCALL2K => true,
            OpCode::LOP_FASTCALL3 => true,
            OpCode::LOP_JUMPXEQKNIL => true,
            OpCode::LOP_JUMPXEQKB => true,
            OpCode::LOP_JUMPXEQKN => true,
            OpCode::LOP_JUMPXEQKS => true,
            OpCode::LOP_GETUDATAKS => true,
            OpCode::LOP_SETUDATAKS => true,
            OpCode::LOP_NAMECALLUDATA => true,
            _ => false,
        }
    }
}

/// Numbering is one to one: each opcode is the opcode of its number.
pub proof fn law_op_code_numbering(op: OpCode)
    ensures
        op_code_number(op) <= MAX_OP_CODE,
        op_code_of(op_code_number(op)) == op,
{
}

} // verus!
