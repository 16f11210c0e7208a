//! Function prototypes: header, code, constants, children and debug data.
use crate::constant::{lemma_constant_items_prefix, Constant, ConstantItems, ConstantModel};
use crate::error::{failure_at, PResult, ParseError, ParseErrorKind};
use crate::instruction::{instruction_of, Instruction};
use crate::op_code::{spec_has_aux, OpCode};
use crate::reader::{
    item_prefix_stable, lemma_fixed_prefix, lemma_leb128_prefix, lemma_list_prefix,
    lemma_many_prefix, lemma_usize_items_prefix, prefix_stable, byte_at, bytes_at, ends_within, i32_at, item_fn, leb128_usize_at, list_at, many, model_of,
    read_bytes, read_i32, read_leb128_usize, read_list, read_many, read_u32, read_u8, string_at,
    u32_at, ItemReader, UsizeItems,
};
use vstd::prelude::*;

verus! {

/// Line information: the gap (as a power of two) between absolute line
/// entries, one line delta per code word, and the absolute lines.
#[derive(Debug)]
pub struct LineInfo {
    pub line_gap_log2: u8,
    pub line_info: Vec<u8>,
    pub abs_line_info: Vec<i32>,
}

pub struct LineInfoModel {
    pub line_gap_log2: u8,
    pub line_info: Seq<u8>,
    pub abs_line_info: Seq<i32>,
}

impl DeepView for LineInfo {
    type V = LineInfoModel;

    open spec fn deep_view(&self) -> LineInfoModel {
        LineInfoModel {
            line_gap_log2: self.line_gap_log2,
            line_info: self.line_info.deep_view(),
            abs_line_info: self.abs_line_info.deep_view(),
        }
    }
}

/// A local variable of the debug information: its name (a string table
/// index), the code range in which it lives, and its register.
#[derive(Debug, Clone, Copy, PartialEq, Eq)]
pub struct LocalVariable {
    pub name: usize,
    pub start_pc: usize,
    pub end_pc: usize,
    pub register: u8,
}

impl DeepView for LocalVariable {
    type V = LocalVariable;

    open spec fn deep_view(&self) -> LocalVariable {
        *self
    }
}

/// Debug information: local variables and upvalue names.
#[derive(Debug)]
pub struct DebugInfo {
    pub locals: Vec<LocalVariable>,
    pub upvalues: Vec<usize>,
}

pub struct DebugInfoModel {
    pub locals: Seq<LocalVariable>,
    pub upvalues: Seq<usize>,
}

impl DeepView for DebugInfo {
    type V = DebugInfoModel;

    open spec fn deep_view(&self) -> DebugInfoModel {
        DebugInfoModel { locals: self.locals.deep_view(), upvalues: self.upvalues.deep_view() }
    }
}

/// A function prototype.
///
/// `instructions` has one entry per code word: an instruction whose opcode
/// takes an auxiliary word carries it in `aux`, and the slot of that word
/// holds a `NOP` that carries it too, so that an index into `instructions` is
/// a program counter. `functions` holds the indices of the child prototypes.
#[derive(Debug)]
pub struct Function {
    pub max_stack_size: u8,
    pub num_parameters: u8,
    pub num_upvalues: u8,
    pub is_vararg: bool,
    pub flags: u8,
    pub type_info: Vec<u8>,
    pub instructions: Vec<Instruction>,
    pub constants: Vec<Constant>,
    pub functions: Vec<usize>,
    pub line_defined: usize,
    pub function_name: usize,
    pub line_info: Option<LineInfo>,
    pub debug_info: Option<DebugInfo>,
}

pub struct FunctionModel {
    pub max_stack_size: u8,
    pub num_parameters: u8,
    pub num_upvalues: u8,
    pub is_vararg: bool,
    pub flags: u8,
    pub type_info: Seq<u8>,
    pub instructions: Seq<Instruction>,
    pub constants: Seq<ConstantModel>,
    pub functions: Seq<usize>,
    pub line_defined: usize,
    pub function_name: usize,
    pub line_info: Option<LineInfoModel>,
    pub debug_info: Option<DebugInfoModel>,
}

impl DeepView for Function {
    type V = FunctionModel;

    open spec fn deep_view(&self) -> FunctionModel {
        FunctionModel {
            max_stack_size: self.max_stack_size,
            num_parameters: self.num_parameters,
            num_upvalues: self.num_upvalues,
            is_vararg: self.is_vararg,
            flags: self.flags,
            type_info: self.type_info.deep_view(),
            instructions: self.instructions.deep_view(),
            constants: self.constants.deep_view(),
            functions: self.functions.deep_view(),
            line_defined: self.line_defined,
            function_name: self.function_name,
            line_info: self.line_info.deep_view(),
            debug_info: self.debug_info.deep_view(),
        }
    }
}

// ---------------------------------------------------------------- item kinds
/// Reads little-endian `u32` code words.
pub struct WordItems;

impl ItemReader for WordItems {
    type Item = u32;

    open spec fn item_at(&self, s: Seq<u8>, p: int) -> PResult<u32> {
        u32_at(s, p)
    }

    fn read_item(&self, input: &[u8], pos: usize) -> (res: Result<(usize, u32), ParseError>) {
        read_u32(input, pos)
    }
}

/// Reads little-endian `i32`s.
pub struct I32Items;

impl ItemReader for I32Items {
    type Item = i32;

    open spec fn item_at(&self, s: Seq<u8>, p: int) -> PResult<i32> {
        i32_at(s, p)
    }

    fn read_item(&self, input: &[u8], pos: usize) -> (res: Result<(usize, i32), ParseError>) {
        read_i32(input, pos)
    }
}

/// A local variable at `p`.
pub open spec fn local_at(s: Seq<u8>, p: int) -> PResult<LocalVariable> {
    match leb128_usize_at(s, p) {
        Ok((p1, name)) => match leb128_usize_at(s, p1) {
            Ok((p2, start_pc)) => match leb128_usize_at(s, p2) {
                Ok((p3, end_pc)) => match byte_at(s, p3) {
                    Ok((p4, register)) => Ok((p4, LocalVariable { name, start_pc, end_pc, register })),
                    Err(e) => Err(e),
                },
                Err(e) => Err(e),
            },
            Err(e) => Err(e),
        },
        Err(e) => Err(e),
    }
}

/// Reads local variables.
pub struct LocalItems;

impl ItemReader for LocalItems {
    type Item = LocalVariable;

    open spec fn item_at(&self, s: Seq<u8>, p: int) -> PResult<LocalVariable> {
        local_at(s, p)
    }

    fn read_item(&self, input: &[u8], pos: usize) -> (res: Result<(usize, LocalVariable), ParseError>) {
        let (p1, name) = match read_leb128_usize(input, pos) {
            Ok(r) => r,
            Err(e) => return Err(e),
        };
        let (p2, start_pc) = match read_leb128_usize(input, p1) {
            Ok(r) => r,
            Err(e) => return Err(e),
        };
        let (p3, end_pc) = match read_leb128_usize(input, p2) {
            Ok(r) => r,
            Err(e) => return Err(e),
        };
        let (p4, register) = match read_u8(input, p3) {
            Ok(r) => r,
            Err(e) => return Err(e),
        };
        Ok((p4, LocalVariable { name, start_pc, end_pc, register }))
    }
}

// ---------------------------------------------------------------------- code
/// The opcode of a decoded instruction.
pub open spec fn op_of(ins: Instruction) -> OpCode {
    match ins {
        Instruction::BC { op_code, .. } => op_code,
        Instruction::AD { op_code, .. } => op_code,
        Instruction::E { op_code, .. } => op_code,
    }
}

/// An instruction with its auxiliary word set.
pub open spec fn with_aux(ins: Instruction, aux: u32) -> Instruction {
    match ins {
        Instruction::BC { op_code, a, b, c, .. } => Instruction::BC { op_code, a, b, c, aux },
        Instruction::AD { op_code, a, d, .. } => Instruction::AD { op_code, a, d, aux },
        Instruction::E { op_code, e } => Instruction::E { op_code, e },
    }
}

/// What stands in the slot of an auxiliary word.
pub open spec fn aux_slot(aux: u32) -> Instruction {
    Instruction::BC { op_code: OpCode::LOP_NOP, a: 0, b: 0, c: 0, aux }
}

/// The instructions of the code words from index `i` on. A word whose opcode
/// takes an auxiliary word gives two entries; an opcode that is unknown, or
/// whose auxiliary word is missing, is an error.
pub open spec fn decoded_from(words: Seq<u32>, encode_key: u8, i: int) -> Result<
    Seq<Instruction>,
    ParseErrorKind,
>
    decreases words.len() - i,
{
    if i < 0 || i >= words.len() {
        Ok(Seq::empty())
    } else {
        match instruction_of(words[i], encode_key) {
            Ok(ins) => if spec_has_aux(op_of(ins)) {
                if i + 1 < words.len() {
                    match decoded_from(words, encode_key, i + 2) {
                        Ok(rest) => Ok(seq![with_aux(ins, words[i + 1]), aux_slot(words[i + 1])]
                            + rest),
                        Err(k) => Err(k),
                    }
                } else {
                    Err(ParseErrorKind::Eof)
                }
            } else {
                match decoded_from(words, encode_key, i + 1) {
                    Ok(rest) => Ok(seq![ins] + rest),
                    Err(k) => Err(k),
                }
            },
            Err(k) => Err(k),
        }
    }
}

/// The code at `p`: a counted list of words, decoded. A decoding error is
/// reported, unrecoverable, at the end of the word list.
pub open spec fn code_at(s: Seq<u8>, p: int, encode_key: u8) -> PResult<Seq<Instruction>> {
    match list_at(s, p, item_fn(WordItems)) {
        Ok((q, words)) => match decoded_from(words, encode_key, 0) {
            Ok(code) => Ok((q, code)),
            Err(k) => Err(failure_at(q, k)),
        },
        Err(e) => Err(e),
    }
}

pub open spec fn prepend_code(pre: Seq<Instruction>, r: Result<Seq<Instruction>, ParseErrorKind>) -> Result<
    Seq<Instruction>,
    ParseErrorKind,
> {
    match r {
        Ok(xs) => Ok(pre + xs),
        Err(k) => Err(k),
    }
}

impl Instruction {
    /// The opcode of this instruction.
    pub fn op_code(&self) -> (res: OpCode)
        ensures
            res == op_of(*self),
    {
        match self {
            Instruction::BC { op_code, .. } => *op_code,
            Instruction::AD { op_code, .. } => *op_code,
            Instruction::E { op_code, .. } => *op_code,
        }
    }

    /// This instruction with its auxiliary word set.
    pub fn with_aux(self, aux: u32) -> (res: Instruction)
        ensures
            res == with_aux(self, aux),
    {
        match self {
            Instruction::BC { op_code, a, b, c, .. } => Instruction::BC { op_code, a, b, c, aux },
            Instruction::AD { op_code, a, d, .. } => Instruction::AD { op_code, a, d, aux },
            Instruction::E { op_code, e } => Instruction::E { op_code, e },
        }
    }
}

/// Decodes a function's code words.
pub fn decode_code(words: &Vec<u32>, encode_key: u8) -> (res: Result<Vec<Instruction>, ParseErrorKind>)
    ensures
        match res {
            Ok(v) => decoded_from(words@, encode_key, 0) == Ok::<Seq<Instruction>, ParseErrorKind>(
                v.deep_view(),
            ),
            Err(k) => decoded_from(words@, encode_key, 0) == Err::<Seq<Instruction>, ParseErrorKind>(
                k,
            ),
        },
{
    let ghost w = words@;
    let mut out: Vec<Instruction> = Vec::new();
    let mut i: usize = 0;
    while i < words.len()
        invariant
            w == words@,
            i <= w.len(),
            decoded_from(w, encode_key, 0) == prepend_code(out@, decoded_from(w, encode_key, i as int)),
        decreases w.len() - i,
    {
        let ins = match Instruction::parse(words[i], encode_key) {
            Ok(x) => x,
            Err(k) => return Err(k),
        };
        let ghost before = out@;
        if ins.op_code().has_aux() {
            if i + 1 < words.len() {
                let aux = words[i + 1];
                out.push(ins.with_aux(aux));
                out.push(Instruction::BC { op_code: OpCode::LOP_NOP, a: 0, b: 0, c: 0, aux });
                proof {
                    let rest = decoded_from(w, encode_key, i + 2);
                    assert(out@ =~= before + seq![with_aux(ins, aux), aux_slot(aux)]);
                    if let Ok(xs) = rest {
                        assert(before + (seq![with_aux(ins, aux), aux_slot(aux)] + xs) =~= out@ + xs);
                    }
                }
                i = i + 2;
            } else {
                return Err(ParseErrorKind::Eof);
            }
        } else {
            out.push(ins);
            proof {
                let rest = decoded_from(w, encode_key, i + 1);
                assert(out@ =~= before + seq![ins]);
                if let Ok(xs) = rest {
                    assert(before + (seq![ins] + xs) =~= out@ + xs);
                }
            }
            i = i + 1;
        }
    }
    proof {
        assert(out@ + Seq::empty() =~= out@);
        assert(out.deep_view() =~= out@);
    }
    Ok(out)
}

/// Reads a function's code from `pos` on.
pub fn read_code(input: &[u8], pos: usize, encode_key: u8) -> (res: Result<
    (usize, Vec<Instruction>),
    ParseError,
>)
    requires
        pos <= input.len(),
    ensures
        model_of(res) == code_at(input@, pos as int, encode_key),
        ends_within(res, input.len()),
{
    let (q, words) = match read_list(&WordItems, input, pos) {
        Ok(r) => r,
        Err(e) => return Err(e),
    };
    proof {
        assert(words.deep_view() =~= words@);
    }
    match decode_code(&words, encode_key) {
        Ok(code) => Ok((q, code)),
        Err(kind) => Err(ParseError::Failure { offset: q, kind }),
    }
}

// ------------------------------------------------------------ other sections
/// `v` shifted right by `g` bits.
pub open spec fn shifted(v: nat, g: nat) -> nat
    decreases g,
{
    if g == 0 || v == 0 {
        v
    } else {
        shifted(v / 2, (g - 1) as nat)
    }
}

/// The number of absolute line entries for `n` code words with a gap of
/// `2^g` words: `((n - 1) >> g) + 1`, and none for no code.
pub open spec fn line_intervals(n: nat, g: u8) -> nat {
    if n == 0 {
        0
    } else {
        shifted((n - 1) as nat, g as nat) + 1
    }
}

/// `line_intervals`, computed.
pub fn count_line_intervals(n: usize, g: u8) -> (res: usize)
    ensures
        res == line_intervals(n as nat, g),
{
    if n == 0 {
        return 0;
    }
    let mut v = n - 1;
    let mut k: u8 = 0;
    while k < g && v > 0
        invariant
            k <= g,
            v <= n - 1,
            shifted((n - 1) as nat, g as nat) == shifted(v as nat, (g - k) as nat),
        decreases g - k,
    {
        v = v / 2;
        k = k + 1;
    }
    v + 1
}

/// The function header at `p`: stack size, parameter count, upvalue count,
/// the vararg flag and, from version 4 on, the flags byte and the type
/// information.
pub open spec fn header_at(s: Seq<u8>, p: int, version: u8) -> PResult<(u8, u8, u8, bool, u8, Seq<u8>)> {
    match byte_at(s, p) {
        Ok((p1, max_stack_size)) => match byte_at(s, p1) {
            Ok((p2, num_parameters)) => match byte_at(s, p2) {
                Ok((p3, num_upvalues)) => match byte_at(s, p3) {
                    Ok((p4, is_vararg)) => if version >= 4 {
                        match byte_at(s, p4) {
                            Ok((p5, flags)) => match string_at(s, p5) {
                                Ok((p6, type_info)) => Ok(
                                    (
                                        p6,
                                        (
                                            max_stack_size,
                                            num_parameters,
                                            num_upvalues,
                                            is_vararg != 0,
                                            flags,
                                            type_info,
                                        ),
                                    ),
                                ),
                                Err(e) => Err(e),
                            },
                            Err(e) => Err(e),
                        }
                    } else {
                        Ok(
                            (
                                p4,
                                (
                                    max_stack_size,
                                    num_parameters,
                                    num_upvalues,
                                    is_vararg != 0,
                                    0,
                                    Seq::empty(),
                                ),
                            ),
                        )
                    },
                    Err(e) => Err(e),
                },
                Err(e) => Err(e),
            },
            Err(e) => Err(e),
        },
        Err(e) => Err(e),
    }
}

/// Line information at `p`, for `n` code words: a presence byte, then the gap
/// exponent, a byte per word and the absolute lines.
pub open spec fn line_info_at(s: Seq<u8>, p: int, n: nat) -> PResult<Option<LineInfoModel>> {
    match byte_at(s, p) {
        Ok((p1, present)) => if present == 0 {
            Ok((p1, None))
        } else {
            match byte_at(s, p1) {
                Ok((p2, line_gap_log2)) => match bytes_at(s, p2, n as int) {
                    Ok((p3, line_info)) => match many(
                        s,
                        p3,
                        line_intervals(n, line_gap_log2),
                        item_fn(I32Items),
                    ) {
                        Ok((p4, abs_line_info)) => Ok(
                            (p4, Some(LineInfoModel { line_gap_log2, line_info, abs_line_info })),
                        ),
                        Err(e) => Err(e),
                    },
                    Err(e) => Err(e),
                },
                Err(e) => Err(e),
            }
        },
        Err(e) => Err(e),
    }
}

/// Debug information at `p`: a presence byte, then the local variables and
/// the upvalue names.
pub open spec fn debug_info_at(s: Seq<u8>, p: int) -> PResult<Option<DebugInfoModel>> {
    match byte_at(s, p) {
        Ok((p1, present)) => if present == 0 {
            Ok((p1, None))
        } else {
            match list_at(s, p1, item_fn(LocalItems)) {
                Ok((p2, locals)) => match list_at(s, p2, item_fn(UsizeItems)) {
                    Ok((p3, upvalues)) => Ok((p3, Some(DebugInfoModel { locals, upvalues }))),
                    Err(e) => Err(e),
                },
                Err(e) => Err(e),
            }
        },
        Err(e) => Err(e),
    }
}

/// The prototype at `p`: header, code, constants, child indices, the line
/// where it is defined, its name, line information and debug information.
pub open spec fn prototype_at(s: Seq<u8>, p: int, encode_key: u8, version: u8) -> PResult<
    FunctionModel,
> {
    match header_at(s, p, version) {
        Ok((p1, h)) => match code_at(s, p1, encode_key) {
            Ok((p2, instructions)) => match list_at(s, p2, item_fn(ConstantItems)) {
                Ok((p3, constants)) => match list_at(s, p3, item_fn(UsizeItems)) {
                    Ok((p4, functions)) => match leb128_usize_at(s, p4) {
                        Ok((p5, line_defined)) => match leb128_usize_at(s, p5) {
                            Ok((p6, function_name)) => match line_info_at(
                                s,
                                p6,
                                instructions.len(),
                            ) {
                                Ok((p7, line_info)) => match debug_info_at(s, p7) {
                                    Ok((p8, debug_info)) => Ok(
                                        (
                                            p8,
                                            FunctionModel {
                                                max_stack_size: h.0,
                                                num_parameters: h.1,
                                                num_upvalues: h.2,
                                                is_vararg: h.3,
                                                flags: h.4,
                                                type_info: h.5,
                                                instructions,
                                                constants,
                                                functions,
                                                line_defined,
                                                function_name,
                                                line_info,
                                                debug_info,
                                            },
                                        ),
                                    ),
                                    Err(e) => Err(e),
                                },
                                Err(e) => Err(e),
                            },
                            Err(e) => Err(e),
                        },
                        Err(e) => Err(e),
                    },
                    Err(e) => Err(e),
                },
                Err(e) => Err(e),
            },
            Err(e) => Err(e),
        },
        Err(e) => Err(e),
    }
}

fn read_header(input: &[u8], pos: usize, version: u8) -> (res: Result<
    (usize, (u8, u8, u8, bool, u8, Vec<u8>)),
    ParseError,
>)
    requires
        pos <= input.len(),
    ensures
        model_of(res) == header_at(input@, pos as int, version),
        ends_within(res, input.len()),
{
    let (p1, max_stack_size) = match read_u8(input, pos) {
        Ok(r) => r,
        Err(e) => return Err(e),
    };
    let (p2, num_parameters) = match read_u8(input, p1) {
        Ok(r) => r,
        Err(e) => return Err(e),
    };
    let (p3, num_upvalues) = match read_u8(input, p2) {
        Ok(r) => r,
        Err(e) => return Err(e),
    };
    let (p4, is_vararg) = match read_u8(input, p3) {
        Ok(r) => r,
        Err(e) => return Err(e),
    };
    if version >= 4 {
        let (p5, flags) = match read_u8(input, p4) {
            Ok(r) => r,
            Err(e) => return Err(e),
        };
        let (p6, type_info) = match crate::reader::StringItems.read_item(input, p5) {
            Ok(r) => r,
            Err(e) => return Err(e),
        };
        Ok((p6, (max_stack_size, num_parameters, num_upvalues, is_vararg != 0, flags, type_info)))
    } else {
        let type_info: Vec<u8> = Vec::new();
        proof {
            assert(type_info.deep_view() =~= Seq::<u8>::empty());
        }
        Ok((p4, (max_stack_size, num_parameters, num_upvalues, is_vararg != 0, 0, type_info)))
    }
}

fn read_line_info(input: &[u8], pos: usize, n: usize) -> (res: Result<
    (usize, Option<LineInfo>),
    ParseError,
>)
    requires
        pos <= input.len(),
    ensures
        model_of(res) == line_info_at(input@, pos as int, n as nat),
        ends_within(res, input.len()),
{
    let (p1, present) = match read_u8(input, pos) {
        Ok(r) => r,
        Err(e) => return Err(e),
    };
    if present == 0 {
        return Ok((p1, None));
    }
    let (p2, line_gap_log2) = match read_u8(input, p1) {
        Ok(r) => r,
        Err(e) => return Err(e),
    };
    let (p3, line_info) = match read_bytes(input, p2, n) {
        Ok(r) => r,
        Err(e) => return Err(e),
    };
    let intervals = count_line_intervals(n, line_gap_log2);
    let (p4, abs_line_info) = match read_many(&I32Items, input, p3, intervals) {
        Ok(r) => r,
        Err(e) => return Err(e),
    };
    Ok((p4, Some(LineInfo { line_gap_log2, line_info, abs_line_info })))
}

fn read_debug_info(input: &[u8], pos: usize) -> (res: Result<(usize, Option<DebugInfo>), ParseError>)
    requires
        pos <= input.len(),
    ensures
        model_of(res) == debug_info_at(input@, pos as int),
        ends_within(res, input.len()),
{
    let (p1, present) = match read_u8(input, pos) {
        Ok(r) => r,
        Err(e) => return Err(e),
    };
    if present == 0 {
        return Ok((p1, None));
    }
    let (p2, locals) = match read_list(&LocalItems, input, p1) {
        Ok(r) => r,
        Err(e) => return Err(e),
    };
    let (p3, upvalues) = match read_list(&UsizeItems, input, p2) {
        Ok(r) => r,
        Err(e) => return Err(e),
    };
    Ok((p3, Some(DebugInfo { locals, upvalues })))
}

impl Function {
    /// Reads one function prototype from `pos` on, decoding its code with
    /// `encode_key`; `version` is the chunk's bytecode version.
    pub fn parse(input: &[u8], pos: usize, encode_key: u8, version: u8) -> (res: Result<
        (usize, Function),
        ParseError,
    >)
        requires
            pos <= input.len(),
        ensures
            model_of(res) == prototype_at(input@, pos as int, encode_key, version),
            ends_within(res, input.len()),
    {
        let (p1, h) = match read_header(input, pos, version) {
            Ok(r) => r,
            Err(e) => return Err(e),
        };
        let (p2, instructions) = match read_code(input, p1, encode_key) {
            Ok(r) => r,
            Err(e) => return Err(e),
        };
        let (p3, constants) = match read_list(&ConstantItems, input, p2) {
            Ok(r) => r,
            Err(e) => return Err(e),
        };
        let (p4, functions) = match read_list(&UsizeItems, input, p3) {
            Ok(r) => r,
            Err(e) => return Err(e),
        };
        let (p5, line_defined) = match read_leb128_usize(input, p4) {
            Ok(r) => r,
            Err(e) => return Err(e),
        };
        let (p6, function_name) = match read_leb128_usize(input, p5) {
            Ok(r) => r,
            Err(e) => return Err(e),
        };
        let (p7, line_info) = match read_line_info(input, p6, instructions.len()) {
            Ok(r) => r,
            Err(e) => return Err(e),
        };
        let (p8, debug_info) = match read_debug_info(input, p7) {
            Ok(r) => r,
            Err(e) => return Err(e),
        };
        let (max_stack_size, num_parameters, num_upvalues, is_vararg, flags, type_info) = h;
        Ok(
            (
                p8,
                Function {
                    max_stack_size,
                    num_parameters,
                    num_upvalues,
                    is_vararg,
                    flags,
                    type_info,
                    instructions,
                    constants,
                    functions,
                    line_defined,
                    function_name,
                    line_info,
                    debug_info,
                },
            ),
        )
    }
}

/// Reads function prototypes of a chunk.
pub struct FunctionItems {
    pub encode_key: u8,
    pub version: u8,
}

impl ItemReader for FunctionItems {
    type Item = Function;

    open spec fn item_at(&self, s: Seq<u8>, p: int) -> PResult<FunctionModel> {
        prototype_at(s, p, self.encode_key, self.version)
    }

    fn read_item(&self, input: &[u8], pos: usize) -> (res: Result<(usize, Function), ParseError>) {
        Function::parse(input, pos, self.encode_key, self.version)
    }
}

// ------------------------------------------------------ reading past the end
proof fn lemma_small_items_prefix(s1: Seq<u8>, s2: Seq<u8>)
    ensures
        item_prefix_stable(item_fn(WordItems), s1, s2),
        item_prefix_stable(item_fn(I32Items), s1, s2),
        item_prefix_stable(item_fn(LocalItems), s1, s2),
{
    assert forall|q: int|
        #[trigger] prefix_stable(item_fn(WordItems)(s1, q), item_fn(WordItems)(s1 + s2, q)) by {
        lemma_fixed_prefix(s1, s2, q, 0);
    }
    assert forall|q: int|
        #[trigger] prefix_stable(item_fn(I32Items)(s1, q), item_fn(I32Items)(s1 + s2, q)) by {
        lemma_fixed_prefix(s1, s2, q, 0);
    }
    assert forall|q: int|
        #[trigger] prefix_stable(item_fn(LocalItems)(s1, q), item_fn(LocalItems)(s1 + s2, q)) by {
        lemma_leb128_prefix(s1, s2, q);
        if let Ok((p1, _)) = leb128_usize_at(s1, q) {
            lemma_leb128_prefix(s1, s2, p1);
            if let Ok((p2, _)) = leb128_usize_at(s1, p1) {
                lemma_leb128_prefix(s1, s2, p2);
                if let Ok((p3, _)) = leb128_usize_at(s1, p2) {
                    lemma_fixed_prefix(s1, s2, p3, 0);
                }
            }
        }
    }
}

proof fn lemma_header_prefix(s1: Seq<u8>, s2: Seq<u8>, p: int, version: u8)
    ensures
        prefix_stable(header_at(s1, p, version), header_at(s1 + s2, p, version)),
{
    lemma_fixed_prefix(s1, s2, p, 0);
    lemma_fixed_prefix(s1, s2, p + 1, 0);
    lemma_fixed_prefix(s1, s2, p + 2, 0);
    lemma_fixed_prefix(s1, s2, p + 3, 0);
    lemma_fixed_prefix(s1, s2, p + 4, 0);
    lemma_leb128_prefix(s1, s2, p + 5);
}

proof fn lemma_line_info_prefix(s1: Seq<u8>, s2: Seq<u8>, p: int, n: nat)
    ensures
        prefix_stable(line_info_at(s1, p, n), line_info_at(s1 + s2, p, n)),
{
    lemma_fixed_prefix(s1, s2, p, 0);
    lemma_fixed_prefix(s1, s2, p + 1, 0);
    lemma_fixed_prefix(s1, s2, p + 2, n as int);
    lemma_small_items_prefix(s1, s2);
    if let Ok((_, g)) = byte_at(s1, p + 1) {
        lemma_many_prefix(s1, s2, p + 2 + n, line_intervals(n, g), item_fn(I32Items));
    }
}

proof fn lemma_debug_info_prefix(s1: Seq<u8>, s2: Seq<u8>, p: int)
    ensures
        prefix_stable(debug_info_at(s1, p), debug_info_at(s1 + s2, p)),
{
    lemma_fixed_prefix(s1, s2, p, 0);
    lemma_small_items_prefix(s1, s2);
    lemma_usize_items_prefix(s1, s2);
    lemma_list_prefix(s1, s2, p + 1, item_fn(LocalItems));
    if let Ok((p2, _)) = list_at(s1, p + 1, item_fn(LocalItems)) {
        lemma_list_prefix(s1, s2, p2, item_fn(UsizeItems));
    }
}

/// A prototype read from `s1` reads the same from `s1 + s2`.
pub proof fn lemma_prototype_prefix(s1: Seq<u8>, s2: Seq<u8>, p: int, encode_key: u8, version: u8)
    ensures
        prefix_stable(
            prototype_at(s1, p, encode_key, version),
            prototype_at(s1 + s2, p, encode_key, version),
        ),
{
    let s = s1 + s2;
    lemma_header_prefix(s1, s2, p, version);
    lemma_small_items_prefix(s1, s2);
    lemma_usize_items_prefix(s1, s2);
    lemma_constant_items_prefix(s1, s2);
    if let Ok((p1, _)) = header_at(s1, p, version) {
        lemma_list_prefix(s1, s2, p1, item_fn(WordItems));
        if let Ok((p2, code)) = code_at(s1, p1, encode_key) {
            lemma_list_prefix(s1, s2, p2, item_fn(ConstantItems));
            if let Ok((p3, _)) = list_at(s1, p2, item_fn(ConstantItems)) {
                lemma_list_prefix(s1, s2, p3, item_fn(UsizeItems));
                if let Ok((p4, _)) = list_at(s1, p3, item_fn(UsizeItems)) {
                    lemma_leb128_prefix(s1, s2, p4);
                    if let Ok((p5, _)) = leb128_usize_at(s1, p4) {
                        lemma_leb128_prefix(s1, s2, p5);
                        if let Ok((p6, _)) = leb128_usize_at(s1, p5) {
                            lemma_line_info_prefix(s1, s2, p6, code.len());
                            if let Ok((p7, _)) = line_info_at(s1, p6, code.len()) {
                                lemma_debug_info_prefix(s1, s2, p7);
                            }
                        }
                    }
                }
            }
        }
    }
}

pub proof fn lemma_function_items_prefix(s1: Seq<u8>, s2: Seq<u8>, encode_key: u8, version: u8)
    ensures
        item_prefix_stable(item_fn(FunctionItems { encode_key, version }), s1, s2),
{
    let r = FunctionItems { encode_key, version };
    assert forall|q: int| #[trigger] prefix_stable(item_fn(r)(s1, q), item_fn(r)(s1 + s2, q)) by {
        lemma_prototype_prefix(s1, s2, q, encode_key, version);
    }
}

} // verus!
