//! Properties of the reader and of the server's decisions that hold for all
//! inputs.
use crate::bytecode::{
    bytecode_at, deserialized, is_supported_version, parse_error_message, unsupported_message,
    BytecodeModel,
};
use crate::chunk::{chunk_at, lemma_chunk_prefix, ChunkModel};
use crate::constant::{constant_at, table_entry_at, ConstantModel, CONSTANT_INTEGER};
use crate::error::{failure_at, ParseErrorKind};
use crate::function::{decoded_from, local_at, LocalVariable};
use crate::instruction::{decoded_op, instruction_of, Instruction};
use crate::op_code::{op_code_number, spec_has_aux, OpCode};
use crate::reader::{
    byte_at, bytes_at, i32_at, le_value32, leb128_from, leb128_usize_at, leb_weight, u32_at, u64_at,
};
use crate::function::prototype_at;
use crate::server::{
    after_chunk, config_response, outcome_detail, port_choice, ReceiveState, ReceiveStep,
    RequestOutcome, ServerConfig,
};
use crate::text::decimal;
use vstd::prelude::*;

verus! {

/// Data after a complete chunk changes nothing: a blob that deserializes to a
/// chunk deserializes to the same chunk with any bytes appended, and the
/// reader stops at the same place.
pub proof fn law_data_after_a_chunk_is_left_unread(blob: Seq<u8>, extra: Seq<u8>, encode_key: u8)
    requires
        deserialized(blob, encode_key) matches Ok(BytecodeModel::Chunk(_)),
    ensures
        deserialized(blob + extra, encode_key) == deserialized(blob, encode_key),
        bytecode_at(blob + extra, encode_key) == bytecode_at(blob, encode_key),
{
    let s = blob + extra;
    assert(s[0] == blob[0]);
    lemma_chunk_prefix(blob, extra, 1, encode_key, blob[0]);
}

/// Every supported version accepts the smallest chunk: type version 1, no
/// strings, no prototypes, main prototype 0; it takes all five bytes.
pub proof fn law_supported_versions_read_an_empty_chunk(version: u8, encode_key: u8)
    requires
        is_supported_version(version),
    ensures
        bytecode_at(seq![version, 1u8, 0u8, 0u8, 0u8], encode_key) == Ok::<
            (int, BytecodeModel),
            crate::error::ParseError,
        >(
            (
                5,
                BytecodeModel::Chunk(
                    ChunkModel {
                        types_version: 1,
                        string_table: Seq::empty(),
                        userdata_types: Seq::empty(),
                        functions: Seq::empty(),
                        main: 0,
                    },
                ),
            ),
        ),
{
    let s = seq![version, 1u8, 0u8, 0u8, 0u8];
    reveal_with_fuel(leb128_from, 2);
    assert(leb_weight(0) == 1);
    let c = chunk_at(s, 1, encode_key, version);
    assert(c matches Ok((q, m)) && q == 5 && m.string_table =~= Seq::<Seq<u8>>::empty() && m.functions
        =~= Seq::<crate::function::FunctionModel>::empty());
}

/// A blob whose first byte is neither 0 nor a supported version is refused
/// with the message that names the version; the reader stops just after it.
pub proof fn law_unsupported_versions_are_refused(blob: Seq<u8>, encode_key: u8)
    requires
        blob.len() > 0,
        blob[0] != 0,
        !is_supported_version(blob[0]),
    ensures
        deserialized(blob, encode_key) == Err::<BytecodeModel, Seq<char>>(unsupported_message(blob[0])),
        bytecode_at(blob, encode_key) == Err::<(int, BytecodeModel), crate::error::ParseError>(
            failure_at(1, ParseErrorKind::Verify),
        ),
{
}

/// A constant whose tag byte is not one of the ten known tags is refused,
/// unrecoverably, just after the tag.
pub proof fn law_unknown_constant_tags_are_refused(s: Seq<u8>, p: int)
    requires
        0 <= p < s.len(),
        s[p] > CONSTANT_INTEGER,
    ensures
        constant_at(s, p) == Err::<(int, ConstantModel), crate::error::ParseError>(
            failure_at(p + 1, ParseErrorKind::Alt),
        ),
{
}

/// Versions 4 through 9 are read, never refused for their number: for a blob
/// whose first byte is one of them, the reader reads a chunk of that version
/// after it, and `deserialize` gives what the reader reads, or the reader's
/// error message.
pub proof fn law_versions_four_to_nine_are_read(blob: Seq<u8>, encode_key: u8)
    requires
        blob.len() > 0,
        4 <= blob[0] <= 9,
    ensures
        deserialized(blob, encode_key) == match bytecode_at(blob, encode_key) {
            Ok((_, b)) => Ok::<BytecodeModel, Seq<char>>(b),
            Err(e) => Err(parse_error_message(blob, e)),
        },
        bytecode_at(blob, encode_key) == match chunk_at(blob, 1, encode_key, blob[0]) {
            Ok((q, c)) => Ok::<(int, BytecodeModel), crate::error::ParseError>(
                (q, BytecodeModel::Chunk(c)),
            ),
            Err(e) => Err(e),
        },
{
}

/// The smallest chunk of each version from 4 to 9 deserializes to an empty
/// chunk.
pub proof fn law_empty_chunks_deserialize(version: u8, encode_key: u8)
    requires
        4 <= version <= 9,
    ensures
        deserialized(seq![version, 1u8, 0u8, 0u8, 0u8], encode_key) == Ok::<BytecodeModel, Seq<char>>(
            BytecodeModel::Chunk(
                ChunkModel {
                    types_version: 1,
                    string_table: Seq::empty(),
                    userdata_types: Seq::empty(),
                    functions: Seq::empty(),
                    main: 0,
                },
            ),
        ),
{
    law_supported_versions_read_an_empty_chunk(version, encode_key);
}

// ---------------------------------------------------------- fixed-size reads
/// Fixed-size numbers are little-endian: the first byte is the lowest. A
/// read succeeds exactly when the bytes are there, and takes just them.
pub proof fn law_little_endian_numbers(s: Seq<u8>, p: int)
    requires
        0 <= p,
    ensures
        u32_at(s, p) is Ok <==> p + 4 <= s.len(),
        u32_at(s, p) matches Ok((q, v)) ==> q == p + 4 && v == s[p] + 256 * s[p + 1] + 65536 * s[p
            + 2] + 16777216 * s[p + 3],
        i32_at(s, p) matches Ok((q, v)) ==> q == p + 4 && ({
            let raw = s[p] + 256 * s[p + 1] + 65536 * s[p + 2] + 16777216 * s[p + 3];
            v == if raw < 0x8000_0000 {
                raw
            } else {
                raw - 0x1_0000_0000
            }
        }),
        u64_at(s, p) matches Ok((q, v)) ==> q == p + 8 && v == s[p] + 256 * s[p + 1] + 65536 * s[p
            + 2] + 16777216 * s[p + 3] + 0x1_0000_0000 * (s[p + 4] + 256 * s[p + 5] + 65536 * s[p
            + 6] + 16777216 * s[p + 7]),
        byte_at(s, p) matches Ok((q, v)) ==> q == p + 1 && v == s[p],
        forall|n: int|
            0 <= n ==> (#[trigger] bytes_at(s, p, n) matches Ok((q, v)) ==> q == p + n && v.len()
                == n && forall|i: int| 0 <= i < n ==> v[i] == s[p + i]),
{
    assert forall|n: int| 0 <= n implies (#[trigger] bytes_at(s, p, n) matches Ok((q, v)) ==> q
        == p + n && v.len() == n && forall|i: int| 0 <= i < n ==> v[i] == s[p + i]) by {}
}

/// A byte string is an LEB128 length and then that many bytes.
pub proof fn law_string_layout(s: Seq<u8>, p: int)
    requires
        leb128_usize_at(s, p) is Ok,
        leb128_usize_at(s, p)->Ok_0.0 + leb128_usize_at(s, p)->Ok_0.1 <= s.len(),
        0 <= leb128_usize_at(s, p)->Ok_0.0,
    ensures
        ({
            let (q, n) = leb128_usize_at(s, p)->Ok_0;
            crate::reader::string_at(s, p) == Ok::<(int, Seq<u8>), crate::error::ParseError>(
                (q + n, s.subrange(q, q + n)),
            )
        }),
{
}

proof fn lemma_shifted_is_division(v: nat, g: nat)
    ensures
        crate::function::shifted(v, g) == v / crate::server::two_pow(g),
    decreases g,
{
    if g > 0 {
        let g1 = (g - 1) as nat;
        let t = crate::server::two_pow(g1);
        lemma_two_pow_positive(g1);
        assert(crate::server::two_pow(g) == 2 * t);
        if v == 0 {
            assert(0nat / (2 * t) == 0) by (nonlinear_arith)
                requires
                    t >= 1,
            ;
        } else {
            lemma_shifted_is_division(v / 2, g1);
            vstd::arithmetic::div_mod::lemma_div_denominator(v as int, 2, t as int);
            assert(crate::function::shifted(v, g) == crate::function::shifted(v / 2, g1));
            assert((v / 2) / t == v / (2 * t));
        }
    } else {
        assert(v / 1 == v);
    }
}

proof fn lemma_two_pow_positive(g: nat)
    ensures
        crate::server::two_pow(g) >= 1,
    decreases g,
{
    if g > 0 {
        lemma_two_pow_positive((g - 1) as nat);
    }
}

/// The absolute line entries of `n` code words with a gap of `2^g` words
/// are `(n - 1) / 2^g + 1`, and none for no code.
pub proof fn law_line_intervals(n: nat, g: u8)
    ensures
        n == 0 ==> crate::function::line_intervals(n, g) == 0,
        n > 0 ==> crate::function::line_intervals(n, g) == (n - 1) as nat / crate::server::two_pow(
            g as nat,
        ) + 1,
{
    if n > 0 {
        lemma_shifted_is_division((n - 1) as nat, g as nat);
    }
}

/// From version 4 on, a chunk begins with its type version byte.
pub proof fn law_chunk_type_version(s: Seq<u8>, p: int, encode_key: u8, version: u8)
    requires
        0 <= p,
        version >= 4,
        chunk_at(s, p, encode_key, version) is Ok,
    ensures
        p < s.len(),
        chunk_at(s, p, encode_key, version)->Ok_0.1.types_version == s[p],
{
}

// ----------------------------------------------------------- constant kinds
/// What each constant tag is followed by: nothing (0, nil), a byte that is
/// true when non-zero (1), the bits of an `f64` (2), a string index (3), an
/// import id as a `u32` (4), a closure's prototype index (6), the bits of
/// four `f32`s in the order x, y, z, w (7).
pub proof fn law_constant_kinds(s: Seq<u8>, p: int)
    requires
        0 <= p < s.len(),
    ensures
        s[p] == 0 ==> constant_at(s, p) == Ok::<(int, ConstantModel), crate::error::ParseError>(
            (p + 1, ConstantModel::Nil),
        ),
        s[p] == 1 && p + 1 < s.len() ==> constant_at(s, p) == Ok::<
            (int, ConstantModel),
            crate::error::ParseError,
        >((p + 2, ConstantModel::Boolean(s[p + 1] != 0))),
        s[p] == 2 && u64_at(s, p + 1) is Ok ==> constant_at(s, p) == Ok::<
            (int, ConstantModel),
            crate::error::ParseError,
        >((p + 9, ConstantModel::Number(u64_at(s, p + 1)->Ok_0.1))),
        s[p] == 3 && leb128_usize_at(s, p + 1) is Ok ==> constant_at(s, p) == Ok::<
            (int, ConstantModel),
            crate::error::ParseError,
        >(
            (
                leb128_usize_at(s, p + 1)->Ok_0.0,
                ConstantModel::String(leb128_usize_at(s, p + 1)->Ok_0.1),
            ),
        ),
        s[p] == 4 && u32_at(s, p + 1) is Ok ==> constant_at(s, p) == Ok::<
            (int, ConstantModel),
            crate::error::ParseError,
        >((p + 5, ConstantModel::Import(u32_at(s, p + 1)->Ok_0.1 as usize))),
        s[p] == 6 && leb128_usize_at(s, p + 1) is Ok ==> constant_at(s, p) == Ok::<
            (int, ConstantModel),
            crate::error::ParseError,
        >(
            (
                leb128_usize_at(s, p + 1)->Ok_0.0,
                ConstantModel::Closure(leb128_usize_at(s, p + 1)->Ok_0.1),
            ),
        ),
        s[p] == 7 && p + 17 <= s.len() ==> constant_at(s, p) == Ok::<
            (int, ConstantModel),
            crate::error::ParseError,
        >(
            (
                p + 17,
                ConstantModel::Vector(
                    u32_at(s, p + 1)->Ok_0.1,
                    u32_at(s, p + 5)->Ok_0.1,
                    u32_at(s, p + 9)->Ok_0.1,
                    u32_at(s, p + 13)->Ok_0.1,
                ),
            ),
        ),
{
}

/// An integer constant's sign byte must be 0 or 1: any other is refused,
/// unrecoverably, just after it.
pub proof fn law_integer_sign_byte(s: Seq<u8>, p: int)
    requires
        0 <= p,
        p + 1 < s.len(),
        s[p] == CONSTANT_INTEGER,
        s[p + 1] > 1,
    ensures
        constant_at(s, p) == Err::<(int, ConstantModel), crate::error::ParseError>(
            failure_at(p + 2, ParseErrorKind::Verify),
        ),
{
}

/// A prototype begins with four bytes: the stack size, the parameter count,
/// the upvalue count and the vararg flag (set when non-zero); from version 4
/// on a flags byte follows.
pub proof fn law_prototype_header(s: Seq<u8>, p: int, encode_key: u8, version: u8)
    requires
        0 <= p,
        prototype_at(s, p, encode_key, version) is Ok,
    ensures
        ({
            let f = prototype_at(s, p, encode_key, version)->Ok_0.1;
            &&& p + 4 <= s.len()
            &&& f.max_stack_size == s[p]
            &&& f.num_parameters == s[p + 1]
            &&& f.num_upvalues == s[p + 2]
            &&& f.is_vararg == (s[p + 3] != 0)
            &&& version >= 4 ==> f.flags == s[p + 4]
        }),
{
}

/// A compiler message blob (status 0) is read whole as the message: the
/// reader takes every byte.
pub proof fn law_status_zero_is_a_message(blob: Seq<u8>, encode_key: u8)
    requires
        blob.len() > 0,
        blob[0] == 0,
    ensures
        bytecode_at(blob, encode_key) matches Ok((q, BytecodeModel::Error(_))) && q == blob.len(),
        deserialized(blob, encode_key) matches Ok(BytecodeModel::Error(_)),
{
}

// ----------------------------------------------------------- record layouts
/// A local-variable record is three LEB128 numbers and a byte: the name's
/// string index, the first pc, the end pc, and the register, in that order.
pub proof fn law_local_variable_fields(s: Seq<u8>, p: int)
    requires
        leb128_usize_at(s, p) is Ok,
        leb128_usize_at(s, leb128_usize_at(s, p)->Ok_0.0) is Ok,
        leb128_usize_at(s, leb128_usize_at(s, leb128_usize_at(s, p)->Ok_0.0)->Ok_0.0) is Ok,
        byte_at(
            s,
            leb128_usize_at(s, leb128_usize_at(s, leb128_usize_at(s, p)->Ok_0.0)->Ok_0.0)->Ok_0.0,
        ) is Ok,
    ensures
        ({
            let (p1, first) = leb128_usize_at(s, p)->Ok_0;
            let (p2, second) = leb128_usize_at(s, p1)->Ok_0;
            let (p3, third) = leb128_usize_at(s, p2)->Ok_0;
            let (p4, byte) = byte_at(s, p3)->Ok_0;
            local_at(s, p) == Ok::<(int, LocalVariable), crate::error::ParseError>(
                (p4, LocalVariable { name: first, start_pc: second, end_pc: third, register: byte }),
            )
        }),
{
}

/// Four one-byte numbers as a local-variable record.
#[verifier::spinoff_prover]
pub proof fn law_small_local_variable(name: u8, start_pc: u8, end_pc: u8, register: u8)
    requires
        name < 128,
        start_pc < 128,
        end_pc < 128,
    ensures
        local_at(seq![name, start_pc, end_pc, register], 0) == Ok::<
            (int, LocalVariable),
            crate::error::ParseError,
        >(
            (
                4,
                LocalVariable {
                    name: name as usize,
                    start_pc: start_pc as usize,
                    end_pc: end_pc as usize,
                    register,
                },
            ),
        ),
{
    let s = seq![name, start_pc, end_pc, register];
    assert(leb_weight(0) == 1);
    assert(s[0] == name && s[1] == start_pc && s[2] == end_pc && s[3] == register);
    assert(crate::reader::usize_leb_len() >= 1);
    assert(leb128_from(s, 0, 0, crate::reader::usize_leb_len()) == Ok::<(int, nat), crate::error::ParseError>((1, name as nat)));
    assert(leb128_from(s, 1, 0, crate::reader::usize_leb_len()) == Ok::<(int, nat), crate::error::ParseError>((2, start_pc as nat)));
    assert(leb128_from(s, 2, 0, crate::reader::usize_leb_len()) == Ok::<(int, nat), crate::error::ParseError>((3, end_pc as nat)));
    vstd::arithmetic::div_mod::lemma_small_mod(name as nat, usize::MAX as nat + 1);
    vstd::arithmetic::div_mod::lemma_small_mod(start_pc as nat, usize::MAX as nat + 1);
    vstd::arithmetic::div_mod::lemma_small_mod(end_pc as nat, usize::MAX as nat + 1);
    assert(leb128_usize_at(s, 0) == Ok::<(int, usize), crate::error::ParseError>((1, name as usize)));
    assert(leb128_usize_at(s, 1) == Ok::<(int, usize), crate::error::ParseError>((2, start_pc as usize)));
    assert(leb128_usize_at(s, 2) == Ok::<(int, usize), crate::error::ParseError>((3, end_pc as usize)));
}

/// A table-template entry is an LEB128 key index and a little-endian `i32`
/// value index; every value index from 0 up names a constant, and only a
/// negative one (top bit set) names none.
pub proof fn law_table_entry_value_index(s: Seq<u8>, p: int)
    requires
        leb128_usize_at(s, p) is Ok,
        0 <= leb128_usize_at(s, p)->Ok_0.0,
        leb128_usize_at(s, p)->Ok_0.0 + 4 <= s.len(),
    ensures
        ({
            let (q, key) = leb128_usize_at(s, p)->Ok_0;
            let word = le_value32(s, q);
            table_entry_at(s, p) == Ok::<(int, (usize, Option<usize>)), crate::error::ParseError>(
                (
                    q + 4,
                    (
                        key,
                        if word < 0x8000_0000 {
                            Some(word as usize)
                        } else {
                            None
                        },
                    ),
                ),
            )
        }),
{
    let q = leb128_usize_at(s, p)->Ok_0.0;
    assert(i32_at(s, q) is Ok);
}

/// A table template with one entry reads as that entry.
pub proof fn law_one_entry_table_template(s: Seq<u8>, p: int)
    requires
        0 <= p < s.len(),
        s[p] == 8,
        leb128_usize_at(s, p + 1) matches Ok((_, n)) && n == 1,
        table_entry_at(s, leb128_usize_at(s, p + 1)->Ok_0.0) is Ok,
    ensures
        ({
            let (r, entry) = table_entry_at(s, leb128_usize_at(s, p + 1)->Ok_0.0)->Ok_0;
            constant_at(s, p) == Ok::<(int, ConstantModel), crate::error::ParseError>(
                (r, ConstantModel::TableWithConstants(seq![entry])),
            )
        }),
{
    let q = leb128_usize_at(s, p + 1)->Ok_0.0;
    let (r, entry) = table_entry_at(s, q)->Ok_0;
    let f = crate::reader::item_fn(crate::constant::TableEntries);
    assert(f(s, q) == table_entry_at(s, q));
    assert(crate::reader::many(s, r, 0, f) == Ok::<
        (int, Seq<(usize, Option<usize>)>),
        crate::error::ParseError,
    >((r, Seq::empty())));
    assert(seq![entry] + Seq::<(usize, Option<usize>)>::empty() =~= seq![entry]);
    assert(crate::reader::many(s, q, 1, f) == Ok::<
        (int, Seq<(usize, Option<usize>)>),
        crate::error::ParseError,
    >((r, seq![entry])));
}

// --------------------------------------------------------- integer constants
/// The LEB128 encoding of `n`: seven bits per byte, low groups first, the
/// high bit set on every byte but the last.
pub open spec fn leb128_bytes(n: nat) -> Seq<u8>
    decreases n,
{
    if n < 128 {
        seq![n as u8]
    } else {
        seq![(n % 128 + 128) as u8] + leb128_bytes(n / 128)
    }
}

/// The bytes of an integer constant: its tag, the sign byte, and the
/// magnitude in LEB128.
pub open spec fn integer_constant_bytes(v: i64) -> Seq<u8> {
    let magnitude: nat = if v < 0 {
        (-v) as nat
    } else {
        v as nat
    };
    seq![CONSTANT_INTEGER, if v < 0 {
        1u8
    } else {
        0u8
    }] + leb128_bytes(magnitude)
}

proof fn lemma_leb128_bytes_len(n: nat, k: nat)
    requires
        k >= 1,
        n < leb_weight(k),
    ensures
        1 <= leb128_bytes(n).len() <= k,
    decreases n,
{
    if n >= 128 {
        let k1 = (k - 1) as nat;
        assert(leb_weight(k) == 128 * leb_weight(k1));
        if k1 == 0 {
            assert(leb_weight(0) == 1);
        } else {
            assert(n / 128 < leb_weight(k1)) by (nonlinear_arith)
                requires
                    n < 128 * leb_weight(k1),
            ;
            lemma_leb128_bytes_len(n / 128, k1);
        }
    }
}

proof fn lemma_leb128_bytes_decode(s: Seq<u8>, p: int, i: nat, max: nat, n: nat)
    requires
        0 <= p,
        p + i + leb128_bytes(n).len() <= s.len(),
        s.subrange(p + i, p + i + leb128_bytes(n).len()) == leb128_bytes(n),
        i + leb128_bytes(n).len() <= max,
    ensures
        leb128_from(s, p, i, max) == Ok::<(int, nat), crate::error::ParseError>(
            (p + i + leb128_bytes(n).len(), n * leb_weight(i)),
        ),
    decreases n,
{
    let e = leb128_bytes(n);
    assert(s[p + i] == e[0]);
    if n >= 128 {
        let rest = leb128_bytes(n / 128);
        assert(e.len() == 1 + rest.len());
        assert(s.subrange(p + i + 1, p + i + 1 + rest.len()) =~= rest) by {
            assert forall|j: int| 0 <= j < rest.len() implies s.subrange(
                p + i + 1,
                p + i + 1 + rest.len(),
            )[j] == rest[j] by {
                assert(s.subrange(p + i, p + i + e.len())[j + 1] == e[j + 1]);
            }
        }
        assert(rest.len() >= 1);
        lemma_leb128_bytes_decode(s, p, i + 1, max, n / 128);
        assert(leb_weight(i + 1) == 128 * leb_weight(i));
        assert((n % 128) * leb_weight(i) + (n / 128) * (128 * leb_weight(i)) == n * leb_weight(i))
            by (nonlinear_arith);
    }
}

/// Every `i64` is read back from its integer constant bytes, the whole
/// encoding consumed.
pub proof fn law_integer_constants_round_trip(v: i64)
    ensures
        constant_at(integer_constant_bytes(v), 0) == Ok::<
            (int, ConstantModel),
            crate::error::ParseError,
        >((integer_constant_bytes(v).len() as int, ConstantModel::Integer(v))),
{
    let magnitude: nat = if v < 0 {
        (-v) as nat
    } else {
        v as nat
    };
    let s = integer_constant_bytes(v);
    let e = leb128_bytes(magnitude);
    assert(leb_weight(0) == 1);
    reveal_with_fuel(leb_weight, 11);
    assert(leb_weight(10) == 0x40_0000_0000_0000_0000);
    lemma_leb128_bytes_len(magnitude, 10);
    assert(s.subrange(2, 2 + e.len() as int) =~= e);
    lemma_leb128_bytes_decode(s, 2, 0, 10, magnitude);
}

// ----------------------------------------------------------------------- code
proof fn lemma_code_length_from(words: Seq<u32>, encode_key: u8, i: int)
    requires
        0 <= i <= words.len(),
    ensures
        decoded_from(words, encode_key, i) matches Ok(code) ==> code.len() == words.len() - i,
    decreases words.len() - i,
{
    if i < words.len() {
        if i + 2 <= words.len() {
            lemma_code_length_from(words, encode_key, i + 2);
        }
        lemma_code_length_from(words, encode_key, i + 1);
    }
}

/// Decoded code has one entry per code word, so that an index into it is a
/// program counter.
pub proof fn law_one_instruction_per_word(words: Seq<u32>, encode_key: u8)
    ensures
        decoded_from(words, encode_key, 0) matches Ok(code) ==> code.len() == words.len(),
{
    lemma_code_length_from(words, encode_key, 0);
}

/// A word whose decoded opcode number is above the highest opcode (and is
/// not the alternate `NOP`, 97) is refused.
pub proof fn law_unknown_opcodes_are_refused(insn: u32, encode_key: u8)
    requires
        decoded_op(insn, encode_key) > crate::op_code::MAX_OP_CODE,
        decoded_op(insn, encode_key) != 97,
    ensures
        instruction_of(insn, encode_key) == Err::<crate::instruction::Instruction, ParseErrorKind>(
            ParseErrorKind::Tag,
        ),
{
}

/// The opcode numbers of the `A B C` layout.
pub open spec fn listed_abc(n: u8) -> bool {
    n <= 3 || (6 <= n && n <= 11) || (13 <= n && n <= 18) || (20 <= n && n <= 22) || (33 <= n
        && n <= 53) || n == 55 || n == 60 || n == 63 || n == 65 || n == 66 || n == 68 || n == 70
        || (71 <= n && n <= 75) || (81 <= n && n <= 85)
}

/// Every opcode of the `A B C` list decodes to that layout: the opcode of
/// that number, and `A`, `B`, `C` the word's second, third and fourth bytes.
pub proof fn law_abc_layout(insn: u32, encode_key: u8)
    requires
        listed_abc(((insn % 256) * encode_key % 256) as u8),
    ensures
        instruction_of(insn, encode_key) matches Ok(Instruction::BC { op_code, a, b, c, aux })
            && op_code_number(op_code) == (insn % 256) * encode_key % 256 && a == insn / 256 % 256
            && b == insn / 65536 % 256 && c == insn / 16777216 && aux == 0,
{
}

/// Every opcode of the `A D` list decodes to that layout: `A` the second
/// byte, `D` the upper half as a signed number.
pub proof fn law_ad_layout(insn: u32, encode_key: u8)
    requires
        ({
            let n = (insn % 256) * encode_key % 256;
            n == 4 || n == 5 || n == 12 || n == 19 || (23 <= n && n <= 32) || n == 54 || (56 <= n
                && n <= 59) || n == 61 || n == 62 || n == 64 || (76 <= n && n <= 80)
        }),
    ensures
        instruction_of(insn, encode_key) matches Ok(Instruction::AD { op_code, a, d, aux })
            && op_code_number(op_code) == (insn % 256) * encode_key % 256 && a == insn / 256 % 256
            && (d == insn / 65536 || d == insn / 65536 - 65536) && -32768 <= d < 32768 && aux == 0,
{
}

/// The two opcodes of the `E` layout decode with `E` the upper 24 bits as a
/// signed number.
pub proof fn law_e_layout(insn: u32, encode_key: u8)
    requires
        ({
            let n = (insn % 256) * encode_key % 256;
            n == 67 || n == 69
        }),
    ensures
        instruction_of(insn, encode_key) matches Ok(Instruction::E { op_code, e }) && op_code_number(
            op_code,
        ) == (insn % 256) * encode_key % 256 && (e == insn / 256 || e == insn / 256 - 0x100_0000)
            && -0x80_0000 <= e < 0x80_0000,
{
}

/// The opcodes that are followed by an auxiliary word, by number.
pub open spec fn listed_with_aux(n: u8) -> bool {
    n == 7 || n == 8 || n == 12 || n == 15 || n == 16 || n == 20 || (27 <= n && n <= 32) || n == 53
        || n == 55 || n == 58 || n == 60 || n == 66 || n == 74 || n == 75 || (77 <= n && n <= 80)
        || (83 <= n && n <= 85)
}

/// An opcode takes an auxiliary word exactly when it is one of the listed
/// numbers: GETGLOBAL, SETGLOBAL, GETIMPORT, GETTABLEKS, SETTABLEKS,
/// NAMECALL, the JUMPIF compares, NEWTABLE, SETLIST, FORGLOOP, FASTCALL3,
/// LOADKX, FASTCALL2, FASTCALL2K, the JUMPXEQK compares and the userdata
/// accesses.
pub proof fn law_aux_opcodes(op: OpCode)
    ensures
        spec_has_aux(op) <==> listed_with_aux(op_code_number(op)),
{
}

/// A word whose opcode takes an auxiliary word, followed by a word `x`,
/// decodes to the instruction carrying `x`, then a `NOP` carrying `x`; any
/// other word decodes to its instruction alone.
pub proof fn law_aux_words_are_attached(words: Seq<u32>, encode_key: u8)
    requires
        words.len() >= 2,
        decoded_from(words, encode_key, 0) is Ok,
    ensures
        ({
            let code = decoded_from(words, encode_key, 0)->Ok_0;
            let x = words[1];
            let ins = instruction_of(words[0], encode_key)->Ok_0;
            &&& instruction_of(words[0], encode_key) is Ok
            &&& listed_with_aux(decoded_op(words[0], encode_key)) ==> code[1] == (Instruction::BC {
                op_code: OpCode::LOP_NOP,
                a: 0,
                b: 0,
                c: 0,
                aux: x,
            }) && match (ins, code[0]) {
                (
                    Instruction::BC { op_code, a, b, c, .. },
                    Instruction::BC { op_code: o2, a: a2, b: b2, c: c2, aux },
                ) => o2 == op_code && a2 == a && b2 == b && c2 == c && aux == x,
                (
                    Instruction::AD { op_code, a, d, .. },
                    Instruction::AD { op_code: o2, a: a2, d: d2, aux },
                ) => o2 == op_code && a2 == a && d2 == d && aux == x,
                _ => false,
            }
            &&& !listed_with_aux(decoded_op(words[0], encode_key)) && decoded_op(words[0], encode_key)
                <= 85 ==> code[0] == ins
        }),
{
    let ins = instruction_of(words[0], encode_key)->Ok_0;
    law_aux_opcodes(crate::function::op_of(ins));
    law_one_instruction_per_word(words, encode_key);
}

/// Decoding under an encode key is decoding, under key 1, of the word whose
/// opcode byte was multiplied by the key.
#[verifier::spinoff_prover]
#[verifier::rlimit(50)]
pub proof fn law_encode_key_scales_the_opcode(insn: u32, encode_key: u8)
    ensures
        instruction_of(insn, encode_key) == instruction_of(
            (insn - insn % 256 + decoded_op(insn, encode_key)) as u32,
            1,
        ),
{
    let w = (insn - insn % 256 + decoded_op(insn, encode_key)) as u32;
    assert(w / 256 == insn / 256);
    assert(w % 256 == decoded_op(insn, encode_key));
}

// --------------------------------------------------------------------- server
/// Under a limit, a body within it stays within it whatever chunk arrives:
/// a chunk that would pass the limit is refused.
pub proof fn law_body_stays_within_the_limit(state: ReceiveState, max_body_bytes: usize, chunk_len: usize)
    requires
        max_body_bytes != 0,
        state.received <= max_body_bytes,
    ensures
        after_chunk(state, max_body_bytes, chunk_len).0.received <= max_body_bytes,
        after_chunk(state, max_body_bytes, chunk_len).1 == ReceiveStep::TooLarge
            <==> state.received + chunk_len > max_body_bytes,
{
}

/// After a progress report the next report lies beyond the body received so
/// far (or at `usize::MAX`).
pub proof fn law_progress_marks_move_ahead(state: ReceiveState, max_body_bytes: usize, chunk_len: usize)
    requires
        max_body_bytes != 0 || state.received + chunk_len <= usize::MAX,
        after_chunk(state, max_body_bytes, chunk_len).1 == (ReceiveStep::Accepted {
            report_progress: true,
        }),
    ensures
        ({
            let next = after_chunk(state, max_body_bytes, chunk_len).0;
            next.next_progress > next.received || next.next_progress == usize::MAX
        }),
{
    let r = (state.received + chunk_len) as nat;
    let p = crate::server::RECEIVE_PROGRESS_BYTES as nat;
    assert((r / p + 1) * p > r) by (nonlinear_arith)
        requires
            p > 0,
    ;
}

/// The response to a request depends on the settings only through the body
/// limit: two servers with the same limit (whatever their warning
/// thresholds) answer an outcome with the same status, and with the same
/// text but for the request number. (The remote address reaches no decision
/// at all; the body accounting and the admission check take only the limit.)
pub proof fn law_responses_depend_only_on_the_limit(
    c1: ServerConfig,
    c2: ServerConfig,
    id1: u64,
    id2: u64,
    outcome: RequestOutcome,
)
    requires
        c1.max_body_bytes == c2.max_body_bytes,
    ensures
        config_response(c1, id1, outcome).0 == config_response(c2, id2, outcome).0,
        outcome matches RequestOutcome::Decompiled(_) ==> config_response(c1, id1, outcome).1
            == config_response(c2, id2, outcome).1,
        !(outcome matches RequestOutcome::Decompiled(_)) ==> {
            &&& config_response(c1, id1, outcome).1 == "request "@ + decimal(id1 as nat)
                + outcome_detail(c1.max_body_bytes, outcome)
            &&& config_response(c2, id2, outcome).1 == "request "@ + decimal(id2 as nat)
                + outcome_detail(c1.max_body_bytes, outcome)
        },
        id1 == id2 ==> config_response(c1, id1, outcome) == config_response(c2, id2, outcome),
{
}

/// The server never listens on port 0.
pub proof fn law_port_is_never_zero(text: Option<Seq<char>>)
    ensures
        port_choice(text).0 != 0,
{
}

} // verus!
