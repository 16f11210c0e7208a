//! The constants of a function prototype.
use crate::error::{failure_at, PResult, ParseError, ParseErrorKind};
use crate::reader::{
    item_prefix_stable, lemma_fixed_prefix, lemma_leb128_prefix, lemma_list_prefix,
    lemma_usize_items_prefix, prefix_stable, byte_at, ends_within, i32_at, item_fn, leb128_u64_at, leb128_usize_at, list_at, model_of,
    read_i32, read_leb128_u64, read_leb128_usize, read_list, read_u32, read_u64, read_u8, u32_at,
    u64_at, ItemReader, UsizeItems,
};
use vstd::prelude::*;

verus! {

pub const CONSTANT_NIL: u8 = 0;
pub const CONSTANT_BOOLEAN: u8 = 1;
pub const CONSTANT_NUMBER: u8 = 2;
pub const CONSTANT_STRING: u8 = 3;
pub const CONSTANT_IMPORT: u8 = 4;
pub const CONSTANT_TABLE: u8 = 5;
pub const CONSTANT_CLOSURE: u8 = 6;
pub const CONSTANT_VECTOR: u8 = 7;
pub const CONSTANT_TABLE_WITH_CONSTANTS: u8 = 8;
pub const CONSTANT_INTEGER: u8 = 9;

/// A constant. Numbers are held as the bit patterns of their IEEE 754
/// encoding: `Number` the 64 bits of an `f64`, `Vector` the 32 bits of each of
/// four `f32`s. Indices refer to the chunk's string table (from 1), to the
/// function's constants, to imports or to child prototypes.
///
/// Two constants are equal as the original's are: numbers by IEEE 754
/// equality (see `constant_eq`), everything else field by field.
#[derive(Debug, Clone)]
pub enum Constant {
    Nil,
    Boolean(bool),
    Number(u64),
    String(usize),
    Import(usize),
    Table(Vec<usize>),
    Closure(usize),
    Vector(u32, u32, u32, u32),
    TableWithConstants(Vec<(usize, Option<usize>)>),
    Integer(i64),
}

/// A constant in the model: lists as sequences.
pub enum ConstantModel {
    Nil,
    Boolean(bool),
    Number(u64),
    String(usize),
    Import(usize),
    Table(Seq<usize>),
    Closure(usize),
    Vector(u32, u32, u32, u32),
    TableWithConstants(Seq<(usize, Option<usize>)>),
    Integer(i64),
}

impl DeepView for Constant {
    type V = ConstantModel;

    open spec fn deep_view(&self) -> ConstantModel {
        match self {
            Constant::Nil => ConstantModel::Nil,
            Constant::Boolean(b) => ConstantModel::Boolean(*b),
            Constant::Number(n) => ConstantModel::Number(*n),
            Constant::String(i) => ConstantModel::String(*i),
            Constant::Import(i) => ConstantModel::Import(*i),
            Constant::Table(keys) => ConstantModel::Table(keys.deep_view()),
            Constant::Closure(i) => ConstantModel::Closure(*i),
            Constant::Vector(x, y, z, w) => ConstantModel::Vector(*x, *y, *z, *w),
            Constant::TableWithConstants(entries) => ConstantModel::TableWithConstants(
                entries.deep_view(),
            ),
            Constant::Integer(v) => ConstantModel::Integer(*v),
        }
    }
}

/// The value index of a table-template entry: absent when negative.
pub open spec fn value_index(v: i32) -> Option<usize> {
    if v >= 0 {
        Some(v as usize)
    } else {
        None
    }
}

/// One entry of a table template: an LEB128 key index, then an `i32` value
/// index.
pub open spec fn table_entry_at(s: Seq<u8>, p: int) -> PResult<(usize, Option<usize>)> {
    match leb128_usize_at(s, p) {
        Ok((q, key)) => match i32_at(s, q) {
            Ok((r, v)) => Ok((r, (key, value_index(v)))),
            Err(e) => Err(e),
        },
        Err(e) => Err(e),
    }
}

/// Reads table-template entries.
pub struct TableEntries;

impl ItemReader for TableEntries {
    type Item = (usize, Option<usize>);

    open spec fn item_at(&self, s: Seq<u8>, p: int) -> PResult<(usize, Option<usize>)> {
        table_entry_at(s, p)
    }

    fn read_item(&self, input: &[u8], pos: usize) -> (res: Result<
        (usize, (usize, Option<usize>)),
        ParseError,
    >) {
        let (q, key) = match read_leb128_usize(input, pos) {
            Ok(r) => r,
            Err(e) => return Err(e),
        };
        let (r, v) = match read_i32(input, q) {
            Ok(r) => r,
            Err(e) => return Err(e),
        };
        let value = if v >= 0 {
            Some(v as usize)
        } else {
            None
        };
        Ok((r, (key, value)))
    }
}

/// The integer of a sign byte (0 or 1) and a magnitude, if it fits an `i64`.
pub open spec fn signed_magnitude(is_negative: u8, magnitude: u64) -> Option<i64> {
    if is_negative == 0 && magnitude <= i64::MAX {
        Some(magnitude as i64)
    } else if is_negative == 1 && magnitude <= 0x8000_0000_0000_0000u64 {
        Some((-(magnitude as int)) as i64)
    } else {
        None
    }
}

/// An integer constant after its tag: a sign byte, then the magnitude as an
/// LEB128 `u64`.
pub open spec fn integer_at(s: Seq<u8>, p: int) -> PResult<i64> {
    match byte_at(s, p) {
        Ok((q, is_negative)) => if is_negative > 1 {
            Err(failure_at(q, ParseErrorKind::Verify))
        } else {
            match leb128_u64_at(s, q) {
                Ok((r, magnitude)) => match signed_magnitude(is_negative, magnitude) {
                    Some(v) => Ok((r, v)),
                    None => Err(failure_at(r, ParseErrorKind::Verify)),
                },
                Err(e) => Err(e),
            }
        },
        Err(e) => Err(e),
    }
}

/// Four `f32` bit patterns from `p` on.
pub open spec fn vector_at(s: Seq<u8>, p: int) -> PResult<ConstantModel> {
    match u32_at(s, p) {
        Ok((p1, x)) => match u32_at(s, p1) {
            Ok((p2, y)) => match u32_at(s, p2) {
                Ok((p3, z)) => match u32_at(s, p3) {
                    Ok((p4, w)) => Ok((p4, ConstantModel::Vector(x, y, z, w))),
                    Err(e) => Err(e),
                },
                Err(e) => Err(e),
            },
            Err(e) => Err(e),
        },
        Err(e) => Err(e),
    }
}

/// The body of a constant with tag `tag`, from `p` on.
pub open spec fn constant_body_at(s: Seq<u8>, p: int, tag: u8) -> PResult<ConstantModel> {
    if tag == CONSTANT_NIL {
        Ok((p, ConstantModel::Nil))
    } else if tag == CONSTANT_BOOLEAN {
        match byte_at(s, p) {
            Ok((q, v)) => Ok((q, ConstantModel::Boolean(v != 0))),
            Err(e) => Err(e),
        }
    } else if tag == CONSTANT_NUMBER {
        match u64_at(s, p) {
            Ok((q, v)) => Ok((q, ConstantModel::Number(v))),
            Err(e) => Err(e),
        }
    } else if tag == CONSTANT_STRING {
        match leb128_usize_at(s, p) {
            Ok((q, v)) => Ok((q, ConstantModel::String(v))),
            Err(e) => Err(e),
        }
    } else if tag == CONSTANT_IMPORT {
        match u32_at(s, p) {
            Ok((q, v)) => Ok((q, ConstantModel::Import(v as usize))),
            Err(e) => Err(e),
        }
    } else if tag == CONSTANT_TABLE {
        match list_at(s, p, item_fn(UsizeItems)) {
            Ok((q, keys)) => Ok((q, ConstantModel::Table(keys))),
            Err(e) => Err(e),
        }
    } else if tag == CONSTANT_CLOSURE {
        match leb128_usize_at(s, p) {
            Ok((q, v)) => Ok((q, ConstantModel::Closure(v))),
            Err(e) => Err(e),
        }
    } else if tag == CONSTANT_VECTOR {
        vector_at(s, p)
    } else if tag == CONSTANT_TABLE_WITH_CONSTANTS {
        match list_at(s, p, item_fn(TableEntries)) {
            Ok((q, entries)) => Ok((q, ConstantModel::TableWithConstants(entries))),
            Err(e) => Err(e),
        }
    } else if tag == CONSTANT_INTEGER {
        match integer_at(s, p) {
            Ok((q, v)) => Ok((q, ConstantModel::Integer(v))),
            Err(e) => Err(e),
        }
    } else {
        Err(failure_at(p, ParseErrorKind::Alt))
    }
}

/// A constant at `p`: a tag byte, then its body.
pub open spec fn constant_at(s: Seq<u8>, p: int) -> PResult<ConstantModel> {
    match byte_at(s, p) {
        Ok((q, tag)) => constant_body_at(s, q, tag),
        Err(e) => Err(e),
    }
}

impl Constant {
    /// Reads one constant from the start of `input`: what is left after it,
    /// and the constant.
    pub fn parse(input: &[u8]) -> (res: Result<(&[u8], Constant), ParseError>)
        ensures
            match res {
                Ok((rest, c)) => constant_at(input@, 0) == Ok::<(int, ConstantModel), ParseError>(
                    (input@.len() - rest@.len(), c.deep_view()),
                ) && rest@ == input@.subrange(input@.len() - rest@.len(), input@.len() as int),
                Err(e) => constant_at(input@, 0) == Err::<(int, ConstantModel), ParseError>(e),
            },
    {
        match Constant::parse_at(input, 0) {
            Ok((q, c)) => Ok((vstd::slice::slice_subrange(input, q, input.len()), c)),
            Err(e) => Err(e),
        }
    }

    /// Reads one constant from `pos` on: the position after it and the
    /// constant.
    pub fn parse_at(input: &[u8], pos: usize) -> (res: Result<(usize, Constant), ParseError>)
        requires
            pos <= input.len(),
        ensures
            model_of(res) == constant_at(input@, pos as int),
            ends_within(res, input.len()),
    {
        let (pos, tag) = match read_u8(input, pos) {
            Ok(r) => r,
            Err(e) => return Err(e),
        };
        if tag == CONSTANT_NIL {
            Ok((pos, Constant::Nil))
        } else if tag == CONSTANT_BOOLEAN {
            match read_u8(input, pos) {
                Ok((q, v)) => Ok((q, Constant::Boolean(v != 0u8))),
                Err(e) => Err(e),
            }
        } else if tag == CONSTANT_NUMBER {
            match read_u64(input, pos) {
                Ok((q, v)) => Ok((q, Constant::Number(v))),
                Err(e) => Err(e),
            }
        } else if tag == CONSTANT_STRING {
            match read_leb128_usize(input, pos) {
                Ok((q, v)) => Ok((q, Constant::String(v))),
                Err(e) => Err(e),
            }
        } else if tag == CONSTANT_IMPORT {
            match read_u32(input, pos) {
                Ok((q, v)) => Ok((q, Constant::Import(v as usize))),
                Err(e) => Err(e),
            }
        } else if tag == CONSTANT_TABLE {
            match read_list(&UsizeItems, input, pos) {
                Ok((q, keys)) => Ok((q, Constant::Table(keys))),
                Err(e) => Err(e),
            }
        } else if tag == CONSTANT_CLOSURE {
            match read_leb128_usize(input, pos) {
                Ok((q, v)) => Ok((q, Constant::Closure(v))),
                Err(e) => Err(e),
            }
        } else if tag == CONSTANT_VECTOR {
            let (p1, x) = match read_u32(input, pos) {
                Ok(r) => r,
                Err(e) => return Err(e),
            };
            let (p2, y) = match read_u32(input, p1) {
                Ok(r) => r,
                Err(e) => return Err(e),
            };
            let (p3, z) = match read_u32(input, p2) {
                Ok(r) => r,
                Err(e) => return Err(e),
            };
            let (p4, w) = match read_u32(input, p3) {
                Ok(r) => r,
                Err(e) => return Err(e),
            };
            Ok((p4, Constant::Vector(x, y, z, w)))
        } else if tag == CONSTANT_TABLE_WITH_CONSTANTS {
            match read_list(&TableEntries, input, pos) {
                Ok((q, entries)) => Ok((q, Constant::TableWithConstants(entries))),
                Err(e) => Err(e),
            }
        } else if tag == CONSTANT_INTEGER {
            let (q, is_negative) = match read_u8(input, pos) {
                Ok(r) => r,
                Err(e) => return Err(e),
            };
            if is_negative > 1 {
                return Err(ParseError::Failure { offset: q, kind: ParseErrorKind::Verify });
            }
            let (r, magnitude) = match read_leb128_u64(input, q) {
                Ok(r) => r,
                Err(e) => return Err(e),
            };
            if is_negative == 0 && magnitude <= i64::MAX as u64 {
                Ok((r, Constant::Integer(magnitude as i64)))
            } else if is_negative == 1 && magnitude <= 0x8000_0000_0000_0000u64 {
                let value: i64 = if magnitude == 0x8000_0000_0000_0000u64 {
                    i64::MIN
                } else {
                    -(magnitude as i64)
                };
                Ok((r, Constant::Integer(value)))
            } else {
                Err(ParseError::Failure { offset: r, kind: ParseErrorKind::Verify })
            }
        } else {
            Err(ParseError::Failure { offset: pos, kind: ParseErrorKind::Alt })
        }
    }
}

/// Reads constants.
pub struct ConstantItems;

impl ItemReader for ConstantItems {
    type Item = Constant;

    open spec fn item_at(&self, s: Seq<u8>, p: int) -> PResult<ConstantModel> {
        constant_at(s, p)
    }

    fn read_item(&self, input: &[u8], pos: usize) -> (res: Result<(usize, Constant), ParseError>) {
        Constant::parse_at(input, pos)
    }
}

pub proof fn lemma_table_entries_prefix(s1: Seq<u8>, s2: Seq<u8>)
    ensures
        item_prefix_stable(item_fn(TableEntries), s1, s2),
{
    assert forall|q: int|
        #[trigger] prefix_stable(item_fn(TableEntries)(s1, q), item_fn(TableEntries)(s1 + s2, q)) by {
        lemma_leb128_prefix(s1, s2, q);
        if let Ok((r, _)) = leb128_usize_at(s1, q) {
            lemma_fixed_prefix(s1, s2, r, 0);
        }
    }
}

/// A constant read from `s1` reads the same from `s1 + s2`.
pub proof fn lemma_constant_prefix(s1: Seq<u8>, s2: Seq<u8>, p: int)
    ensures
        prefix_stable(constant_at(s1, p), constant_at(s1 + s2, p)),
{
    lemma_fixed_prefix(s1, s2, p, 0);
    if let Ok((q, tag)) = byte_at(s1, p) {
        lemma_fixed_prefix(s1, s2, q, 0);
        lemma_leb128_prefix(s1, s2, q);
        lemma_usize_items_prefix(s1, s2);
        lemma_table_entries_prefix(s1, s2);
        lemma_list_prefix(s1, s2, q, item_fn(UsizeItems));
        lemma_list_prefix(s1, s2, q, item_fn(TableEntries));
        if tag == CONSTANT_VECTOR {
            if let Ok((p1, _)) = u32_at(s1, q) {
                lemma_fixed_prefix(s1, s2, p1, 0);
                if let Ok((p2, _)) = u32_at(s1, p1) {
                    lemma_fixed_prefix(s1, s2, p2, 0);
                    if let Ok((p3, _)) = u32_at(s1, p2) {
                        lemma_fixed_prefix(s1, s2, p3, 0);
                    }
                }
            }
        }
        if tag == CONSTANT_INTEGER {
            if let Ok((r, _)) = byte_at(s1, q) {
                lemma_leb128_prefix(s1, s2, r);
            }
        }
    }
}

pub proof fn lemma_constant_items_prefix(s1: Seq<u8>, s2: Seq<u8>)
    ensures
        item_prefix_stable(item_fn(ConstantItems), s1, s2),
{
    assert forall|q: int|
        #[trigger] prefix_stable(item_fn(ConstantItems)(s1, q), item_fn(ConstantItems)(s1 + s2, q)) by {
        lemma_constant_prefix(s1, s2, q);
    }
}

} // verus!
