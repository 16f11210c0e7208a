//! A bytecode chunk: string table, userdata type names, prototypes and the
//! index of the main prototype.
use crate::error::{PResult, ParseError};
use crate::function::{lemma_function_items_prefix, Function, FunctionItems, FunctionModel};
use crate::reader::{
    lemma_fixed_prefix, lemma_leb128_prefix, lemma_list_prefix, lemma_usize_items_prefix,
    prefix_stable, byte_at, ends_within, item_fn, leb128_usize_at, lemma_leb128_ends, list_at, model_of, prepend,
    read_leb128_usize, read_list, read_u8, StringItems,
};
use vstd::prelude::*;

verus! {

/// A chunk. `string_table` holds the strings that constants and debug data
/// refer to (index 1 is the first string). `userdata_types` pairs each
/// remapped userdata type index with the string index of its name.
#[derive(Debug)]
pub struct Chunk {
    pub types_version: u8,
    pub string_table: Vec<Vec<u8>>,
    pub userdata_types: Vec<(u8, usize)>,
    pub functions: Vec<Function>,
    pub main: usize,
}

pub struct ChunkModel {
    pub types_version: u8,
    pub string_table: Seq<Seq<u8>>,
    pub userdata_types: Seq<(u8, usize)>,
    pub functions: Seq<FunctionModel>,
    pub main: usize,
}

impl DeepView for Chunk {
    type V = ChunkModel;

    open spec fn deep_view(&self) -> ChunkModel {
        ChunkModel {
            types_version: self.types_version,
            string_table: self.string_table.deep_view(),
            userdata_types: self.userdata_types.deep_view(),
            functions: self.functions.deep_view(),
            main: self.main,
        }
    }
}

/// The type version that carries a userdata type remapping.
pub const USERDATA_TYPES_VERSION: u8 = 3;

/// The userdata type remapping from `p` on: pairs of a non-zero type index
/// byte and an LEB128 name index, ended by a zero byte.
pub open spec fn userdata_types_at(s: Seq<u8>, p: int) -> PResult<Seq<(u8, usize)>>
    decreases s.len() - p,
{
    match byte_at(s, p) {
        Ok((p1, index)) => if index == 0 {
            Ok((p1, Seq::empty()))
        } else {
            match leb128_usize_at(s, p1) {
                Ok((p2, name)) => {
                    proof {
                        lemma_leb128_ends(s, p1, 0, crate::reader::usize_leb_len());
                    }
                    prepend(seq![(index, name)], userdata_types_at(s, p2))
                },
                Err(e) => Err(e),
            }
        },
        Err(e) => Err(e),
    }
}

/// The chunk that follows the version byte, from `p` on: from version 4 on a
/// type version byte, then the string table, the userdata type remapping
/// (for type version 3), the prototypes and the main prototype's index.
pub open spec fn chunk_at(s: Seq<u8>, p: int, encode_key: u8, version: u8) -> PResult<ChunkModel> {
    let tv = if version >= 4 {
        byte_at(s, p)
    } else {
        Ok((p, 0u8))
    };
    match tv {
        Ok((p1, types_version)) => match list_at(s, p1, item_fn(StringItems)) {
            Ok((p2, string_table)) => match (if types_version == USERDATA_TYPES_VERSION {
                userdata_types_at(s, p2)
            } else {
                Ok((p2, Seq::empty()))
            }) {
                Ok((p3, userdata_types)) => match list_at(
                    s,
                    p3,
                    item_fn(FunctionItems { encode_key, version }),
                ) {
                    Ok((p4, functions)) => match leb128_usize_at(s, p4) {
                        Ok((p5, main)) => Ok(
                            (
                                p5,
                                ChunkModel {
                                    types_version,
                                    string_table,
                                    userdata_types,
                                    functions,
                                    main,
                                },
                            ),
                        ),
                        Err(e) => Err(e),
                    },
                    Err(e) => Err(e),
                },
                Err(e) => Err(e),
            },
            Err(e) => Err(e),
        },
        Err(e) => Err(e),
    }
}

fn read_userdata_types(input: &[u8], pos: usize) -> (res: Result<(usize, Vec<(u8, usize)>), ParseError>)
    requires
        pos <= input.len(),
    ensures
        model_of(res) == userdata_types_at(input@, pos as int),
        ends_within(res, input.len()),
{
    let ghost s = input@;
    let mut types: Vec<(u8, usize)> = Vec::new();
    let mut cur = pos;
    loop
        invariant
            s == input@,
            cur <= input.len(),
            prepend(types.deep_view(), userdata_types_at(s, cur as int)) == userdata_types_at(
                s,
                pos as int,
            ),
        decreases input.len() - cur,
    {
        let (p1, index) = match read_u8(input, cur) {
            Ok(r) => r,
            Err(e) => return Err(e),
        };
        if index == 0 {
            proof {
                assert(types.deep_view() + Seq::empty() =~= types.deep_view());
            }
            return Ok((p1, types));
        }
        let (p2, name) = match read_leb128_usize(input, p1) {
            Ok(r) => r,
            Err(e) => return Err(e),
        };
        proof {
            lemma_leb128_ends(s, p1 as int, 0, crate::reader::usize_leb_len());
            let before = types.deep_view();
            let rest = userdata_types_at(s, p2 as int);
            if let Ok((q, xs)) = rest {
                assert(before + (seq![(index, name)] + xs) =~= (before + seq![(index, name)]) + xs);
            }
        }
        let ghost before = types.deep_view();
        types.push((index, name));
        proof {
            assert(types.deep_view() =~= before + seq![(index, name)]);
        }
        cur = p2;
    }
}

impl Chunk {
    /// Reads the chunk that follows the version byte, from `pos` on.
    pub fn parse(input: &[u8], pos: usize, encode_key: u8, version: u8) -> (res: Result<
        (usize, Chunk),
        ParseError,
    >)
        requires
            pos <= input.len(),
        ensures
            model_of(res) == chunk_at(input@, pos as int, encode_key, version),
            ends_within(res, input.len()),
    {
        let (p1, types_version) = if version >= 4 {
            match read_u8(input, pos) {
                Ok(r) => r,
                Err(e) => return Err(e),
            }
        } else {
            (pos, 0u8)
        };
        let (p2, string_table) = match read_list(&StringItems, input, p1) {
            Ok(r) => r,
            Err(e) => return Err(e),
        };
        let (p3, userdata_types) = if types_version == USERDATA_TYPES_VERSION {
            match read_userdata_types(input, p2) {
                Ok(r) => r,
                Err(e) => return Err(e),
            }
        } else {
            let none: Vec<(u8, usize)> = Vec::new();
            proof {
                assert(none.deep_view() =~= Seq::<(u8, usize)>::empty());
            }
            (p2, none)
        };
        let functions_reader = FunctionItems { encode_key, version };
        let (p4, functions) = match read_list(&functions_reader, input, p3) {
            Ok(r) => r,
            Err(e) => return Err(e),
        };
        let (p5, main) = match read_leb128_usize(input, p4) {
            Ok(r) => r,
            Err(e) => return Err(e),
        };
        Ok((p5, Chunk { types_version, string_table, userdata_types, functions, main }))
    }
}

proof fn lemma_userdata_types_prefix(s1: Seq<u8>, s2: Seq<u8>, p: int)
    ensures
        prefix_stable(userdata_types_at(s1, p), userdata_types_at(s1 + s2, p)),
    decreases s1.len() - p,
{
    lemma_fixed_prefix(s1, s2, p, 0);
    if let Ok((p1, index)) = byte_at(s1, p) {
        lemma_leb128_prefix(s1, s2, p1);
        if index != 0 {
            if let Ok((p2, _)) = leb128_usize_at(s1, p1) {
                lemma_leb128_ends(s1, p1, 0, crate::reader::usize_leb_len());
                lemma_userdata_types_prefix(s1, s2, p2);
            }
        }
    }
}

/// A chunk read from `s1` reads the same from `s1 + s2`.
pub proof fn lemma_chunk_prefix(s1: Seq<u8>, s2: Seq<u8>, p: int, encode_key: u8, version: u8)
    ensures
        prefix_stable(chunk_at(s1, p, encode_key, version), chunk_at(s1 + s2, p, encode_key, version)),
{
    lemma_fixed_prefix(s1, s2, p, 0);
    lemma_usize_items_prefix(s1, s2);
    lemma_function_items_prefix(s1, s2, encode_key, version);
    let p1 = if version >= 4 {
        p + 1
    } else {
        p
    };
    lemma_list_prefix(s1, s2, p1, item_fn(StringItems));
    if let Ok((p2, _)) = list_at(s1, p1, item_fn(StringItems)) {
        lemma_userdata_types_prefix(s1, s2, p2);
        let p3 = match userdata_types_at(s1, p2) {
            Ok((q, _)) => q,
            Err(_) => p2,
        };
        lemma_list_prefix(s1, s2, p3, item_fn(FunctionItems { encode_key, version }));
        lemma_list_prefix(s1, s2, p2, item_fn(FunctionItems { encode_key, version }));
        if let Ok((p4, _)) = list_at(s1, p3, item_fn(FunctionItems { encode_key, version })) {
            lemma_leb128_prefix(s1, s2, p4);
        }
        if let Ok((p4, _)) = list_at(s1, p2, item_fn(FunctionItems { encode_key, version })) {
            lemma_leb128_prefix(s1, s2, p4);
        }
    }
}

} // verus!
