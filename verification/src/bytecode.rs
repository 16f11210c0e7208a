//! Whole bytecode blobs: the status byte and what follows it, and the
//! `deserialize` entry point with its error messages.
use crate::chunk::{chunk_at, Chunk, ChunkModel};
use crate::error::{failure_at, PResult, ParseError, ParseErrorKind};
use crate::reader::byte_at;
use crate::text::{decimal, push_decimal};
use nom::error::ErrorKind;
use vstd::prelude::*;

verus! {

pub const MIN_SUPPORTED_VERSION: u8 = 4;
pub const MAX_SUPPORTED_VERSION: u8 = 9;

/// A compiled blob: either the compiler's error message (status byte 0) or a
/// chunk (status byte = bytecode version).
#[derive(Debug)]
pub enum Bytecode {
    Error(String),
    Chunk(Chunk),
}

pub enum BytecodeModel {
    Error(Seq<char>),
    Chunk(ChunkModel),
}

impl DeepView for Bytecode {
    type V = BytecodeModel;

    open spec fn deep_view(&self) -> BytecodeModel {
        match self {
            Bytecode::Error(message) => BytecodeModel::Error(message@),
            Bytecode::Chunk(chunk) => BytecodeModel::Chunk(chunk.deep_view()),
        }
    }
}

/// `String::from_utf8_lossy` applied to the bytes.
pub uninterp spec fn lossy_utf8(bytes: Seq<u8>) -> Seq<char>;

/// `String::from_utf8_lossy`, made an owned `String`. Its documentation:
/// invalid UTF-8 sequences become U+FFFD; so valid UTF-8 decodes as is. What
/// it makes of invalid input is left to the name.
#[verifier::external_body]
fn utf8_lossy(bytes: &[u8]) -> (res: String)
    ensures
        res@ == lossy_utf8(bytes@),
        vstd::utf8::valid_utf8(bytes@) ==> res@ == vstd::utf8::decode_utf8(bytes@),
{
    String::from_utf8_lossy(bytes).into_owned()
}

/// A blob that carries a compiler message (status 0) in valid UTF-8.
pub open spec fn is_utf8_message(s: Seq<u8>) -> bool {
    s.len() > 0 && s[0] == 0 && vstd::utf8::valid_utf8(s.subrange(1, s.len() as int))
}

/// The message of such a blob, decoded.
pub open spec fn utf8_message(s: Seq<u8>) -> Seq<char> {
    vstd::utf8::decode_utf8(s.subrange(1, s.len() as int))
}

/// Whether a status byte names a supported bytecode version.
pub open spec fn is_supported_version(version: u8) -> bool {
    MIN_SUPPORTED_VERSION <= version <= MAX_SUPPORTED_VERSION
}

/// A whole blob: the status byte; for status 0 the rest is the error message;
/// for a supported version the rest begins with a chunk; any other status is
/// an unrecoverable error just after the status byte.
pub open spec fn bytecode_at(s: Seq<u8>, encode_key: u8) -> PResult<BytecodeModel> {
    match byte_at(s, 0) {
        Ok((p, status)) => if status == 0 {
            Ok((s.len() as int, BytecodeModel::Error(lossy_utf8(s.subrange(p, s.len() as int)))))
        } else if is_supported_version(status) {
            match chunk_at(s, p, encode_key, status) {
                Ok((q, chunk)) => Ok((q, BytecodeModel::Chunk(chunk))),
                Err(e) => Err(e),
            }
        } else {
            Err(failure_at(p, ParseErrorKind::Verify))
        },
        Err(e) => Err(e),
    }
}

impl Bytecode {
    /// Reads a blob from the start of `input`: what is left after it, and
    /// the blob.
    pub fn parse(input: &[u8], encode_key: u8) -> (res: Result<(&[u8], Bytecode), ParseError>)
        ensures
            match res {
                Ok((rest, b)) => bytecode_at(input@, encode_key) == Ok::<
                    (int, BytecodeModel),
                    ParseError,
                >((input@.len() - rest@.len(), b.deep_view())) && rest@ == input@.subrange(
                    input@.len() - rest@.len(),
                    input@.len() as int,
                ),
                Err(e) => bytecode_at(input@, encode_key) == Err::<(int, BytecodeModel), ParseError>(e),
            },
            is_utf8_message(input@) ==> (res matches Ok((_, Bytecode::Error(m))) && m@ == utf8_message(
                input@,
            )),
    {
        let (p, status) = match crate::reader::read_u8(input, 0) {
            Ok(r) => r,
            Err(e) => return Err(e),
        };
        if status == 0 {
            let message = utf8_lossy(vstd::slice::slice_subrange(input, p, input.len()));
            let rest = vstd::slice::slice_subrange(input, input.len(), input.len());
            Ok((rest, Bytecode::Error(message)))
        } else if MIN_SUPPORTED_VERSION <= status && status <= MAX_SUPPORTED_VERSION {
            let (q, chunk) = match Chunk::parse(input, p, encode_key, status) {
                Ok(r) => r,
                Err(e) => return Err(e),
            };
            let rest = vstd::slice::slice_subrange(input, q, input.len());
            Ok((rest, Bytecode::Chunk(chunk)))
        } else {
            Err(ParseError::Failure { offset: p, kind: ParseErrorKind::Verify })
        }
    }
}

// ------------------------------------------------------------------ messages
/// The bytes of a list in `Debug` form, without the brackets: decimal
/// numbers separated by `", "`.
pub open spec fn byte_list_text(bytes: Seq<u8>) -> Seq<char>
    decreases bytes.len(),
{
    if bytes.len() == 0 {
        Seq::empty()
    } else if bytes.len() == 1 {
        decimal(bytes[0] as nat)
    } else {
        byte_list_text(bytes.drop_last()) + ", "@ + decimal(bytes.last() as nat)
    }
}

/// The `Debug` name of the nom error kind of the same name.
pub open spec fn kind_name(kind: ParseErrorKind) -> Seq<char> {
    match kind {
        ParseErrorKind::Eof => "Eof"@,
        ParseErrorKind::TooLarge => "TooLarge"@,
        ParseErrorKind::Verify => "Verify"@,
        ParseErrorKind::Alt => "Alt"@,
        ParseErrorKind::Tag => "Tag"@,
    }
}

/// How `nom` displays a parse error whose input is `rest`: `Display` of
/// `nom::Err` around the derived `Debug` of `nom::error::Error`.
pub open spec fn nom_error_text(rest: Seq<u8>, error: ParseError) -> Seq<char> {
    match error {
        ParseError::Incomplete => "Parsing requires 1 bytes/chars"@,
        ParseError::Error { kind, .. } => "Parsing Error: Error { input: ["@ + byte_list_text(rest)
            + "], code: "@ + kind_name(kind) + " }"@,
        ParseError::Failure { kind, .. } => "Parsing Failure: Error { input: ["@ + byte_list_text(
            rest,
        ) + "], code: "@ + kind_name(kind) + " }"@,
    }
}

/// The `to_string()` of the `nom::Err<nom::error::Error<&[u8]>>` that stands
/// for `error`: `Error` and `Failure` with `rest` as input and the kind of the
/// same name, and `Incomplete` as needing one byte (what `nom_leb128`
/// reports). nom's `Display` writes `"Parsing requires {n} bytes/chars"`,
/// `"Parsing Error: {e:?}"` or `"Parsing Failure: {e:?}"`, and the derived
/// `Debug` of the error writes `Error { input: [..], code: Kind }`.
#[verifier::external_body]
fn nom_error_message(rest: &[u8], error: ParseError) -> (res: String)
    ensures
        res@ == nom_error_text(rest@, error),
{
    let code = |kind: ParseErrorKind| match kind {
        ParseErrorKind::Eof => ErrorKind::Eof,
        ParseErrorKind::TooLarge => ErrorKind::TooLarge,
        ParseErrorKind::Verify => ErrorKind::Verify,
        ParseErrorKind::Alt => ErrorKind::Alt,
        ParseErrorKind::Tag => ErrorKind::Tag,
    };
    let err: nom::Err<nom::error::Error<&[u8]>> = match error {
        ParseError::Incomplete => nom::Err::Incomplete(nom::Needed::new(1)),
        ParseError::Error { kind, .. } => nom::Err::Error(nom::error::Error::new(rest, code(kind))),
        ParseError::Failure { kind, .. } => nom::Err::Failure(nom::error::Error::new(rest, code(kind))),
    };
    err.to_string()
}

/// The input that the failing parser was given: from the error's offset to
/// the end (the whole input for an incomplete read).
pub open spec fn error_rest(s: Seq<u8>, e: ParseError) -> Seq<u8> {
    match e {
        ParseError::Error { offset, .. } => s.subrange(
            if offset <= s.len() {
                offset as int
            } else {
                s.len() as int
            },
            s.len() as int,
        ),
        ParseError::Failure { offset, .. } => s.subrange(
            if offset <= s.len() {
                offset as int
            } else {
                s.len() as int
            },
            s.len() as int,
        ),
        ParseError::Incomplete => s,
    }
}

/// The message for a parse error of input `s`.
pub open spec fn parse_error_message(s: Seq<u8>, e: ParseError) -> Seq<char> {
    nom_error_text(error_rest(s, e), e)
}

/// The message for an empty input.
pub open spec fn empty_message() -> Seq<char> {
    "bytecode is empty"@
}

/// The message for an unsupported version byte.
pub open spec fn unsupported_message(version: u8) -> Seq<char> {
    "unsupported bytecode version: "@ + decimal(version as nat) + " (supported: "@ + decimal(
        MIN_SUPPORTED_VERSION as nat,
    ) + "..="@ + decimal(MAX_SUPPORTED_VERSION as nat) + ")"@
}

/// What `deserialize` gives for input `s`: the blob, or the error message.
pub open spec fn deserialized(s: Seq<u8>, encode_key: u8) -> Result<BytecodeModel, Seq<char>> {
    if s.len() == 0 {
        Err(empty_message())
    } else if s[0] != 0 && !is_supported_version(s[0]) {
        Err(unsupported_message(s[0]))
    } else {
        match bytecode_at(s, encode_key) {
            Ok((_, b)) => Ok(b),
            Err(e) => Err(parse_error_message(s, e)),
        }
    }
}

/// The message for a parse error of `input`.
pub fn describe_parse_error(input: &[u8], e: ParseError) -> (res: String)
    ensures
        res@ == parse_error_message(input@, e),
{
    let rest = match e {
        ParseError::Error { offset, .. } | ParseError::Failure { offset, .. } => {
            let start = if offset <= input.len() {
                offset
            } else {
                input.len()
            };
            vstd::slice::slice_subrange(input, start, input.len())
        },
        ParseError::Incomplete => input,
    };
    proof {
        assert(rest@ =~= error_rest(input@, e));
    }
    nom_error_message(rest, e)
}

fn unsupported_version_text(version: u8) -> (res: String)
    ensures
        res@ == unsupported_message(version),
{
    let mut text = String::from_str("unsupported bytecode version: ");
    push_decimal(&mut text, version as u128);
    text.append(" (supported: ");
    push_decimal(&mut text, MIN_SUPPORTED_VERSION as u128);
    text.append("..=");
    push_decimal(&mut text, MAX_SUPPORTED_VERSION as u128);
    text.append(")");
    proof {
        assert(text@ =~= unsupported_message(version));
    }
    text
}

/// Reads a blob. Data after a complete chunk is left unread: producers may
/// append data of their own after the chunk.
pub fn deserialize(bytecode: &[u8], encode_key: u8) -> (res: Result<Bytecode, String>)
    ensures
        match res {
            Ok(b) => deserialized(bytecode@, encode_key) == Ok::<BytecodeModel, Seq<char>>(
                b.deep_view(),
            ),
            Err(message) => deserialized(bytecode@, encode_key) == Err::<BytecodeModel, Seq<char>>(
                message@,
            ),
        },
        is_utf8_message(bytecode@) ==> (res matches Ok(Bytecode::Error(m)) && m@ == utf8_message(
            bytecode@,
        )),
{
    if bytecode.len() == 0 {
        return Err(String::from_str("bytecode is empty"));
    }
    let version = bytecode[0];
    if version != 0 && !(MIN_SUPPORTED_VERSION <= version && version <= MAX_SUPPORTED_VERSION) {
        return Err(unsupported_version_text(version));
    }
    match Bytecode::parse(bytecode, encode_key) {
        Ok((_remaining, deserialized_bytecode)) => Ok(deserialized_bytecode),
        Err(err) => Err(describe_parse_error(bytecode, err)),
    }
}

} // verus!
