//! Primitive readers over a byte slice and a position in it: fixed-size
//! little-endian integers, byte strings, LEB128 integers and counted lists.
use crate::error::{error_at, PResult, ParseError, ParseErrorKind};
use vstd::prelude::*;

verus! {

/// The model of what an executable reader returned: positions as integers,
/// values by their deep view.
pub open spec fn model_of<T: DeepView>(r: Result<(usize, T), ParseError>) -> PResult<T::V> {
    match r {
        Ok((q, v)) => Ok((q as int, v.deep_view())),
        Err(e) => Err(e),
    }
}

/// A reader's result ends at or before the end of the input.
pub open spec fn ends_within<T>(r: Result<(usize, T), ParseError>, len: usize) -> bool {
    r matches Ok((q, _)) ==> q <= len
}

// ---------------------------------------------------------------- fixed size
/// One byte at `p`.
pub open spec fn byte_at(s: Seq<u8>, p: int) -> PResult<u8> {
    if 0 <= p < s.len() {
        Ok((p + 1, s[p]))
    } else {
        Err(error_at(p, ParseErrorKind::Eof))
    }
}

/// The little-endian value of the four bytes from `p` on.
pub open spec fn le_value32(s: Seq<u8>, p: int) -> nat {
    (s[p] + 256 * s[p + 1] + 65536 * s[p + 2] + 16777216 * s[p + 3]) as nat
}

/// The little-endian value of the eight bytes from `p` on.
pub open spec fn le_value64(s: Seq<u8>, p: int) -> nat {
    le_value32(s, p) + 4294967296 * le_value32(s, p + 4)
}

/// A little-endian `u32` at `p`.
pub open spec fn u32_at(s: Seq<u8>, p: int) -> PResult<u32> {
    if 0 <= p && p + 4 <= s.len() {
        Ok((p + 4, le_value32(s, p) as u32))
    } else {
        Err(error_at(p, ParseErrorKind::Eof))
    }
}

/// The two's-complement reading of a 32-bit pattern.
pub open spec fn signed32(v: nat) -> i32 {
    if v < 0x8000_0000 {
        v as i32
    } else {
        (v - 0x1_0000_0000) as i32
    }
}

/// A little-endian `i32` at `p`.
pub open spec fn i32_at(s: Seq<u8>, p: int) -> PResult<i32> {
    if 0 <= p && p + 4 <= s.len() {
        Ok((p + 4, signed32(le_value32(s, p))))
    } else {
        Err(error_at(p, ParseErrorKind::Eof))
    }
}

/// A little-endian `u64` at `p`.
pub open spec fn u64_at(s: Seq<u8>, p: int) -> PResult<u64> {
    if 0 <= p && p + 8 <= s.len() {
        Ok((p + 8, le_value64(s, p) as u64))
    } else {
        Err(error_at(p, ParseErrorKind::Eof))
    }
}

/// `n` bytes from `p` on.
pub open spec fn bytes_at(s: Seq<u8>, p: int, n: int) -> PResult<Seq<u8>> {
    if 0 <= p && p + n <= s.len() {
        Ok((p + n, s.subrange(p, p + n)))
    } else {
        Err(error_at(p, ParseErrorKind::Eof))
    }
}

/// Reads one byte at `pos`.
pub fn read_u8(input: &[u8], pos: usize) -> (res: Result<(usize, u8), ParseError>)
    requires
        pos <= input.len(),
    ensures
        model_of(res) == byte_at(input@, pos as int),
        ends_within(res, input.len()),
{
    if pos < input.len() {
        Ok((pos + 1, input[pos]))
    } else {
        Err(ParseError::Error { offset: pos, kind: ParseErrorKind::Eof })
    }
}

/// Reads a little-endian `u32` at `pos`.
pub fn read_u32(input: &[u8], pos: usize) -> (res: Result<(usize, u32), ParseError>)
    requires
        pos <= input.len(),
    ensures
        model_of(res) == u32_at(input@, pos as int),
        ends_within(res, input.len()),
{
    if input.len() - pos >= 4 {
        let b0 = input[pos] as u32;
        let b1 = input[pos + 1] as u32;
        let b2 = input[pos + 2] as u32;
        let b3 = input[pos + 3] as u32;
        let v = b0 + 256 * b1 + 65536 * b2 + 16777216 * b3;
        Ok((pos + 4, v))
    } else {
        Err(ParseError::Error { offset: pos, kind: ParseErrorKind::Eof })
    }
}

/// Reads a little-endian `i32` at `pos`.
pub fn read_i32(input: &[u8], pos: usize) -> (res: Result<(usize, i32), ParseError>)
    requires
        pos <= input.len(),
    ensures
        model_of(res) == i32_at(input@, pos as int),
        ends_within(res, input.len()),
{
    match read_u32(input, pos) {
        Ok((q, v)) => {
            let r: i32 = if v < 0x8000_0000 {
                v as i32
            } else {
                (v - 0x8000_0000) as i32 - 0x4000_0000 - 0x4000_0000
            };
            Ok((q, r))
        },
        Err(e) => Err(e),
    }
}

/// Reads a little-endian `u64` at `pos`.
pub fn read_u64(input: &[u8], pos: usize) -> (res: Result<(usize, u64), ParseError>)
    requires
        pos <= input.len(),
    ensures
        model_of(res) == u64_at(input@, pos as int),
        ends_within(res, input.len()),
{
    if input.len() - pos >= 8 {
        let lo = match read_u32(input, pos) {
            Ok((_, v)) => v,
            Err(e) => return Err(e),
        };
        let hi = match read_u32(input, pos + 4) {
            Ok((_, v)) => v,
            Err(e) => return Err(e),
        };
        Ok((pos + 8, lo as u64 + 4294967296 * hi as u64))
    } else {
        Err(ParseError::Error { offset: pos, kind: ParseErrorKind::Eof })
    }
}

/// Reads `n` bytes from `pos` on.
pub fn read_bytes(input: &[u8], pos: usize, n: usize) -> (res: Result<(usize, Vec<u8>), ParseError>)
    requires
        pos <= input.len(),
    ensures
        model_of(res) == bytes_at(input@, pos as int, n as int),
        ends_within(res, input.len()),
{
    if n <= input.len() - pos {
        let part = vstd::slice::slice_subrange(input, pos, pos + n);
        let v = vstd::slice::slice_to_vec(part);
        proof {
            assert(v.deep_view() =~= v@);
        }
        Ok((pos + n, v))
    } else {
        Err(ParseError::Error { offset: pos, kind: ParseErrorKind::Eof })
    }
}

// ------------------------------------------------------------------ LEB128
/// The weight of the `i`-th seven-bit group of an LEB128 number.
pub open spec fn leb_weight(i: nat) -> nat
    decreases i,
{
    if i == 0 {
        1
    } else {
        128 * leb_weight((i - 1) as nat)
    }
}

/// LEB128 groups read from byte `p + i` on, the number starting at `p` and
/// taking at most `max` bytes: the position after its last byte and the sum of
/// the groups from the `i`-th on, each by its weight. A byte with the high bit
/// clear ends the number; a number still unended at its `max`-th byte is too
/// large; input that ends first is incomplete.
pub open spec fn leb128_from(s: Seq<u8>, p: int, i: nat, max: nat) -> PResult<nat>
    decreases max - i,
{
    if i >= max {
        Err(error_at(p, ParseErrorKind::TooLarge))
    } else if !(0 <= p + i < s.len()) {
        Err(ParseError::Incomplete)
    } else if s[p + i] < 128 {
        Ok((p + i + 1, s[p + i] as nat * leb_weight(i)))
    } else if i + 1 == max {
        Err(error_at(p, ParseErrorKind::TooLarge))
    } else {
        match leb128_from(s, p, i + 1, max) {
            Ok((q, v)) => Ok((q, (s[p + i] - 128) as nat * leb_weight(i) + v)),
            Err(e) => Err(e),
        }
    }
}

/// An LEB128 `u64` at `p`: at most ten bytes, the sum taken modulo 2^64.
pub open spec fn leb128_u64_at(s: Seq<u8>, p: int) -> PResult<u64> {
    match leb128_from(s, p, 0, 10) {
        Ok((q, v)) => Ok((q, (v % 0x1_0000_0000_0000_0000) as u64)),
        Err(e) => Err(e),
    }
}

/// The most bytes that an LEB128 `usize` may take.
pub open spec fn usize_leb_len() -> nat {
    if usize::BITS == 64 {
        10
    } else {
        5
    }
}

/// An LEB128 `usize` at `p`, the sum taken modulo 2^BITS.
pub open spec fn leb128_usize_at(s: Seq<u8>, p: int) -> PResult<usize> {
    match leb128_from(s, p, 0, usize_leb_len()) {
        Ok((q, v)) => Ok((q, (v % (usize::MAX as nat + 1)) as usize)),
        Err(e) => Err(e),
    }
}

/// How an LEB128 read through `nom_leb128` stopped short.
pub enum Leb128Stop {
    TooLarge,
    Incomplete,
}

/// The same read seen from a slice that starts at `p`.
pub open spec fn rebased(r: PResult<nat>, p: int) -> PResult<nat> {
    match r {
        Ok((q, v)) => Ok((q - p, v)),
        Err(ParseError::Error { offset, kind }) => Err(error_at(offset - p, kind)),
        Err(e) => Err(e),
    }
}

/// What `nom_leb128` reports for a read at the start of `t`.
pub open spec fn leb128_outcome<T>(
    t: Seq<u8>,
    max: nat,
    res: Result<(&[u8], T), Leb128Stop>,
    value_of: spec_fn(nat) -> T,
) -> bool {
    match leb128_from(t, 0, 0, max) {
        Ok((q, v)) => res matches Ok((rest, x)) && rest@ == t.subrange(q, t.len() as int) && x
            == value_of(v),
        Err(ParseError::Incomplete) => res matches Err(Leb128Stop::Incomplete),
        Err(_) => res matches Err(Leb128Stop::TooLarge),
    }
}

/// `nom_leb128::leb128_u64` on a byte slice. It returns the rest of the input
/// and the number as `leb128_from` describes it with ten bytes at most, its
/// sum taken modulo 2^64 (its shifts drop the bits above 63); a tenth byte
/// with the high bit set is `TooLarge` (nom's `Err::Error`), input that ends
/// first is `Incomplete` (nom's `Err::Incomplete`).
#[verifier::external_body]
fn leb128_u64_prefix(input: &[u8]) -> (res: Result<(&[u8], u64), Leb128Stop>)
    ensures
        leb128_outcome(input@, 10, res, |v: nat| (v % 0x1_0000_0000_0000_0000) as u64),
{
    match nom_leb128::leb128_u64::<&[u8], nom::error::Error<&[u8]>>(input) {
        Ok((rest, v)) => Ok((rest, v)),
        Err(nom::Err::Incomplete(_)) => Err(Leb128Stop::Incomplete),
        Err(_) => Err(Leb128Stop::TooLarge),
    }
}

/// `nom_leb128::leb128_usize` on a byte slice: as `leb128_u64_prefix`, with
/// at most `ceil(BITS / 7)` bytes and the sum taken modulo 2^BITS.
#[verifier::external_body]
fn leb128_usize_prefix(input: &[u8]) -> (res: Result<(&[u8], usize), Leb128Stop>)
    ensures
        leb128_outcome(input@, usize_leb_len(), res, |v: nat| (v % (usize::MAX as nat + 1)) as usize),
{
    match nom_leb128::leb128_usize::<&[u8], nom::error::Error<&[u8]>>(input) {
        Ok((rest, v)) => Ok((rest, v)),
        Err(nom::Err::Incomplete(_)) => Err(Leb128Stop::Incomplete),
        Err(_) => Err(Leb128Stop::TooLarge),
    }
}

/// Reading an LEB128 number from a slice that starts at `p` gives the same
/// number, at positions shifted by `p`.
proof fn lemma_leb128_rebase(s: Seq<u8>, p: int, i: nat, max: nat)
    requires
        0 <= p <= s.len() <= usize::MAX,
    ensures
        leb128_from(s.subrange(p, s.len() as int), 0, i, max) == rebased(leb128_from(s, p, i, max), p),
    decreases max - i,
{
    let t = s.subrange(p, s.len() as int);
    if i < max && 0 <= p + i < s.len() {
        assert(t[i as int] == s[p + i]);
        if s[p + i] >= 128 && i + 1 < max {
            lemma_leb128_rebase(s, p, i + 1, max);
        }
    }
}

/// A successful LEB128 read ends after its first byte and within the input.
pub proof fn lemma_leb128_ends(s: Seq<u8>, p: int, i: nat, max: nat)
    requires
        0 <= p,
    ensures
        leb128_from(s, p, i, max) matches Ok((q, _)) ==> p + i < q <= s.len(),
        leb128_from(s, p, i, max) matches Err(e) ==> e == ParseError::Incomplete || e == error_at(
            p,
            ParseErrorKind::TooLarge,
        ),
    decreases max - i,
{
    if i < max && 0 <= p + i < s.len() && s[p + i] >= 128 && i + 1 < max {
        lemma_leb128_ends(s, p, i + 1, max);
    }
}

/// Reads an LEB128 `u64` at `pos`.
pub fn read_leb128_u64(input: &[u8], pos: usize) -> (res: Result<(usize, u64), ParseError>)
    requires
        pos <= input.len(),
    ensures
        model_of(res) == leb128_u64_at(input@, pos as int),
        ends_within(res, input.len()),
{
    let tail = vstd::slice::slice_subrange(input, pos, input.len());
    proof {
        lemma_leb128_rebase(input@, pos as int, 0, 10);
        lemma_leb128_ends(tail@, 0, 0, 10);
        lemma_leb128_ends(input@, pos as int, 0, 10);
    }
    match leb128_u64_prefix(tail) {
        Ok((rest, v)) => {
            Ok((pos + (tail.len() - rest.len()), v))
        },
        Err(Leb128Stop::Incomplete) => Err(ParseError::Incomplete),
        Err(Leb128Stop::TooLarge) => Err(ParseError::Error { offset: pos, kind: ParseErrorKind::TooLarge }),
    }
}

/// Reads an LEB128 `usize` at `pos`.
pub fn read_leb128_usize(input: &[u8], pos: usize) -> (res: Result<(usize, usize), ParseError>)
    requires
        pos <= input.len(),
    ensures
        model_of(res) == leb128_usize_at(input@, pos as int),
        ends_within(res, input.len()),
{
    let tail = vstd::slice::slice_subrange(input, pos, input.len());
    proof {
        lemma_leb128_rebase(input@, pos as int, 0, usize_leb_len());
        lemma_leb128_ends(tail@, 0, 0, usize_leb_len());
        lemma_leb128_ends(input@, pos as int, 0, usize_leb_len());
    }
    match leb128_usize_prefix(tail) {
        Ok((rest, v)) => {
            Ok((pos + (tail.len() - rest.len()), v))
        },
        Err(Leb128Stop::Incomplete) => Err(ParseError::Incomplete),
        Err(Leb128Stop::TooLarge) => Err(ParseError::Error { offset: pos, kind: ParseErrorKind::TooLarge }),
    }
}

// -------------------------------------------------------------------- lists
/// A read result with `pre` put before the items it read.
pub open spec fn prepend<T>(pre: Seq<T>, r: PResult<Seq<T>>) -> PResult<Seq<T>> {
    match r {
        Ok((q, xs)) => Ok((q, pre + xs)),
        Err(e) => Err(e),
    }
}

/// `k` items read one after another from `p` on, each by `item`; the first
/// error ends the list.
pub open spec fn many<T>(
    s: Seq<u8>,
    p: int,
    k: nat,
    item: spec_fn(Seq<u8>, int) -> PResult<T>,
) -> PResult<Seq<T>>
    decreases k,
{
    if k == 0 {
        Ok((p, Seq::empty()))
    } else {
        match item(s, p) {
            Ok((q, x)) => prepend(seq![x], many(s, q, (k - 1) as nat, item)),
            Err(e) => Err(e),
        }
    }
}

/// A counted list: an LEB128 `usize` count, then that many items.
pub open spec fn list_at<T>(s: Seq<u8>, p: int, item: spec_fn(Seq<u8>, int) -> PResult<T>) -> PResult<
    Seq<T>,
> {
    match leb128_usize_at(s, p) {
        Ok((q, n)) => many(s, q, n as nat, item),
        Err(e) => Err(e),
    }
}

proof fn lemma_prepend_twice<T>(a: Seq<T>, b: Seq<T>, r: PResult<Seq<T>>)
    ensures
        prepend(a, prepend(b, r)) == prepend(a + b, r),
{
    if let Ok((q, xs)) = r {
        assert(a + (b + xs) =~= (a + b) + xs);
    }
}

/// A reader of one kind of list item.
pub trait ItemReader {
    type Item: DeepView;

    /// The item read at `p`, in the model.
    spec fn item_at(&self, s: Seq<u8>, p: int) -> PResult<<Self::Item as DeepView>::V>;

    fn read_item(&self, input: &[u8], pos: usize) -> (res: Result<(usize, Self::Item), ParseError>)
        requires
            pos <= input.len(),
        ensures
            model_of(res) == self.item_at(input@, pos as int),
            ends_within(res, input.len()),
    ;
}

/// The item reader of `r` as a spec function.
pub open spec fn item_fn<R: ItemReader>(r: R) -> spec_fn(Seq<u8>, int) -> PResult<
    <R::Item as DeepView>::V,
> {
    |s: Seq<u8>, p: int| r.item_at(s, p)
}

/// Reads `n` items with `r`, from `pos` on.
pub fn read_many<R: ItemReader>(r: &R, input: &[u8], pos: usize, n: usize) -> (res: Result<
    (usize, Vec<R::Item>),
    ParseError,
>)
    requires
        pos <= input.len(),
    ensures
        model_of(res) == many(input@, pos as int, n as nat, item_fn(*r)),
        ends_within(res, input.len()),
{
    let ghost s = input@;
    let ghost f = item_fn(*r);
    let mut items: Vec<R::Item> = Vec::new();
    let mut cur = pos;
    let mut i: usize = 0;
    while i < n
        invariant
            s == input@,
            f == item_fn(*r),
            i <= n,
            cur <= input.len(),
            prepend(items.deep_view(), many(s, cur as int, (n - i) as nat, f)) == many(
                s,
                pos as int,
                n as nat,
                f,
            ),
        decreases n - i,
    {
        let ghost before = items.deep_view();
        match r.read_item(input, cur) {
            Ok((q, x)) => {
                proof {
                    assert(f(s, cur as int) == r.item_at(s, cur as int));
                    lemma_prepend_twice(before, seq![x.deep_view()], many(s, q as int, (n - i - 1) as nat, f));
                }
                items.push(x);
                proof {
                    assert(items.deep_view() =~= before + seq![x.deep_view()]);
                }
                cur = q;
                i = i + 1;
            },
            Err(e) => {
                proof {
                    assert(f(s, cur as int) == r.item_at(s, cur as int));
                }
                return Err(e);
            },
        }
    }
    proof {
        assert(items.deep_view() + Seq::empty() =~= items.deep_view());
    }
    Ok((cur, items))
}

/// Reads a counted list of items with `r`, from `pos` on.
pub fn read_list<R: ItemReader>(r: &R, input: &[u8], pos: usize) -> (res: Result<
    (usize, Vec<R::Item>),
    ParseError,
>)
    requires
        pos <= input.len(),
    ensures
        model_of(res) == list_at(input@, pos as int, item_fn(*r)),
        ends_within(res, input.len()),
{
    match read_leb128_usize(input, pos) {
        Ok((q, n)) => read_many(r, input, q, n),
        Err(e) => Err(e),
    }
}

/// Reads LEB128 `usize` items.
pub struct UsizeItems;

impl ItemReader for UsizeItems {
    type Item = usize;

    open spec fn item_at(&self, s: Seq<u8>, p: int) -> PResult<usize> {
        leb128_usize_at(s, p)
    }

    fn read_item(&self, input: &[u8], pos: usize) -> (res: Result<(usize, usize), ParseError>) {
        read_leb128_usize(input, pos)
    }
}

/// Reads byte strings: an LEB128 `usize` length, then that many bytes.
pub struct StringItems;

/// A byte string at `p`.
pub open spec fn string_at(s: Seq<u8>, p: int) -> PResult<Seq<u8>> {
    match leb128_usize_at(s, p) {
        Ok((q, n)) => bytes_at(s, q, n as int),
        Err(e) => Err(e),
    }
}

impl ItemReader for StringItems {
    type Item = Vec<u8>;

    open spec fn item_at(&self, s: Seq<u8>, p: int) -> PResult<Seq<u8>> {
        string_at(s, p)
    }

    fn read_item(&self, input: &[u8], pos: usize) -> (res: Result<(usize, Vec<u8>), ParseError>) {
        match read_leb128_usize(input, pos) {
            Ok((q, n)) => read_bytes(input, q, n),
            Err(e) => Err(e),
        }
    }
}

// ------------------------------------------------------ reading past the end
/// A read that succeeds on `s1` reads the same from `s1 + s2`: readers never
/// look past what they consume.
pub open spec fn prefix_stable<T>(r1: PResult<T>, r2: PResult<T>) -> bool {
    r1 is Ok ==> r2 == r1
}

/// `item` reads the same from `s1 + s2` wherever it succeeds on `s1`.
pub open spec fn item_prefix_stable<T>(
    item: spec_fn(Seq<u8>, int) -> PResult<T>,
    s1: Seq<u8>,
    s2: Seq<u8>,
) -> bool {
    forall|q: int| #[trigger] prefix_stable(item(s1, q), item(s1 + s2, q))
}

pub proof fn lemma_fixed_prefix(s1: Seq<u8>, s2: Seq<u8>, p: int, n: int)
    requires
        0 <= n,
    ensures
        prefix_stable(byte_at(s1, p), byte_at(s1 + s2, p)),
        prefix_stable(u32_at(s1, p), u32_at(s1 + s2, p)),
        prefix_stable(i32_at(s1, p), i32_at(s1 + s2, p)),
        prefix_stable(u64_at(s1, p), u64_at(s1 + s2, p)),
        prefix_stable(bytes_at(s1, p, n), bytes_at(s1 + s2, p, n)),
{
    let s = s1 + s2;
    if 0 <= p && p + 8 <= s1.len() {
        assert(s[p + 4] == s1[p + 4] && s[p + 5] == s1[p + 5] && s[p + 6] == s1[p + 6] && s[p + 7]
            == s1[p + 7]);
    }
    if 0 <= p && p + 4 <= s1.len() {
        assert(s[p] == s1[p] && s[p + 1] == s1[p + 1] && s[p + 2] == s1[p + 2] && s[p + 3]
            == s1[p + 3]);
    }
    if 0 <= p && p + n <= s1.len() {
        assert(s.subrange(p, p + n) =~= s1.subrange(p, p + n));
    }
}

proof fn lemma_leb128_from_prefix(s1: Seq<u8>, s2: Seq<u8>, p: int, i: nat, max: nat)
    ensures
        prefix_stable(leb128_from(s1, p, i, max), leb128_from(s1 + s2, p, i, max)),
    decreases max - i,
{
    if i < max && 0 <= p + i < s1.len() {
        assert((s1 + s2)[p + i] == s1[p + i]);
        if s1[p + i] >= 128 && i + 1 < max {
            lemma_leb128_from_prefix(s1, s2, p, i + 1, max);
        }
    }
}

pub proof fn lemma_leb128_prefix(s1: Seq<u8>, s2: Seq<u8>, p: int)
    ensures
        prefix_stable(leb128_u64_at(s1, p), leb128_u64_at(s1 + s2, p)),
        prefix_stable(leb128_usize_at(s1, p), leb128_usize_at(s1 + s2, p)),
        prefix_stable(string_at(s1, p), string_at(s1 + s2, p)),
{
    lemma_leb128_from_prefix(s1, s2, p, 0, 10);
    lemma_leb128_from_prefix(s1, s2, p, 0, usize_leb_len());
    if let Ok((q, n)) = leb128_usize_at(s1, p) {
        lemma_fixed_prefix(s1, s2, q, n as int);
    }
}

pub proof fn lemma_many_prefix<T>(
    s1: Seq<u8>,
    s2: Seq<u8>,
    p: int,
    k: nat,
    item: spec_fn(Seq<u8>, int) -> PResult<T>,
)
    requires
        item_prefix_stable(item, s1, s2),
    ensures
        prefix_stable(many(s1, p, k, item), many(s1 + s2, p, k, item)),
    decreases k,
{
    if k > 0 {
        assert(prefix_stable(item(s1, p), item(s1 + s2, p)));
        if let Ok((q, _)) = item(s1, p) {
            lemma_many_prefix(s1, s2, q, (k - 1) as nat, item);
        }
    }
}

pub proof fn lemma_list_prefix<T>(
    s1: Seq<u8>,
    s2: Seq<u8>,
    p: int,
    item: spec_fn(Seq<u8>, int) -> PResult<T>,
)
    requires
        item_prefix_stable(item, s1, s2),
    ensures
        prefix_stable(list_at(s1, p, item), list_at(s1 + s2, p, item)),
{
    lemma_leb128_prefix(s1, s2, p);
    if let Ok((q, n)) = leb128_usize_at(s1, p) {
        lemma_many_prefix(s1, s2, q, n as nat, item);
    }
}

pub proof fn lemma_usize_items_prefix(s1: Seq<u8>, s2: Seq<u8>)
    ensures
        item_prefix_stable(item_fn(UsizeItems), s1, s2),
        item_prefix_stable(item_fn(StringItems), s1, s2),
{
    assert forall|q: int|
        #[trigger] prefix_stable(item_fn(UsizeItems)(s1, q), item_fn(UsizeItems)(s1 + s2, q)) by {
        lemma_leb128_prefix(s1, s2, q);
    }
    assert forall|q: int|
        #[trigger] prefix_stable(item_fn(StringItems)(s1, q), item_fn(StringItems)(s1 + s2, q)) by {
        lemma_leb128_prefix(s1, s2, q);
    }
}

} // verus!
