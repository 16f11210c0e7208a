//! The decisions of the decompilation server: byte counts as text, settings,
//! request admission and the accounting of a request body as it arrives.
use crate::text::{decimal, digit_char, digit_str, push_decimal};
use vstd::arithmetic::div_mod::lemma_div_denominator;
use vstd::prelude::*;

verus! {

pub const MIB: usize = 1024 * 1024;
pub const DEFAULT_MAX_BODY_MIB: usize = 64;
pub const DEFAULT_WARN_MIB: usize = 8;
pub const DEFAULT_PORT: u16 = 9002;
pub const RECEIVE_PROGRESS_BYTES: usize = 8 * MIB;
pub const ROBLOX_ENCODE_KEY: u8 = 203;

// ------------------------------------------------------------ byte counts
/// `2^n`.
pub open spec fn two_pow(n: nat) -> nat
    decreases n,
{
    if n == 0 {
        1
    } else {
        2 * two_pow((n - 1) as nat)
    }
}

/// `n / d` rounded to the nearest integer, ties to even.
pub open spec fn rounded_div(n: nat, d: nat) -> nat {
    let q = n / d;
    let r = n % d;
    if 2 * r > d || (2 * r == d && q % 2 == 1) {
        q + 1
    } else {
        q
    }
}

/// How many low bits of `b` fall outside the 53-bit significand of an `f64`.
pub open spec fn excess_bits(b: nat) -> nat
    decreases b,
{
    if b < 0x20_0000_0000_0000 {
        0
    } else {
        1 + excess_bits(b / 2)
    }
}

/// The value of `b as f64`: `b` rounded to a multiple of `2^excess_bits(b)`,
/// to nearest, ties to even.
pub open spec fn f64_nearest(b: nat) -> nat {
    rounded_div(b, two_pow(excess_bits(b))) * two_pow(excess_bits(b))
}

/// A count of hundredths as text with two decimals: `{:.2}`.
pub open spec fn hundredths_text(h: nat) -> Seq<char> {
    decimal(h / 100) + "."@ + seq![digit_char(h / 10 % 10), digit_char(h % 10)]
}

/// A byte count as the server shows it: whole bytes below 1 KiB, otherwise
/// KiB or MiB with two decimals (the value as an `f64`, rounded to nearest,
/// ties to even).
pub open spec fn bytes_text(bytes: nat) -> Seq<char> {
    if bytes >= MIB {
        hundredths_text(rounded_div(f64_nearest(bytes) * 100, MIB as nat)) + " MiB"@
    } else if bytes >= 1024 {
        hundredths_text(rounded_div(bytes * 100, 1024)) + " KiB"@
    } else {
        decimal(bytes) + " B"@
    }
}

/// A size limit as text: 0 means no limit.
pub open spec fn limit_text(bytes: nat) -> Seq<char> {
    if bytes == 0 {
        "unlimited"@
    } else {
        bytes_text(bytes)
    }
}

/// `rounded_div`, computed.
fn round_div(n: u128, d: u128) -> (res: u128)
    requires
        d > 0,
        n < u128::MAX,
    ensures
        res == rounded_div(n as nat, d as nat),
{
    let q = n / d;
    let r = n % d;
    proof {
        assert(q * d <= n) by (nonlinear_arith)
            requires
                q == n / d,
                d > 0,
        ;
        assert(q < u128::MAX) by (nonlinear_arith)
            requires
                q == n / d,
                d > 0,
                n < u128::MAX,
        ;
    }
    if r > d - r || (r == d - r && q % 2 == 1) {
        q + 1
    } else {
        q
    }
}

/// The value of `b as f64`, exactly.
fn nearest_f64_value(b: usize) -> (res: u128)
    ensures
        res == f64_nearest(b as nat),
        res <= 0x20_0000_0000_0001 * 0x1_0000_0000_0000_0000,
{
    let mut t: u128 = b as u128;
    let mut unit: u128 = 1;
    let ghost mut s: nat = 0;
    while t >= 0x20_0000_0000_0000
        invariant
            unit == two_pow(s),
            t == (b as nat) / (unit as nat),
            unit * t <= b,
            1 <= unit <= b || unit == 1,
            excess_bits(b as nat) == s + excess_bits(t as nat),
        decreases t,
    {
        proof {
            lemma_div_denominator(b as int, unit as int, 2);
            assert(unit * 2 * (t / 2) <= unit * t) by (nonlinear_arith)
                requires
                    unit >= 1,
            ;
            assert(unit <= unit * t) by (nonlinear_arith)
                requires
                    unit >= 1,
                    t >= 1,
            ;
            assert(unit * 2 <= unit * t) by (nonlinear_arith)
                requires
                    unit >= 1,
                    t >= 2,
            ;
        }
        t = t / 2;
        unit = unit * 2;
        proof {
            s = s + 1;
        }
    }
    proof {
        assert(b as nat / (unit as nat) <= 0x20_0000_0000_0000);
    }
    let m = round_div(b as u128, unit);
    proof {
        assert(m <= t + 1);
        assert(m * unit <= (t + 1) * unit) by (nonlinear_arith)
            requires
                m <= t + 1,
                unit >= 1,
        ;
        assert((t + 1) * unit <= 0x20_0000_0000_0001 * 0x1_0000_0000_0000_0000) by (nonlinear_arith)
            requires
                t + 1 <= 0x20_0000_0000_0000,
                unit <= 0x1_0000_0000_0000_0000,
        ;
    }
    m * unit
}

/// Appends hundredths with two decimals.
fn push_hundredths(out: &mut String, h: u128)
    ensures
        final(out)@ == old(out)@ + hundredths_text(h as nat),
{
    push_decimal(out, h / 100);
    out.append(".");
    out.append(digit_str(h / 10 % 10));
    out.append(digit_str(h % 10));
    proof {
        reveal_strlit(".");
        assert(out@ =~= old(out)@ + hundredths_text(h as nat));
    }
}

/// A byte count as text: `"12 B"`, `"1.50 KiB"`, `"2.00 MiB"`.
pub fn format_bytes(bytes: usize) -> (res: String)
    ensures
        res@ == bytes_text(bytes as nat),
{
    let mut text = String::new();
    if bytes >= MIB {
        let v = nearest_f64_value(bytes);
        push_hundredths(&mut text, round_div(v * 100, MIB as u128));
        text.append(" MiB");
        proof {
            reveal_strlit(" MiB");
        }
    } else if bytes >= 1024 {
        push_hundredths(&mut text, round_div(bytes as u128 * 100, 1024));
        text.append(" KiB");
        proof {
            reveal_strlit(" KiB");
        }
    } else {
        push_decimal(&mut text, bytes as u128);
        text.append(" B");
        proof {
            reveal_strlit(" B");
        }
    }
    proof {
        assert(text@ =~= bytes_text(bytes as nat));
    }
    text
}

/// A size limit as text: `"unlimited"` for 0.
pub fn format_limit(bytes: usize) -> (res: String)
    ensures
        res@ == limit_text(bytes as nat),
{
    if bytes == 0 {
        String::from_str("unlimited")
    } else {
        format_bytes(bytes)
    }
}

// ----------------------------------------------------------- panic payloads
/// The text of a panic payload, from what it held: a `String`, a `&str`, or
/// neither.
pub open spec fn payload_text(as_string: Option<Seq<char>>, as_str: Option<Seq<char>>) -> Seq<char> {
    match as_string {
        Some(s) => s,
        None => match as_str {
            Some(s) => s,
            None => "unknown panic payload"@,
        },
    }
}

/// The message of a caught panic, from what its payload held: the `String`
/// if it was one, else the `&str` if it was one, else `"unknown panic
/// payload"`. (The payload is a `Box<dyn Any + Send>`, which the caller looks
/// into with `downcast_ref`.)
pub fn panic_message(as_string: Option<String>, as_str: Option<&str>) -> (res: String)
    ensures
        res@ == payload_text(
            match as_string {
                Some(s) => Some(s@),
                None => None,
            },
            match as_str {
                Some(s) => Some(s@),
                None => None,
            },
        ),
{
    match as_string {
        Some(message) => message,
        None => match as_str {
            Some(message) => message.to_owned(),
            None => String::from_str("unknown panic payload"),
        },
    }
}

// -------------------------------------------------------------- body decoding
/// Why `base64::decode` refused its input, as its `DecodeError` says.
#[derive(Debug, Clone, Copy, PartialEq, Eq, Structural)]
pub enum Base64Error {
    /// A byte outside the alphabet, at `offset`.
    InvalidByte { offset: usize, byte: u8 },
    /// The input length leaves a 6-bit remainder.
    InvalidLength,
    /// The last symbol, at `offset`, has bits that decoding would discard.
    InvalidLastSymbol { offset: usize, byte: u8 },
}

/// What `base64::decode` (standard alphabet) makes of the input: the
/// decoded bytes, or the error it reports.
pub uninterp spec fn base64_decoded(encoded: Seq<u8>) -> Result<Seq<u8>, Base64Error>;

/// `base64::decode` (the `STANDARD` configuration), its `DecodeError` moved
/// into `Base64Error` variant by variant. It depends on the input alone; its
/// result is named, not described. It panics when the input length plus 3
/// overflows, which `requires` rules out.
#[verifier::external_body]
fn base64_decode(encoded: &[u8]) -> (res: Result<Vec<u8>, Base64Error>)
    requires
        encoded@.len() + 3 <= usize::MAX,
    ensures
        match res {
            Ok(bytes) => base64_decoded(encoded@) == Ok::<Seq<u8>, Base64Error>(bytes@),
            Err(e) => base64_decoded(encoded@) == Err::<Seq<u8>, Base64Error>(e),
        },
{
    match base64::decode(encoded) {
        Ok(bytes) => Ok(bytes),
        Err(base64::DecodeError::InvalidByte(offset, byte)) => Err(Base64Error::InvalidByte { offset, byte }),
        Err(base64::DecodeError::InvalidLength) => Err(Base64Error::InvalidLength),
        Err(base64::DecodeError::InvalidLastSymbol(offset, byte)) => Err(Base64Error::InvalidLastSymbol { offset, byte }),
    }
}

/// The text of a Base64 error, as `DecodeError`'s `Display` writes it.
pub open spec fn base64_error_text(e: Base64Error) -> Seq<char> {
    match e {
        Base64Error::InvalidByte { offset, byte } => "Invalid byte "@ + decimal(byte as nat)
            + ", offset "@ + decimal(offset as nat) + "."@,
        Base64Error::InvalidLength => "Encoded text cannot have a 6-bit remainder."@,
        Base64Error::InvalidLastSymbol { offset, byte } => "Invalid last symbol "@ + decimal(
            byte as nat,
        ) + ", offset "@ + decimal(offset as nat) + "."@,
    }
}

/// `to_string()` of the `base64::DecodeError` with the same variant and
/// fields; its `Display` (base64 0.13.1, decode.rs) writes the texts of
/// `base64_error_text`.
#[verifier::external_body]
fn base64_error_display(e: Base64Error) -> (res: String)
    ensures
        res@ == base64_error_text(e),
{
    match e {
        Base64Error::InvalidByte { offset, byte } => base64::DecodeError::InvalidByte(offset, byte),
        Base64Error::InvalidLength => base64::DecodeError::InvalidLength,
        Base64Error::InvalidLastSymbol { offset, byte } => base64::DecodeError::InvalidLastSymbol(offset, byte),
    }.to_string()
}

impl Base64Error {
    /// The error's text.
    pub fn message(&self) -> (res: String)
        ensures
            res@ == base64_error_text(*self),
    {
        base64_error_display(*self)
    }
}

/// Decodes a request body, which carries bytecode in Base64.
pub fn decode_request_body(encoded: &[u8]) -> (res: Result<Vec<u8>, Base64Error>)
    requires
        encoded@.len() + 3 <= usize::MAX,
    ensures
        match res {
            Ok(bytes) => base64_decoded(encoded@) == Ok::<Seq<u8>, Base64Error>(bytes@),
            Err(e) => base64_decoded(encoded@) == Err::<Seq<u8>, Base64Error>(e),
        },
{
    base64_decode(encoded)
}

// ----------------------------------------------------------------- settings
/// Whether a character is an ASCII decimal digit.
pub open spec fn is_decimal_digit(c: char) -> bool {
    48 <= c as u32 <= 57
}

/// The value of a run of decimal digits.
pub open spec fn digits_value(ds: Seq<char>) -> nat
    decreases ds.len(),
{
    if ds.len() == 0 {
        0
    } else {
        digits_value(ds.drop_last()) * 10 + (ds.last() as u32 - 48) as nat
    }
}

/// What `str::parse` gives for an unsigned integer type whose largest value
/// is `max`: an optional `+`, then one or more decimal digits, and nothing
/// else; a value above `max` is an error.
pub open spec fn parsed_unsigned(s: Seq<char>, max: nat) -> Option<nat> {
    let ds = if s.len() > 0 && s[0] == '+' {
        s.drop_first()
    } else {
        s
    };
    if ds.len() > 0 && (forall|i: int| 0 <= i < ds.len() ==> is_decimal_digit(#[trigger] ds[i]))
        && digits_value(ds) <= max {
        Some(digits_value(ds))
    } else {
        None
    }
}

/// `str::parse::<usize>`, the error dropped. Its documentation: an optional
/// `+` sign followed by only digits; anything else, or a value out of range,
/// is an error.
#[verifier::external_body]
fn parse_usize(text: &str) -> (res: Option<usize>)
    ensures
        match parsed_unsigned(text@, usize::MAX as nat) {
            Some(v) => res == Some(v as usize),
            None => res is None,
        },
{
    text.parse::<usize>().ok()
}

/// `str::parse::<u16>`, the error dropped; as `parse_usize`, for `u16`.
#[verifier::external_body]
fn parse_u16(text: &str) -> (res: Option<u16>)
    ensures
        match parsed_unsigned(text@, u16::MAX as nat) {
            Some(v) => res == Some(v as u16),
            None => res is None,
        },
{
    text.parse::<u16>().ok()
}

/// `mib` mebibytes in bytes, saturating at `usize::MAX`.
pub open spec fn mib_in_bytes(mib: nat) -> usize {
    if mib * MIB > usize::MAX {
        usize::MAX
    } else {
        (mib * MIB) as usize
    }
}

/// Whether a size setting's text is absent or invalid, so that the default
/// applies.
pub open spec fn uses_default(value: Option<Seq<char>>) -> bool {
    match value {
        None => true,
        Some(text) => parsed_unsigned(text, usize::MAX as nat) is None,
    }
}

/// A size setting given in MiB: its value in bytes (saturating), and whether
/// a given value was ignored as invalid. An absent or invalid value gives
/// the default, which is computed only then (and must then fit).
pub fn mib_setting(value: Option<&str>, default_mib: usize) -> (res: (usize, bool))
    requires
        uses_default(
            match value {
                Some(text) => Some(text@),
                None => None,
            },
        ) ==> default_mib * MIB <= usize::MAX,
    ensures
        res == (match value {
            None => ((default_mib * MIB) as usize, false),
            Some(text) => match parsed_unsigned(text@, usize::MAX as nat) {
                Some(mib) => (mib_in_bytes(mib), false),
                None => ((default_mib * MIB) as usize, true),
            },
        }),
{
    match value {
        Some(text) => match parse_usize(text) {
            Some(mib) => match mib.checked_mul(MIB) {
                Some(bytes) => (bytes, false),
                None => (usize::MAX, false),
            },
            None => (default_mib * MIB, true),
        },
        None => (default_mib * MIB, false),
    }
}

/// The port to listen on for a setting's text (if given), and whether that
/// text was ignored as invalid: a port number other than 0, else
/// `DEFAULT_PORT`.
pub open spec fn port_choice(text: Option<Seq<char>>) -> (u16, bool) {
    match text {
        None => (DEFAULT_PORT, false),
        Some(t) => match parsed_unsigned(t, u16::MAX as nat) {
            Some(port) => if port != 0 {
                (port as u16, false)
            } else {
                (DEFAULT_PORT, true)
            },
            None => (DEFAULT_PORT, true),
        },
    }
}

/// The port setting: a given value if it is a port number other than 0,
/// else `DEFAULT_PORT`; and whether a given value was ignored as invalid.
pub fn port_setting(value: Option<&str>) -> (res: (u16, bool))
    ensures
        res == port_choice(
            match value {
                Some(text) => Some(text@),
                None => None,
            },
        ),
{
    match value {
        Some(text) => match parse_u16(text) {
            Some(port) => if port != 0 {
                (port, false)
            } else {
                (DEFAULT_PORT, true)
            },
            None => (DEFAULT_PORT, true),
        },
        None => (DEFAULT_PORT, false),
    }
}

// ------------------------------------------------------------ request bodies
/// Whether a request must be refused before its body is read: a limit is set
/// and the announced length exceeds it.
pub fn announced_length_exceeds(max_body_bytes: usize, announced_length: Option<usize>) -> (res: bool)
    ensures
        res == (max_body_bytes != 0 && match announced_length {
            Some(length) => length > max_body_bytes,
            None => false,
        }),
{
    max_body_bytes != 0 && match announced_length {
        Some(length) => length > max_body_bytes,
        None => false,
    }
}

/// The next body size at which to report progress, after `received` bytes:
/// the next multiple of `RECEIVE_PROGRESS_BYTES` above it, saturating.
pub open spec fn next_progress_mark(received: nat) -> usize {
    let mark = (received / (RECEIVE_PROGRESS_BYTES as nat) + 1) * RECEIVE_PROGRESS_BYTES;
    if mark > usize::MAX {
        usize::MAX
    } else {
        mark as usize
    }
}

/// How much of a request body has arrived, and when to report progress next.
#[derive(Debug, Clone, Copy, PartialEq, Eq)]
pub struct ReceiveState {
    pub received: usize,
    pub next_progress: usize,
}

/// What to do with a chunk of a request body.
#[derive(Debug, Clone, Copy, PartialEq, Eq)]
pub enum ReceiveStep {
    /// Refuse the request: the chunk would take the body over the limit.
    TooLarge,
    /// Keep the chunk; report progress if asked.
    Accepted { report_progress: bool },
}

/// Whether a chunk of `chunk_len` bytes, after `received`, goes over a limit
/// (0 meaning none).
pub open spec fn chunk_exceeds(max_body_bytes: usize, received: usize, chunk_len: usize) -> bool {
    max_body_bytes != 0 && chunk_len > (if max_body_bytes >= received {
        max_body_bytes - received
    } else {
        0
    })
}

/// The state and step after a chunk of `chunk_len` bytes arrives under the
/// limit `max_body_bytes` (0 for none): a chunk over the limit is refused and
/// changes nothing; else it is counted, progress is due once the body reaches
/// the next mark, and a report moves the mark past the new size.
pub open spec fn after_chunk(state: ReceiveState, max_body_bytes: usize, chunk_len: usize) -> (
    ReceiveState,
    ReceiveStep,
) {
    if chunk_exceeds(max_body_bytes, state.received, chunk_len) {
        (state, ReceiveStep::TooLarge)
    } else {
        let received = state.received + chunk_len;
        let due = received >= state.next_progress;
        (
            ReceiveState {
                received: received as usize,
                next_progress: if due {
                    next_progress_mark(received as nat)
                } else {
                    state.next_progress
                },
            },
            ReceiveStep::Accepted { report_progress: due },
        )
    }
}

impl ReceiveState {
    /// The state before any of the body has arrived.
    pub fn new() -> (res: ReceiveState)
        ensures
            res == (ReceiveState { received: 0, next_progress: RECEIVE_PROGRESS_BYTES }),
    {
        ReceiveState { received: 0, next_progress: RECEIVE_PROGRESS_BYTES }
    }

    /// Takes in a chunk of `chunk_len` bytes under the limit `max_body_bytes`
    /// (0 for none): refuses it if it goes over the limit, else counts it and
    /// says whether progress is due, moving the next report past the new
    /// size.
    pub fn receive(&mut self, max_body_bytes: usize, chunk_len: usize) -> (step: ReceiveStep)
        requires
            max_body_bytes != 0 || old(self).received + chunk_len <= usize::MAX,
        ensures
            (*final(self), step) == after_chunk(*old(self), max_body_bytes, chunk_len),
    {
        let room = if max_body_bytes >= self.received {
            max_body_bytes - self.received
        } else {
            0
        };
        if max_body_bytes != 0 && chunk_len > room {
            return ReceiveStep::TooLarge;
        }
        self.received = self.received + chunk_len;
        let due = self.received >= self.next_progress;
        if due {
            proof {
                let r = self.received;
                assert(r / 8388608 < usize::MAX) by (nonlinear_arith)
                    requires
                        r <= usize::MAX,
                        usize::MAX >= 8388608,
                ;
            }
            let marks = self.received / RECEIVE_PROGRESS_BYTES + 1;
            self.next_progress = match marks.checked_mul(RECEIVE_PROGRESS_BYTES) {
                Some(mark) => mark,
                None => usize::MAX,
            };
        }
        ReceiveStep::Accepted { report_progress: due }
    }
}

// ---------------------------------------------------------------- responses
/// How a request ends. The texts are those of the errors and the panic
/// message involved, and the decompiler's output.
pub enum RequestOutcome {
    /// The announced length is over the limit.
    AnnouncedTooLarge,
    /// The body went over the limit while arriving.
    ReceivedTooLarge,
    /// Reading the body failed.
    BodyReadFailed(String),
    /// The body is not valid Base64.
    InvalidBase64(String),
    /// The worker that decodes Base64 failed.
    Base64WorkerFailed(String),
    /// The decompiler panicked.
    DecompilerPanicked(String),
    /// The worker that decompiles failed.
    DecompilerWorkerFailed(String),
    /// The decompiler answered.
    Decompiled(String),
}

/// The HTTP status of an outcome.
pub open spec fn outcome_status(outcome: RequestOutcome) -> u16 {
    match outcome {
        RequestOutcome::AnnouncedTooLarge => 413,
        RequestOutcome::ReceivedTooLarge => 413,
        RequestOutcome::BodyReadFailed(_) => 400,
        RequestOutcome::InvalidBase64(_) => 400,
        RequestOutcome::Base64WorkerFailed(_) => 500,
        RequestOutcome::DecompilerPanicked(_) => 500,
        RequestOutcome::DecompilerWorkerFailed(_) => 500,
        RequestOutcome::Decompiled(_) => 200,
    }
}

/// What follows `"request {id}"` in the response text of an outcome other
/// than `Decompiled`, under the body limit `max_body_bytes`.
pub open spec fn outcome_detail(max_body_bytes: usize, outcome: RequestOutcome) -> Seq<char> {
    match outcome {
        RequestOutcome::AnnouncedTooLarge => " rejected: encoded body exceeds the "@ + bytes_text(
            max_body_bytes as nat,
        ) + " limit"@,
        RequestOutcome::ReceivedTooLarge => " rejected while receiving data: encoded body exceeded the "@
            + bytes_text(max_body_bytes as nat) + " limit"@,
        RequestOutcome::BodyReadFailed(e) => ": failed while reading body: "@ + e@,
        RequestOutcome::InvalidBase64(e) => ": invalid Base64 bytecode: "@ + e@,
        RequestOutcome::Base64WorkerFailed(e) => ": Base64 worker failed: "@ + e@,
        RequestOutcome::DecompilerPanicked(p) => ": decompiler panicked: "@ + p@,
        RequestOutcome::DecompilerWorkerFailed(e) => ": decompiler worker failed: "@ + e@,
        RequestOutcome::Decompiled(output) => output@,
    }
}

/// The response text of an outcome of request `id` under the body limit
/// `max_body_bytes`: the decompiler's output, or `"request {id}"` and the
/// outcome's detail.
pub open spec fn outcome_text(id: u64, max_body_bytes: usize, outcome: RequestOutcome) -> Seq<char> {
    match outcome {
        RequestOutcome::Decompiled(output) => output@,
        _ => "request "@ + decimal(id as nat) + outcome_detail(max_body_bytes, outcome),
    }
}

/// The status and text of the response to request `id` that ended with
/// `outcome`.
pub fn outcome_response(id: u64, max_body_bytes: usize, outcome: RequestOutcome) -> (res: (u16, String))
    ensures
        res.0 == outcome_status(outcome),
        res.1@ == outcome_text(id, max_body_bytes, outcome),
{
    let ghost o = outcome;
    let mut text = String::from_str("request ");
    push_decimal(&mut text, id as u128);
    let ghost request = text@;
    proof {
        reveal_strlit("request ");
        assert(request =~= "request "@ + decimal(id as nat));
    }
    let status: u16 = match outcome {
        RequestOutcome::AnnouncedTooLarge => {
            text.append(" rejected: encoded body exceeds the ");
            text.append(format_bytes(max_body_bytes).as_str());
            text.append(" limit");
            413
        },
        RequestOutcome::ReceivedTooLarge => {
            text.append(" rejected while receiving data: encoded body exceeded the ");
            text.append(format_bytes(max_body_bytes).as_str());
            text.append(" limit");
            413
        },
        RequestOutcome::BodyReadFailed(e) => {
            text.append(": failed while reading body: ");
            text.append(e.as_str());
            400
        },
        RequestOutcome::InvalidBase64(e) => {
            text.append(": invalid Base64 bytecode: ");
            text.append(e.as_str());
            400
        },
        RequestOutcome::Base64WorkerFailed(e) => {
            text.append(": Base64 worker failed: ");
            text.append(e.as_str());
            500
        },
        RequestOutcome::DecompilerPanicked(p) => {
            text.append(": decompiler panicked: ");
            text.append(p.as_str());
            500
        },
        RequestOutcome::DecompilerWorkerFailed(e) => {
            text.append(": decompiler worker failed: ");
            text.append(e.as_str());
            500
        },
        RequestOutcome::Decompiled(output) => {
            return (200, output);
        },
    };
    proof {
        assert(text@ =~= outcome_text(id, max_body_bytes, o));
    }
    (status, text)
}

/// The settings of the server.
#[derive(Debug, Clone, Copy)]
pub struct ServerConfig {
    /// The largest request body accepted, in bytes; 0 for no limit.
    pub max_body_bytes: usize,
    /// The size from which inputs and outputs are logged as large; 0 for
    /// never.
    pub warn_bytes: usize,
}

/// The status and text of the response to request `id` that ended with
/// `outcome`, under the settings `config`.
pub open spec fn config_response(config: ServerConfig, id: u64, outcome: RequestOutcome) -> (u16, Seq<char>) {
    (outcome_status(outcome), outcome_text(id, config.max_body_bytes, outcome))
}

impl ServerConfig {
    /// The status and text of the response to request `id` that ended with
    /// `outcome`.
    pub fn response(&self, id: u64, outcome: RequestOutcome) -> (res: (u16, String))
        ensures
            (res.0, res.1@) == config_response(*self, id, outcome),
    {
        outcome_response(id, self.max_body_bytes, outcome)
    }
}

} // verus!
