//! The errors that the codecs and their channel report.

use vstd::prelude::*;
use vstd::string::StringExecFns;

verus! {

/// What went wrong while encoding or decoding.
#[derive(Clone, Copy, Debug, PartialEq, Eq, Hash, Structural)]
pub enum ProtocolErrorKind {
    /// Misuse by the caller, such as a field without an id.
    Unknown,
    /// An unknown type tag, a string that is not UTF-8, a malformed byte.
    InvalidData,
    /// A length or a count below zero.
    NegativeSize,
    /// A length or a count above a configured limit.
    SizeLimit,
    /// A message header with the wrong protocol id or version.
    BadVersion,
    /// Structs nested deeper than the configured limit.
    DepthLimit,
}

/// An error of the wire format, with a human-readable explanation.
#[derive(Clone, Debug, PartialEq, Eq)]
pub struct ProtocolError {
    pub kind: ProtocolErrorKind,
    pub message: String,
}

impl ProtocolError {
    pub fn new(kind: ProtocolErrorKind, message: String) -> (r: ProtocolError)
        ensures
            r.kind == kind,
            r.message@ == message@,
    {
        ProtocolError { kind, message }
    }
}

/// What went wrong in the byte channel under a codec.
#[derive(Clone, Copy, Debug, PartialEq, Eq, Hash, Structural)]
pub enum TransportErrorKind {
    /// Fewer bytes were left than a read asked for.
    EndOfFile,
}

/// An error of the byte channel, with a human-readable explanation.
#[derive(Clone, Debug, PartialEq, Eq)]
pub struct TransportError {
    pub kind: TransportErrorKind,
    pub message: String,
}

/// Any error that a codec operation returns.
#[derive(Clone, Debug, PartialEq, Eq)]
pub enum Error {
    Transport(TransportError),
    Protocol(ProtocolError),
}

/// The result of every codec operation.
pub type Result<T> = core::result::Result<T, Error>;

/// Whether `e` is a wire-format error of kind `k`.
pub open spec fn is_protocol_error(e: Error, k: ProtocolErrorKind) -> bool {
    e matches Error::Protocol(p) && p.kind == k
}

/// Whether `r` failed with a wire-format error of kind `k`.
pub open spec fn fails_with<T>(r: Result<T>, k: ProtocolErrorKind) -> bool {
    r matches Err(e) && is_protocol_error(e, k)
}

/// Whether `r` failed because the channel ran out of bytes.
pub open spec fn fails_at_end<T>(r: Result<T>) -> bool {
    r matches Err(e) && is_end_of_file(e)
}

/// Whether `e` says that the channel ran out of bytes.
pub open spec fn is_end_of_file(e: Error) -> bool {
    e matches Error::Transport(t) && t.kind == TransportErrorKind::EndOfFile
}

pub(crate) fn protocol_error(kind: ProtocolErrorKind, message: &str) -> (r: Error)
    ensures
        is_protocol_error(r, kind),
{
    Error::Protocol(ProtocolError { kind, message: String::from_str(message) })
}

pub(crate) fn end_of_file() -> (r: Error)
    ensures
        is_end_of_file(r),
{
    Error::Transport(
        TransportError {
            kind: TransportErrorKind::EndOfFile,
            message: String::from_str("not enough bytes left to read"),
        },
    )
}

/// The character of a decimal digit.
pub open spec fn digit_char(d: nat) -> char {
    if d == 0 {
        '0'
    } else if d == 1 {
        '1'
    } else if d == 2 {
        '2'
    } else if d == 3 {
        '3'
    } else if d == 4 {
        '4'
    } else if d == 5 {
        '5'
    } else if d == 6 {
        '6'
    } else if d == 7 {
        '7'
    } else if d == 8 {
        '8'
    } else {
        '9'
    }
}

/// The decimal digits of `n`, most significant first, without leading zeros.
pub open spec fn decimal(n: nat) -> Seq<char>
    decreases n,
{
    if n < 10 {
        seq![digit_char(n)]
    } else {
        decimal(n / 10).push(digit_char(n % 10))
    }
}

/// `a`, the decimal digits of `n1`, `b`, the decimal digits of `n2`.
pub open spec fn two_numbers(a: Seq<char>, n1: nat, b: Seq<char>, n2: nat) -> Seq<char> {
    a + decimal(n1) + b + decimal(n2)
}

/// The text of the error for a container count above the container cap.
pub open spec fn container_size_message(count: nat, cap: nat) -> Seq<char> {
    two_numbers("Container size "@, count, " exceeds maximum allowed size of "@, cap)
}

/// The text of the error for a container whose least size passes the
/// message budget.
pub open spec fn message_budget_message(bytes: nat, budget: nat) -> Seq<char> {
    two_numbers(
        "Container would require "@,
        bytes,
        " bytes, exceeding message size limit of "@,
        budget,
    )
}

/// The text of the error for a byte string longer than the string cap.
pub open spec fn byte_array_message(len: nat, cap: nat) -> Seq<char> {
    two_numbers("Byte array size "@, len, " exceeds maximum allowed size of "@, cap)
}

/// Whether `r` failed with a wire-format error of kind `k` whose text is `m`.
pub open spec fn fails_with_message<T>(r: Result<T>, k: ProtocolErrorKind, m: Seq<char>) -> bool {
    r matches Err(e) && e matches Error::Protocol(p) && p.kind == k && p.message@ == m
}

fn digit_str(d: u128) -> (r: &'static str)
    requires
        d < 10,
    ensures
        r@ == seq![digit_char(d as nat)],
{
    proof {
        reveal_strlit("0");
        reveal_strlit("1");
        reveal_strlit("2");
        reveal_strlit("3");
        reveal_strlit("4");
        reveal_strlit("5");
        reveal_strlit("6");
        reveal_strlit("7");
        reveal_strlit("8");
        reveal_strlit("9");
    }
    if d == 0 {
        "0"
    } else if d == 1 {
        "1"
    } else if d == 2 {
        "2"
    } else if d == 3 {
        "3"
    } else if d == 4 {
        "4"
    } else if d == 5 {
        "5"
    } else if d == 6 {
        "6"
    } else if d == 7 {
        "7"
    } else if d == 8 {
        "8"
    } else {
        "9"
    }
}

/// Appends the decimal digits of `n` to `m`.
fn append_decimal(m: &mut String, n: u128)
    ensures
        final(m)@ == old(m)@ + decimal(n as nat),
    decreases n,
{
    if n >= 10 {
        append_decimal(m, n / 10);
    }
    let d = digit_str(n % 10);
    m.append(d);
    assert(final(m)@ =~= old(m)@ + decimal(n as nat)) by {
        if n >= 10 {
            assert(decimal(n as nat) == decimal((n / 10) as nat).push(digit_char((n % 10) as nat)));
        }
    }
}

/// `head`, then the decimal digits of `n`, then `tail`.
pub(crate) fn message_with_number(head: &str, n: u128, tail: &str) -> (r: String)
    ensures
        r@ == head@ + decimal(n as nat) + tail@,
{
    let mut m = String::from_str(head);
    append_decimal(&mut m, n);
    m.append(tail);
    m
}

/// `a`, the decimal digits of `n1`, `b`, the decimal digits of `n2`.
pub(crate) fn message_with_two_numbers(a: &str, n1: u128, b: &str, n2: u128) -> (r: String)
    ensures
        r@ == two_numbers(a@, n1 as nat, b@, n2 as nat),
{
    let mut m = String::from_str(a);
    append_decimal(&mut m, n1);
    m.append(b);
    append_decimal(&mut m, n2);
    m
}

} // verus!
