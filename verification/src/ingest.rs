//! From one line of the feed to the payload that is worth decoding.
//!
//! A line carries an ASCII-hex payload between one opening character and a
//! closing character followed by the line terminator.

use rayon::iter::IntoParallelRefIterator;
use rayon::iter::ParallelIterator;
use vstd::prelude::*;

verus! {

/// Number of delimiter bytes in front of the hex text.
pub const LEADING_DELIMITERS: usize = 1;

/// Number of delimiter bytes behind the hex text.
pub const TRAILING_DELIMITERS: usize = 2;

/// `hex::FromHexError`: why `hex::decode` refused a text. Carried through unread.
#[verifier::external_type_specification]
#[verifier::external_body]
pub struct ExFromHexError(hex::FromHexError);

/// Whether `c` is an ASCII hex digit of either case.
pub open spec fn is_hex_digit(c: u8) -> bool {
    ||| 0x30 <= c <= 0x39
    ||| 0x41 <= c <= 0x46
    ||| 0x61 <= c <= 0x66
}

/// The value of the hex digit `c`.
pub open spec fn hex_value(c: u8) -> int {
    if 0x30 <= c <= 0x39 {
        c - 0x30
    } else if 0x41 <= c <= 0x46 {
        c - 0x41 + 10
    } else {
        c - 0x61 + 10
    }
}

/// Whether `text` is an even number of hex digits.
pub open spec fn is_hex_text(text: Seq<u8>) -> bool {
    &&& text.len() % 2 == 0
    &&& forall|i: int| 0 <= i < text.len() ==> is_hex_digit(#[trigger] text[i])
}

/// The bytes that the hex digits of `text` spell, two digits to a byte, the
/// high digit first.
pub open spec fn hex_bytes(text: Seq<u8>) -> Seq<u8> {
    Seq::new(
        text.len() / 2,
        |i: int| (hex_value(text[2 * i]) * 16 + hex_value(text[2 * i + 1])) as u8,
    )
}

/// Whether every byte of `bytes` is zero.
pub open spec fn all_zero(bytes: Seq<u8>) -> bool {
    forall|i: int| 0 <= i < bytes.len() ==> #[trigger] bytes[i] == 0
}

/// The hex text of `line`: what stands between its delimiters.
pub open spec fn framed_text(line: Seq<u8>) -> Option<Seq<u8>> {
    if line.len() >= LEADING_DELIMITERS + TRAILING_DELIMITERS {
        Some(line.subrange(LEADING_DELIMITERS as int, line.len() - TRAILING_DELIMITERS))
    } else {
        None
    }
}

/// The payload that `line` carries, if it is worth decoding: the line is
/// framed, its text is valid hex, and the bytes are not idle filler.
pub open spec fn payload(line: Seq<u8>) -> Option<Seq<u8>> {
    match framed_text(line) {
        Some(text) => if is_hex_text(text) && !all_zero(hex_bytes(text)) {
            Some(hex_bytes(text))
        } else {
            None
        },
        None => None,
    }
}

/// `hex::decode` on a byte slice. It succeeds exactly on an even number of
/// hex digits of either case, and then returns the bytes they spell.
#[verifier::external_body]
fn decode_hex(text: &[u8]) -> (r: Result<Vec<u8>, hex::FromHexError>)
    ensures
        match r {
            Ok(bytes) => is_hex_text(text@) && bytes@ == hex_bytes(text@),
            Err(_) => !is_hex_text(text@),
        },
{
    hex::decode(text)
}

/// Whether `byte` is zero.
pub fn is_zero(byte: &u8) -> (r: bool)
    ensures
        r == (*byte == 0),
{
    *byte == 0
}

/// rayon's `ParallelIterator::all` over the bytes, with `is_zero` as the
/// predicate: true exactly when every byte satisfies it.
#[verifier::external_body]
fn every_byte_zero(bytes: &[u8]) -> (r: bool)
    ensures
        r == all_zero(bytes@),
{
    bytes.par_iter().all(|byte| is_zero(byte))
}

/// The payload of one line of the feed, or nothing where the line is to be
/// skipped: it is too short to be framed, its text is not valid hex, or its
/// bytes are all zero.
pub fn payload_of_line(line: &[u8]) -> (r: Option<Vec<u8>>)
    ensures
        match r {
            Some(bytes) => payload(line@) == Some(bytes@),
            None => payload(line@) is None,
        },
{
    if line.len() < LEADING_DELIMITERS + TRAILING_DELIMITERS {
        return None;
    }
    let text = &line[LEADING_DELIMITERS..line.len() - TRAILING_DELIMITERS];
    match decode_hex(text) {
        Ok(bytes) => {
            if every_byte_zero(bytes.as_slice()) {
                None
            } else {
                Some(bytes)
            }
        },
        Err(_) => None,
    }
}

/// What one bounded read of a line from the feed came to.
#[derive(Debug, PartialEq, Eq)]
pub enum LineOutcome {
    /// The read delivered no byte: the other side closed the connection.
    Closed,
    /// Nothing to decode: the read timed out or failed, or the line is to be
    /// skipped.
    Skipped,
    /// The payload of the line, to be decoded.
    Payload(Vec<u8>),
}

/// Whether `outcome` is the judgement of a read that delivered `length`
/// bytes (none if it timed out or failed) into `line`: closed exactly when
/// no byte came, else the payload of the line if it has one, else skipped.
pub open spec fn judges(outcome: LineOutcome, length: Option<usize>, line: Seq<u8>) -> bool {
    match outcome {
        LineOutcome::Closed => length == Some(0usize),
        LineOutcome::Skipped => length != Some(0usize) && (length is None || payload(line)
            is None),
        LineOutcome::Payload(bytes) => length != Some(0usize) && length is Some && payload(line)
            == Some(bytes@),
    }
}

/// Judges one bounded read of a line: `length` is the number of bytes that
/// it delivered into `line`, or nothing if it timed out or failed.
pub fn screen_read(length: Option<usize>, line: &[u8]) -> (r: LineOutcome)
    ensures
        judges(r, length, line@),
{
    match length {
        Some(0) => LineOutcome::Closed,
        Some(_) => match payload_of_line(line) {
            Some(bytes) => LineOutcome::Payload(bytes),
            None => LineOutcome::Skipped,
        },
        None => LineOutcome::Skipped,
    }
}

/// A line whose payload is all zero bytes carries nothing to decode, so no
/// report and no track update can come of it.
pub proof fn lemma_zero_payload_skipped(line: Seq<u8>)
    requires
        framed_text(line) matches Some(text) && is_hex_text(text) && all_zero(hex_bytes(text)),
    ensures
        payload(line) is None,
{
}

} // verus!
