//! Request framing: four uppercase hexadecimal digits giving the byte
//! length of the trimmed command, then the command's UTF-8 bytes.
use vstd::prelude::*;
use vstd::utf8::*;

use crate::error::AdbError;
use crate::text::{trim_text, trimmed, utf8_bytes};

verus! {

/// The largest payload a four-digit hexadecimal prefix can describe.
pub const MAX_PAYLOAD_LEN: usize = 65535;

/// The uppercase ASCII hexadecimal digit for `v < 16`.
pub open spec fn hex_digit(v: nat) -> u8 {
    if v < 10 {
        (48 + v) as u8
    } else {
        (55 + v) as u8
    }
}

/// `n` as four uppercase hexadecimal digits, most significant first.
pub open spec fn hex4(n: nat) -> Seq<u8> {
    seq![hex_digit((n / 4096) % 16), hex_digit((n / 256) % 16), hex_digit((n / 16) % 16), hex_digit(n % 16)]
}

/// The value of one ASCII hexadecimal digit, of either case.
pub open spec fn hex_value(b: u8) -> Option<nat> {
    if 48 <= b && b <= 57 {
        Some((b - 48) as nat)
    } else if 65 <= b && b <= 70 {
        Some((b - 55) as nat)
    } else if 97 <= b && b <= 102 {
        Some((b - 87) as nat)
    } else {
        None
    }
}

/// The number written by exactly four hexadecimal digits.
pub open spec fn parse_hex4(b: Seq<u8>) -> Option<nat> {
    if b.len() == 4 && hex_value(b[0]) is Some && hex_value(b[1]) is Some && hex_value(b[2]) is Some
        && hex_value(b[3]) is Some {
        Some(
            hex_value(b[0]).unwrap() * 4096 + hex_value(b[1]).unwrap() * 256 + hex_value(b[2]).unwrap()
                * 16 + hex_value(b[3]).unwrap(),
        )
    } else {
        None
    }
}

/// The bytes a command carries: its trimmed text in UTF-8.
pub open spec fn command_payload(c: Seq<char>) -> Seq<u8> {
    encode_utf8(trimmed(c))
}

/// The request frame of a command.
pub open spec fn command_frame(c: Seq<char>) -> Seq<u8> {
    hex4(command_payload(c).len()) + command_payload(c)
}

fn hex_digit_of(v: usize) -> (r: u8)
    requires
        v < 16,
    ensures
        r == hex_digit(v as nat),
{
    if v < 10 {
        (48 + v) as u8
    } else {
        (55 + v) as u8
    }
}

fn hex_value_of(b: u8) -> (r: Option<usize>)
    ensures
        r is Some <==> hex_value(b) is Some,
        r matches Some(v) ==> v == hex_value(b).unwrap() && v < 16,
{
    if 48 <= b && b <= 57 {
        Some((b - 48) as usize)
    } else if 65 <= b && b <= 70 {
        Some((b - 55) as usize)
    } else if 97 <= b && b <= 102 {
        Some((b - 87) as usize)
    } else {
        None
    }
}

/// The four-digit uppercase hexadecimal prefix for a payload of `n` bytes.
pub fn length_prefix(n: usize) -> (r: Vec<u8>)
    requires
        n <= MAX_PAYLOAD_LEN,
    ensures
        r@ == hex4(n as nat),
{
    let mut r: Vec<u8> = Vec::with_capacity(4);
    r.push(hex_digit_of((n / 4096) % 16));
    r.push(hex_digit_of((n / 256) % 16));
    r.push(hex_digit_of((n / 16) % 16));
    r.push(hex_digit_of(n % 16));
    assert(r@ =~= hex4(n as nat));
    r
}

/// Reads a length prefix: exactly four hexadecimal digits.
pub fn parse_length_prefix(b: &[u8]) -> (r: Option<usize>)
    ensures
        r is Some <==> parse_hex4(b@) is Some,
        r matches Some(n) ==> parse_hex4(b@) == Some(n as nat) && n <= MAX_PAYLOAD_LEN,
{
    if b.len() != 4 {
        return None;
    }
    let d0 = hex_value_of(b[0]);
    let d1 = hex_value_of(b[1]);
    let d2 = hex_value_of(b[2]);
    let d3 = hex_value_of(b[3]);
    match (d0, d1, d2, d3) {
        (Some(v0), Some(v1), Some(v2), Some(v3)) => Some(v0 * 4096 + v1 * 256 + v2 * 16 + v3),
        _ => None,
    }
}

/// Frames a command: trims it, then puts the four-digit uppercase
/// hexadecimal byte length of the trimmed text before its UTF-8 bytes.
/// A trimmed text of more than 65535 bytes cannot be framed.
pub fn encode_command(cmd: &str) -> (r: Result<Vec<u8>, AdbError>)
    ensures
        r is Ok <==> command_payload(cmd@).len() <= MAX_PAYLOAD_LEN,
        r matches Ok(frame) ==> frame@ == command_frame(cmd@),
        r matches Err(e) ==> e is CommandTooLong,
{
    let t = trim_text(cmd);
    let mut payload = utf8_bytes(t);
    if payload.len() > MAX_PAYLOAD_LEN {
        return Err(AdbError::CommandTooLong);
    }
    let mut frame = length_prefix(payload.len());
    frame.append(&mut payload);
    Ok(frame)
}

/// Four hexadecimal digits read back give the length they were written from.
pub proof fn lemma_hex4_round_trip(n: nat)
    requires
        n <= MAX_PAYLOAD_LEN,
    ensures
        parse_hex4(hex4(n)) == Some(n),
{
    let s = hex4(n);
    assert(hex_value(s[0]) == Some((n / 4096) % 16));
    assert(hex_value(s[1]) == Some((n / 256) % 16));
    assert(hex_value(s[2]) == Some((n / 16) % 16));
    assert(hex_value(s[3]) == Some(n % 16));
    assert(n == ((n / 4096) % 16) * 4096 + ((n / 256) % 16) * 256 + ((n / 16) % 16) * 16 + n % 16)
        by (nonlinear_arith)
        requires
            n <= 65535,
    ;
}

} // verus!
