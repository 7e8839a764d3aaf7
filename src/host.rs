//! Whole exchanges over one connection, once the request is sent: the
//! shell's output, the server version and the device listing.
use vstd::prelude::*;
use vstd::utf8::*;

use crate::device::{online_serials, parse_device_list, views};
use crate::error::AdbError;
use crate::reader::{block_error, block_read, status_error, status_spec, ResponseReader, Status};
use crate::text::utf8_bytes;

verus! {

/// The answer to `shell:<command>`: `OKAY`, then the output until the peer
/// closes the stream.
pub fn shell_output(reader: &mut ResponseReader) -> (r: Result<String, AdbError>)
    requires
        old(reader).wf(),
    ensures
        final(reader).wf(),
        r is Ok <==> old(reader).rest().len() >= 4 && status_spec(old(reader).rest().take(4))
            == Status::Okay && valid_utf8(old(reader).rest().skip(4)),
        r matches Ok(s) ==> s@ == decode_utf8(old(reader).rest().skip(4)),
        old(reader).rest().len() >= 4 && status_spec(old(reader).rest().take(4)) == Status::Okay
            && !valid_utf8(old(reader).rest().skip(4)) ==> (r matches Err(e)
            && e is ParseResponseError),
        old(reader).rest().len() < 4 || status_spec(old(reader).rest().take(4)) != Status::Okay
            ==> (r matches Err(e) && status_error(old(reader).rest(), e)),
{
    let ghost rest = reader.rest();
    match reader.expect_okay() {
        Ok(()) => {},
        Err(e) => return Err(e),
    }
    assert(reader.rest() =~= rest.skip(4));
    reader.read_until_close()
}

pub open spec fn is_decimal_digit(b: u8) -> bool {
    48 <= b && b <= 57
}

pub open spec fn all_digits(b: Seq<u8>) -> bool {
    forall|i: int| 0 <= i < b.len() ==> is_decimal_digit(#[trigger] b[i])
}

/// The number written by decimal digits, most significant first.
pub open spec fn decimal_value(b: Seq<u8>) -> nat
    decreases b.len(),
{
    if b.len() == 0 {
        0
    } else {
        decimal_value(b.drop_last()) * 10 + (b.last() - 48) as nat
    }
}

/// The version a text holds: one or more decimal digits whose value fits
/// in 32 bits.
pub open spec fn version_of(text: Seq<char>) -> Option<nat> {
    let b = encode_utf8(text);
    if b.len() > 0 && all_digits(b) && decimal_value(b) <= u32::MAX {
        Some(decimal_value(b))
    } else {
        None
    }
}

proof fn lemma_decimal_value_grows(b: Seq<u8>, i: int)
    requires
        all_digits(b),
        0 <= i <= b.len(),
    ensures
        decimal_value(b.take(i)) <= decimal_value(b),
    decreases b.len(),
{
    if i == b.len() {
        assert(b.take(i) =~= b);
    } else {
        let prev = b.drop_last();
        assert(prev.take(i) =~= b.take(i));
        lemma_decimal_value_grows(prev, i);
    }
}

/// The server version: the text as an unsigned decimal number.
pub fn parse_server_version(text: &str) -> (r: Result<u32, AdbError>)
    ensures
        r is Ok <==> version_of(text@) is Some,
        r matches Ok(v) ==> version_of(text@) == Some(v as nat),
        r matches Err(e) ==> e is ParseResponseError,
{
    let bytes = utf8_bytes(text);
    let len = bytes.len();
    if len == 0 {
        return Err(AdbError::ParseResponseError);
    }
    let mut i: usize = 0;
    while i < len
        invariant
            len == bytes@.len(),
            bytes@ == encode_utf8(text@),
            i <= len,
            all_digits(bytes@.take(i as int)),
        decreases len - i,
    {
        if bytes[i] < 48 || bytes[i] > 57 {
            assert(!is_decimal_digit(bytes@[i as int]));
            return Err(AdbError::ParseResponseError);
        }
        assert(all_digits(bytes@.take(i + 1)));
        i = i + 1;
    }
    assert(bytes@.take(len as int) =~= bytes@);
    let mut acc: u64 = 0;
    let mut j: usize = 0;
    while j < len
        invariant
            len == bytes@.len(),
            bytes@ == encode_utf8(text@),
            j <= len,
            all_digits(bytes@),
            acc == decimal_value(bytes@.take(j as int)),
            acc <= u32::MAX,
        decreases len - j,
    {
        assert(bytes@.take(j + 1).drop_last() =~= bytes@.take(j as int));
        assert(is_decimal_digit(bytes@[j as int]));
        let ghost prefix = bytes@.take(j + 1);
        assert(decimal_value(prefix) == decimal_value(bytes@.take(j as int)) * 10 + (bytes@[j as int] - 48) as nat);
        acc = acc * 10 + (bytes[j] - 48) as u64;
        j = j + 1;
        assert(acc == decimal_value(bytes@.take(j as int)));
        if acc > 4294967295 {
            proof {
                lemma_decimal_value_grows(bytes@, j as int);
            }
            return Err(AdbError::ParseResponseError);
        }
    }
    assert(bytes@.take(len as int) =~= bytes@);
    Ok(acc as u32)
}

/// The answer to `host:version`: `OKAY`, then a block holding the version
/// in decimal digits.
pub fn read_server_version(reader: &mut ResponseReader) -> (r: Result<u32, AdbError>)
    requires
        old(reader).wf(),
    ensures
        final(reader).wf(),
        r is Ok <==> old(reader).rest().len() >= 4 && status_spec(old(reader).rest().take(4))
            == Status::Okay && (block_read(old(reader).rest().skip(4)) matches Ok((t, _))
            && version_of(t) is Some),
        r matches Ok(v) ==> (block_read(old(reader).rest().skip(4)) matches Ok((t, _))
            && version_of(t) == Some(v as nat)),
        old(reader).rest().len() >= 4 && status_spec(old(reader).rest().take(4)) == Status::Okay
            ==> match block_read(old(reader).rest().skip(4)) {
            Ok((t, _)) => (version_of(t) is None ==> (r matches Err(e) && e is ParseResponseError)),
            Err(f) => (r matches Err(e) && block_error(e, f)),
        },
        old(reader).rest().len() < 4 || status_spec(old(reader).rest().take(4)) != Status::Okay
            ==> (r matches Err(e) && status_error(old(reader).rest(), e)),
{
    let ghost rest = reader.rest();
    match reader.expect_okay() {
        Ok(()) => {},
        Err(e) => return Err(e),
    }
    assert(reader.rest() =~= rest.skip(4));
    match reader.read_string_block() {
        Ok(text) => parse_server_version(text.as_str()),
        Err(e) => Err(e),
    }
}

/// The answer to `host:devices`: `OKAY`, then a block listing one device
/// per line; the serials of the online ones, in order.
pub fn read_device_serials(reader: &mut ResponseReader) -> (r: Result<Vec<String>, AdbError>)
    requires
        old(reader).wf(),
    ensures
        final(reader).wf(),
        r is Ok <==> old(reader).rest().len() >= 4 && status_spec(old(reader).rest().take(4))
            == Status::Okay && block_read(old(reader).rest().skip(4)) is Ok,
        r matches Ok(v) ==> (block_read(old(reader).rest().skip(4)) matches Ok((t, _))
            && views(v@) == online_serials(t)),
        old(reader).rest().len() >= 4 && status_spec(old(reader).rest().take(4)) == Status::Okay
            ==> (block_read(old(reader).rest().skip(4)) matches Err(f) ==> (r matches Err(e)
            && block_error(e, f))),
        old(reader).rest().len() < 4 || status_spec(old(reader).rest().take(4)) != Status::Okay
            ==> (r matches Err(e) && status_error(old(reader).rest(), e)),
{
    let ghost rest = reader.rest();
    match reader.expect_okay() {
        Ok(()) => {},
        Err(e) => return Err(e),
    }
    assert(reader.rest() =~= rest.skip(4));
    match reader.read_string_block() {
        Ok(text) => Ok(parse_device_list(text.as_str())),
        Err(e) => Err(e),
    }
}

} // verus!
