//! Reading server responses: the four-byte status token, length-prefixed
//! blocks, exact reads and reads until the peer closes the stream.
use vstd::prelude::*;
use vstd::utf8::*;

use crate::error::AdbError;
use crate::frame::{
    command_frame, command_payload, hex4, lemma_hex4_round_trip, parse_hex4, parse_length_prefix,
    MAX_PAYLOAD_LEN,
};
use crate::text::trimmed;
use crate::text::text_from_utf8;

verus! {

/// The size of one read while draining a stream.
pub const CHUNK_LEN: usize = 4096;

/// What a four-byte status token says.
#[derive(Debug, Clone, Copy, PartialEq, Eq, Structural)]
pub enum Status {
    /// `OKAY`: the request succeeded.
    Okay,
    /// `FAIL`: the request failed; a length-prefixed message follows.
    Fail,
    /// Anything else: the server broke the protocol.
    Other,
}

/// Why a length-prefixed block could not be read.
#[derive(Debug, Clone, Copy, PartialEq, Eq, Structural)]
pub enum BlockFault {
    /// The stream ended where the length prefix should start.
    Closed,
    /// The stream ended inside the prefix or the payload.
    Truncated,
    /// The prefix is not four hexadecimal digits.
    BadLength,
    /// The payload is not UTF-8.
    BadText,
}

pub open spec fn okay_token() -> Seq<u8> {
    seq![79u8, 75u8, 65u8, 89u8]
}

pub open spec fn fail_token() -> Seq<u8> {
    seq![70u8, 65u8, 73u8, 76u8]
}

/// The meaning of a four-byte status token.
pub open spec fn status_spec(token: Seq<u8>) -> Status {
    if token == okay_token() {
        Status::Okay
    } else if token == fail_token() {
        Status::Fail
    } else {
        Status::Other
    }
}

/// The outcome of reading one length-prefixed block at the start of
/// `rest`: its text and the number of bytes it takes, or the fault.
pub open spec fn block_read(rest: Seq<u8>) -> Result<(Seq<char>, nat), BlockFault> {
    if rest.len() == 0 {
        Err(BlockFault::Closed)
    } else if rest.len() < 4 {
        Err(BlockFault::Truncated)
    } else {
        match parse_hex4(rest.take(4)) {
            None => Err(BlockFault::BadLength),
            Some(n) => if rest.len() < 4 + n {
                Err(BlockFault::Truncated)
            } else if !valid_utf8(rest.subrange(4, 4 + n as int)) {
                Err(BlockFault::BadText)
            } else {
                Ok((decode_utf8(rest.subrange(4, 4 + n as int)), 4 + n))
            },
        }
    }
}

/// How many bytes a block read takes from `rest`, whether it succeeds or not.
pub open spec fn block_consumed(rest: Seq<u8>) -> nat {
    match block_read(rest) {
        Ok((_, used)) => used,
        Err(BlockFault::Closed) => 0,
        Err(BlockFault::Truncated) => rest.len(),
        Err(BlockFault::BadLength) => 4,
        Err(BlockFault::BadText) => 4 + parse_hex4(rest.take(4)).unwrap(),
    }
}

/// The error a block fault is reported as.
pub open spec fn block_error(e: AdbError, f: BlockFault) -> bool {
    match f {
        BlockFault::Closed => e is ConnectionClosed,
        BlockFault::Truncated => e is ReadClosed,
        BlockFault::BadLength => e is InvalidLength,
        BlockFault::BadText => e is ParseResponseError,
    }
}

/// The error reported for a stream that does not start with `OKAY`: a
/// short stream, the message after `FAIL`, or the unexpected token.
pub open spec fn status_error(rest: Seq<u8>, e: AdbError) -> bool {
    if rest.len() < 4 {
        e is ReadClosed
    } else if status_spec(rest.take(4)) == Status::Fail {
        match block_read(rest.skip(4)) {
            Ok((msg, _)) => (e matches AdbError::ResponseStatusError { content } && content@ == msg),
            Err(f) => block_error(e, f),
        }
    } else {
        e matches AdbError::UnexpectedStatus { token } && token@ == rest.take(4)
    }
}

/// Classifies a status token.
pub fn status_of(token: &[u8]) -> (r: Status)
    ensures
        r == status_spec(token@),
{
    if token.len() == 4 && token[0] == 79 && token[1] == 75 && token[2] == 65 && token[3] == 89 {
        assert(token@ =~= okay_token());
        Status::Okay
    } else if token.len() == 4 && token[0] == 70 && token[1] == 65 && token[2] == 73 && token[3]
        == 76 {
        assert(token@ =~= fail_token());
        Status::Fail
    } else {
        Status::Other
    }
}

/// The bytes received on one connection, and how far they have been read.
pub struct ResponseReader {
    data: Vec<u8>,
    pos: usize,
}

impl ResponseReader {
    /// Every byte received.
    pub closed spec fn data(&self) -> Seq<u8> {
        self.data@
    }

    /// How many bytes have been read.
    pub closed spec fn pos(&self) -> nat {
        self.pos as nat
    }

    pub open spec fn wf(&self) -> bool {
        self.pos() <= self.data().len()
    }

    /// The bytes not read yet.
    pub open spec fn rest(&self) -> Seq<u8> {
        self.data().subrange(self.pos() as int, self.data().len() as int)
    }

    /// A reader over `data`, with nothing read yet.
    pub fn new(data: Vec<u8>) -> (r: Self)
        ensures
            r.wf(),
            r.data() == data@,
            r.pos() == 0,
            r.rest() == data@,
    {
        let r = ResponseReader { data, pos: 0 };
        assert(r.rest() =~= data@);
        r
    }

    /// How many bytes have been read.
    pub fn position(&self) -> (r: usize)
        ensures
            r == self.pos(),
    {
        self.pos
    }

    /// How many bytes are left.
    pub fn remaining(&self) -> (r: usize)
        requires
            self.wf(),
        ensures
            r == self.rest().len(),
    {
        self.data.len() - self.pos
    }

    fn take(&mut self, n: usize) -> (r: Vec<u8>)
        requires
            old(self).wf(),
            n <= old(self).rest().len(),
        ensures
            final(self).wf(),
            final(self).data() == old(self).data(),
            final(self).pos() == old(self).pos() + n,
            r@ == old(self).rest().take(n as int),
    {
        let mut r: Vec<u8> = Vec::with_capacity(n);
        let start = self.pos;
        let len = self.data.len();
        let mut i: usize = 0;
        while i < n
            invariant
                self.wf(),
                len == self.data@.len(),
                start + n <= self.data@.len(),
                self.pos == start,
                i <= n,
                r@ == self.data@.subrange(start as int, start + i),
            decreases n - i,
        {
            r.push(self.data[start + i]);
            i = i + 1;
            assert(r@ =~= self.data@.subrange(start as int, start + i));
        }
        self.pos = start + n;
        assert(r@ =~= old(self).rest().take(n as int));
        r
    }

    /// Reads at most `max` bytes; an empty result means the stream has ended.
    pub fn read_some(&mut self, max: usize) -> (r: Vec<u8>)
        requires
            old(self).wf(),
            max > 0,
        ensures
            final(self).wf(),
            final(self).data() == old(self).data(),
            r@.len() == if old(self).rest().len() < max {
                old(self).rest().len()
            } else {
                max as nat
            },
            r@ == old(self).rest().take(r@.len() as int),
            final(self).pos() == old(self).pos() + r@.len(),
    {
        let left = self.data.len() - self.pos;
        let n = if left < max {
            left
        } else {
            max
        };
        self.take(n)
    }

    /// Reads exactly `n` bytes; a stream that ends first is `ReadClosed`,
    /// and what was left of it is consumed.
    pub fn read_exact(&mut self, n: usize) -> (r: Result<Vec<u8>, AdbError>)
        requires
            old(self).wf(),
        ensures
            final(self).wf(),
            final(self).data() == old(self).data(),
            r is Ok <==> n <= old(self).rest().len(),
            r matches Ok(b) ==> b@ == old(self).rest().take(n as int) && final(self).pos()
                == old(self).pos() + n,
            r matches Err(e) ==> e is ReadClosed && final(self).rest().len() == 0,
    {
        if n <= self.data.len() - self.pos {
            Ok(self.take(n))
        } else {
            self.pos = self.data.len();
            Err(AdbError::ReadClosed)
        }
    }

    /// Reads the four-byte status token.
    pub fn check_oky(&mut self) -> (r: Result<Status, AdbError>)
        requires
            old(self).wf(),
        ensures
            final(self).wf(),
            final(self).data() == old(self).data(),
            r is Ok <==> old(self).rest().len() >= 4,
            r matches Ok(s) ==> s == status_spec(old(self).rest().take(4)) && final(self).pos()
                == old(self).pos() + 4,
            r matches Err(e) ==> e is ReadClosed && final(self).rest().len() == 0,
    {
        match self.read_exact(4) {
            Ok(token) => Ok(status_of(token.as_slice())),
            Err(e) => Err(e),
        }
    }

    /// Reads one block: four hexadecimal digits giving a byte length, then
    /// that many bytes of UTF-8 text.
    pub fn read_string_block(&mut self) -> (r: Result<String, AdbError>)
        requires
            old(self).wf(),
        ensures
            final(self).wf(),
            final(self).data() == old(self).data(),
            final(self).pos() == old(self).pos() + block_consumed(old(self).rest()),
            r is Ok <==> block_read(old(self).rest()) is Ok,
            r matches Ok(s) ==> block_read(old(self).rest()) matches Ok((t, _)) && s@ == t,
            r matches Err(e) ==> block_read(old(self).rest()) matches Err(f) && block_error(e, f),
    {
        let ghost rest = self.rest();
        if self.pos == self.data.len() {
            return Err(AdbError::ConnectionClosed);
        }
        let prefix = match self.read_exact(4) {
            Ok(p) => p,
            Err(e) => return Err(e),
        };
        assert(prefix@ == rest.take(4));
        let n = match parse_length_prefix(prefix.as_slice()) {
            Some(n) => n,
            None => return Err(AdbError::InvalidLength),
        };
        let ghost after = self.rest();
        assert(after =~= rest.subrange(4, rest.len() as int));
        let payload = match self.read_exact(n) {
            Ok(p) => p,
            Err(e) => return Err(e),
        };
        assert(payload@ =~= rest.subrange(4, 4 + n as int));
        match text_from_utf8(payload) {
            Some(s) => Ok(s),
            None => Err(AdbError::ParseResponseError),
        }
    }

    /// Reads until the peer closes the stream, in chunks of `CHUNK_LEN`
    /// bytes, and decodes all of it as UTF-8 text.
    pub fn read_until_close(&mut self) -> (r: Result<String, AdbError>)
        requires
            old(self).wf(),
        ensures
            final(self).wf(),
            final(self).data() == old(self).data(),
            final(self).rest().len() == 0,
            r is Ok <==> valid_utf8(old(self).rest()),
            r matches Ok(s) ==> s@ == decode_utf8(old(self).rest()),
            r matches Err(e) ==> e is ParseResponseError,
    {
        let ghost rest = self.rest();
        let mut acc: Vec<u8> = Vec::new();
        let mut closed = false;
        while !closed
            invariant
                self.wf(),
                self.data() == old(self).data(),
                acc@ + self.rest() == rest,
                closed ==> self.rest().len() == 0,
            decreases self.rest().len() + if closed { 0int } else { 1int },
        {
            let ghost before = self.rest();
            let mut chunk = self.read_some(CHUNK_LEN);
            if chunk.len() == 0 {
                closed = true;
                continue;
            }
            assert(self.rest() =~= before.subrange(chunk@.len() as int, before.len() as int));
            assert(chunk@ + self.rest() =~= before);
            assert(acc@ + chunk@ + self.rest() =~= rest);
            acc.append(&mut chunk);
        }
        assert(acc@ + self.rest() =~= acc@);
        match text_from_utf8(acc) {
            Some(s) => Ok(s),
            None => Err(AdbError::ParseResponseError),
        }
    }

    /// Expects `OKAY`. A `FAIL` becomes `ResponseStatusError` with the
    /// server's message; any other token becomes `UnexpectedStatus`.
    pub fn expect_okay(&mut self) -> (r: Result<(), AdbError>)
        requires
            old(self).wf(),
        ensures
            final(self).wf(),
            final(self).data() == old(self).data(),
            r is Ok <==> old(self).rest().len() >= 4 && status_spec(old(self).rest().take(4))
                == Status::Okay,
            r is Ok ==> final(self).pos() == old(self).pos() + 4,
            r matches Err(e) ==> status_error(old(self).rest(), e),
    {
        let ghost rest = self.rest();
        let token = match self.read_exact(4) {
            Ok(t) => t,
            Err(e) => return Err(e),
        };
        match status_of(token.as_slice()) {
            Status::Okay => Ok(()),
            Status::Fail => {
                assert(self.rest() =~= rest.skip(4));
                match self.read_string_block() {
                    Ok(msg) => Err(AdbError::ResponseStatusError { content: msg }),
                    Err(e) => Err(e),
                }
            },
            Status::Other => Err(AdbError::UnexpectedStatus { token }),
        }
    }
}

/// A framed command read back as a block gives the trimmed command text,
/// and takes the whole frame.
pub proof fn lemma_command_frame_round_trip(c: Seq<char>)
    requires
        command_payload(c).len() <= MAX_PAYLOAD_LEN,
    ensures
        block_read(command_frame(c)) == Ok::<(Seq<char>, nat), BlockFault>(
            (trimmed(c), command_frame(c).len()),
        ),
{
    broadcast use encode_utf8_valid_utf8, encode_utf8_decode_utf8;

    let payload = command_payload(c);
    let frame = command_frame(c);
    lemma_hex4_round_trip(payload.len());
    assert(frame.take(4) =~= hex4(payload.len()));
    assert(frame.subrange(4, 4 + payload.len() as int) =~= payload);
}

/// Reading a block depends on the bytes received alone: equal streams
/// decode to equal results.
pub proof fn lemma_block_read_deterministic(first: Seq<u8>, second: Seq<u8>)
    requires
        first == second,
    ensures
        block_read(first) == block_read(second),
        block_consumed(first) == block_consumed(second),
{
}

/// Once a whole block has arrived, what follows it on the stream does not
/// change what the block decodes to.
pub proof fn lemma_block_read_ignores_trailing(block: Seq<u8>, trailing: Seq<u8>)
    requires
        block_read(block) is Ok,
        block_consumed(block) == block.len(),
    ensures
        block_read(block + trailing) == block_read(block),
{
    let whole = block + trailing;
    assert(whole.take(4) =~= block.take(4));
    let n = parse_hex4(block.take(4)).unwrap();
    assert(whole.subrange(4, 4 + n as int) =~= block.subrange(4, 4 + n as int));
}

/// A stream that starts with `OKAY` reports success, whatever follows.
pub proof fn lemma_okay_then_anything(trailing: Seq<u8>)
    ensures
        status_spec((okay_token() + trailing).take(4)) == Status::Okay,
{
    assert((okay_token() + trailing).take(4) =~= okay_token());
}

} // verus!
