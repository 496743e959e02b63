use bytes::BytesMut;
use vstd::prelude::*;
use vstd::string::StringSliceAdditionalSpecFns;
use vstd::utf8::{decode_utf8, encode_utf8, valid_utf8};

use crate::command::{parse, parse_line, Command, CommandModel};
use crate::error::ServerError;

verus! {

#[verifier::external_type_specification]
#[verifier::external_body]
pub struct ExBytesMut(BytesMut);

/// The bytes a `BytesMut` holds, in order.
pub uninterp spec fn buf_bytes(b: BytesMut) -> Seq<u8>;

/// Relies on `BytesMut`'s `Deref<Target = [u8]>`: the slice is the buffer's contents.
#[verifier::external_body]
fn buf_slice(b: &BytesMut) -> (r: &[u8])
    ensures
        r@ == buf_bytes(*b),
{
    &b[..]
}

/// Relies on `BytesMut::split_to`: the result holds `[0, at)`, the buffer
/// keeps `[at, len)`; it panics only when `at > len`.
#[verifier::external_body]
fn buf_split_to(b: &mut BytesMut, at: usize) -> (r: BytesMut)
    requires
        at <= buf_bytes(*old(b)).len(),
    ensures
        buf_bytes(r) == buf_bytes(*old(b)).subrange(0, at as int),
        buf_bytes(*final(b)) == buf_bytes(*old(b)).subrange(at as int, buf_bytes(*old(b)).len() as int),
{
    b.split_to(at)
}

/// Relies on `BytesMut::extend_from_slice`: the bytes are appended. It
/// panics only on capacity overflow, when the buffer would have to hold more
/// than `isize::MAX` bytes.
#[verifier::external_body]
fn buf_extend(b: &mut BytesMut, s: &[u8])
    requires
        buf_bytes(*old(b)).len() + s@.len() <= isize::MAX,
    ensures
        buf_bytes(*final(b)) == buf_bytes(*old(b)) + s@,
{
    b.extend_from_slice(s)
}

/// Relies on `std::str::from_utf8`: it succeeds exactly on valid UTF-8, and
/// the text it returns is made of those bytes.
#[verifier::external_body]
fn utf8_text(b: &[u8]) -> (r: Option<&str>)
    ensures
        r is Some <==> valid_utf8(b@),
        r matches Some(s) ==> s.spec_bytes() == b@,
{
    std::str::from_utf8(b).ok()
}

/// A reply to one request.
#[derive(Debug, PartialEq, Eq)]
pub enum ServerResponse {
    /// The mailbox held nothing.
    Empty,
    /// The payload was queued.
    Stored,
    /// The oldest payload, now removed from the mailbox.
    Value(String),
}

/// The mathematical value of a `ServerResponse`.
pub enum ResponseModel {
    Empty,
    Stored,
    Value(Seq<char>),
}

impl View for ServerResponse {
    type V = ResponseModel;

    open spec fn view(&self) -> ResponseModel {
        match self {
            ServerResponse::Empty => ResponseModel::Empty,
            ServerResponse::Stored => ResponseModel::Stored,
            ServerResponse::Value(v) => ResponseModel::Value(v@),
        }
    }
}

/// Whether `i` is the position of the first line terminator in `b`.
pub open spec fn is_first_newline(b: Seq<u8>, i: int) -> bool {
    &&& 0 <= i < b.len()
    &&& b[i] == 10u8
    &&& forall|j: int| 0 <= j < i ==> b[j] != 10u8
}

/// The length of the first complete frame in `b`, terminator included, if any.
pub open spec fn frame_len(b: Seq<u8>) -> Option<int> {
    if exists|i: int| is_first_newline(b, i) {
        Some((choose|i: int| is_first_newline(b, i)) + 1)
    } else {
        None
    }
}

/// What one complete frame decodes to.
pub open spec fn decode_frame(line: Seq<u8>) -> Result<CommandModel, ServerError> {
    if !valid_utf8(line) {
        Err(ServerError::EncodingError)
    } else {
        match parse_line(decode_utf8(line)) {
            Ok(c) => Ok(c),
            Err(e) => Err(ServerError::ParseError(e)),
        }
    }
}

/// The text of a response line, terminator excluded.
pub open spec fn response_text(r: ResponseModel) -> Seq<char> {
    match r {
        ResponseModel::Empty => "No message stored"@,
        ResponseModel::Stored => "Stored message"@,
        ResponseModel::Value(v) => v,
    }
}

/// The bytes of a response on the wire.
pub open spec fn response_bytes(r: ResponseModel) -> Seq<u8> {
    encode_utf8(response_text(r)) + seq![10u8]
}

proof fn lemma_first_newline_unique(b: Seq<u8>, i: int)
    requires
        is_first_newline(b, i),
    ensures
        frame_len(b) == Some(i + 1),
{
    let k = choose|k: int| is_first_newline(b, k);
    assert(is_first_newline(b, k));
    if k < i {
        assert(b[k] != 10u8);
    }
    if i < k {
        assert(b[i] != 10u8);
    }
}

/// Splits line-terminated frames off a byte buffer and writes responses as
/// lines.
pub struct RedisishCodec;

/// The line protocol: every connection is framed by its own codec.
pub struct RedisishProto;

impl RedisishProto {
    /// The codec that frames one new connection.
    pub fn bind_transport(&self) -> (r: RedisishCodec) {
        RedisishCodec
    }
}

impl RedisishCodec {
    /// Takes the first complete frame off `buf` and decodes it.
    ///
    /// Without a terminator in `buf` nothing is consumed and `Ok(None)` comes
    /// back. Otherwise exactly that frame is removed, whatever its outcome.
    pub fn decode(&mut self, buf: &mut BytesMut) -> (r: Result<Option<Command>, ServerError>)
        ensures
            match frame_len(buf_bytes(*old(buf))) {
                None => r == Ok::<Option<Command>, ServerError>(None) && buf_bytes(*final(buf))
                    == buf_bytes(*old(buf)),
                Some(n) => {
                    let old_b = buf_bytes(*old(buf));
                    &&& buf_bytes(*final(buf)) == old_b.subrange(n, old_b.len() as int)
                    &&& match r {
                        Ok(Some(c)) => decode_frame(old_b.subrange(0, n)) == Ok::<
                            CommandModel,
                            ServerError,
                        >(c@),
                        Ok(None) => false,
                        Err(e) => decode_frame(old_b.subrange(0, n)) == Err::<
                            CommandModel,
                            ServerError,
                        >(e),
                    }
                },
            },
    {
        let data = buf_slice(buf);
        let mut i: usize = 0;
        while i < data.len()
            invariant
                data@ == buf_bytes(*buf),
                buf_bytes(*buf) == buf_bytes(*old(buf)),
                i <= data@.len(),
                forall|j: int| 0 <= j < i ==> data@[j] != 10u8,
            ensures
                i <= data@.len(),
                forall|j: int| 0 <= j < i ==> data@[j] != 10u8,
                i < data@.len() ==> data@[i as int] == 10u8,
            decreases data@.len() - i,
        {
            if data[i] == 10u8 {
                break;
            }
            i = i + 1;
        }
        if i == data.len() {
            return Ok(None);
        }
        proof {
            lemma_first_newline_unique(buf_bytes(*buf), i as int);
        }
        let line = buf_split_to(buf, i + 1);
        let bytes = buf_slice(&line);
        match utf8_text(bytes) {
            None => Err(ServerError::EncodingError),
            Some(text) => {
                proof {
                    vstd::utf8::encode_utf8_decode_utf8(text@);
                }
                match parse(text) {
                    Ok(c) => Ok(Some(c)),
                    Err(e) => Err(ServerError::ParseError(e)),
                }
            },
        }
    }

    /// Appends the response as one line of text to `buf`, or fails with
    /// `Internal` and leaves `buf` as it was when the buffer could not grow
    /// that far.
    pub fn encode(&mut self, msg: ServerResponse, buf: &mut BytesMut) -> (r: Result<(), ServerError>)
        ensures
            buf_bytes(*old(buf)).len() + response_bytes(msg@).len() <= isize::MAX ==> r is Ok
                && buf_bytes(*final(buf)) == buf_bytes(*old(buf)) + response_bytes(msg@),
            buf_bytes(*old(buf)).len() + response_bytes(msg@).len() > isize::MAX ==> r
                == Err::<(), ServerError>(ServerError::Internal) && buf_bytes(*final(buf))
                == buf_bytes(*old(buf)),
    {
        let text: &str = match &msg {
            ServerResponse::Empty => "No message stored",
            ServerResponse::Value(v) => v.as_str(),
            ServerResponse::Stored => "Stored message",
        };
        let body = text.as_bytes();
        let terminator: [u8; 1] = [10u8];
        let current = buf_slice(buf).len();
        if body.len() >= isize::MAX as usize || current > isize::MAX as usize - body.len() - 1 {
            return Err(ServerError::Internal);
        }
        buf_extend(buf, body);
        buf_extend(buf, terminator.as_slice());
        proof {
            assert(terminator@ =~= seq![10u8]);
            assert(buf_bytes(*buf) =~= buf_bytes(*old(buf)) + response_bytes(msg@));
        }
        Ok(())
    }
}

} // verus!
