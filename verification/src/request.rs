//! The two vocabularies of the protocol and their encoding.
//!
//! A value travels as one frame. Its payload starts with the variant's tag as a raw count; the
//! variant's field, if it has one, follows: an index as eight bytes, a name as its length in
//! bytes (eight bytes) and its UTF-8 bytes. What follows a complete value in a payload is
//! ignored.

use vstd::prelude::*;
use vstd::string::*;
use vstd::utf8::*;
use crate::error::{ProtocolError, ProtocolRejection};
use crate::wire::{
    append_bytes, copy_range, decode_text, decode_u32, decode_u64, encode_u32, encode_u64, frame,
    frame_of, le_bytes, lemma_frame_round_trip, lemma_le_bytes_len, lemma_text_round_trip,
    lemma_u32_round_trip, lemma_u64_round_trip, parse_frame, parse_text, parse_u32, parse_u64,
    MAX_PAYLOAD,
};

verus! {

/// What a client asks of the server. A connection carries exactly one.
#[derive(Clone, Debug, PartialEq, Eq)]
pub enum Request {
    Disconnect,
    GetFileCount,
    DownloadFileByIndex(u64),
    DownloadFileByName(String),
    DownloadAllFiles,
}

/// A request as a mathematical value.
pub enum RequestView {
    Disconnect,
    GetFileCount,
    DownloadFileByIndex(u64),
    DownloadFileByName(Seq<char>),
    DownloadAllFiles,
}

impl View for Request {
    type V = RequestView;

    open spec fn view(&self) -> RequestView {
        match *self {
            Request::Disconnect => RequestView::Disconnect,
            Request::GetFileCount => RequestView::GetFileCount,
            Request::DownloadFileByIndex(index) => RequestView::DownloadFileByIndex(index),
            Request::DownloadFileByName(name) => RequestView::DownloadFileByName(name@),
            Request::DownloadAllFiles => RequestView::DownloadAllFiles,
        }
    }
}

/// The server's verdict on a request; also the client's acknowledgment of one file.
#[derive(Clone, Copy, Debug, PartialEq, Eq, Structural)]
pub enum RequestResult {
    Okay,
    ErrUnauthorizedAccess,
    ErrIndexOutOfBounds,
}

pub const TAG_DISCONNECT: u32 = 0;

pub const TAG_GET_FILE_COUNT: u32 = 1;

pub const TAG_DOWNLOAD_FILE_BY_INDEX: u32 = 2;

pub const TAG_DOWNLOAD_FILE_BY_NAME: u32 = 3;

pub const TAG_DOWNLOAD_ALL_FILES: u32 = 4;

pub const TAG_OK: u32 = 0;

pub const TAG_UNAUTHORIZED_ACCESS: u32 = 1;

pub const TAG_INDEX_OUT_OF_BOUNDS: u32 = 2;

/// The tag that selects a request's variant.
pub open spec fn request_tag(request: RequestView) -> u32 {
    match request {
        RequestView::Disconnect => TAG_DISCONNECT,
        RequestView::GetFileCount => TAG_GET_FILE_COUNT,
        RequestView::DownloadFileByIndex(_) => TAG_DOWNLOAD_FILE_BY_INDEX,
        RequestView::DownloadFileByName(_) => TAG_DOWNLOAD_FILE_BY_NAME,
        RequestView::DownloadAllFiles => TAG_DOWNLOAD_ALL_FILES,
    }
}

/// The payload of a request: its tag, then its field.
pub open spec fn request_payload(request: RequestView) -> Seq<u8> {
    le_bytes(request_tag(request) as nat, 4) + match request {
        RequestView::DownloadFileByIndex(index) => le_bytes(index as nat, 8),
        RequestView::DownloadFileByName(name) => le_bytes(encode_utf8(name).len(), 8)
            + encode_utf8(name),
        _ => Seq::empty(),
    }
}

/// What a reader makes of a name field, which starts at the payload's fifth byte.
pub open spec fn parse_name(field: Seq<u8>) -> Result<Seq<char>, ProtocolError> {
    match parse_u64(field) {
        Err(e) => Err(e),
        Ok(length) => if field.len() - 8 < length {
            Err(ProtocolError::Truncated)
        } else {
            parse_text(field.subrange(8, 8 + length))
        },
    }
}

/// What a reader makes of a request payload.
pub open spec fn parse_request(payload: Seq<u8>) -> Result<RequestView, ProtocolError> {
    match parse_u32(payload) {
        Err(e) => Err(e),
        Ok(tag) => if tag == TAG_DISCONNECT {
            Ok(RequestView::Disconnect)
        } else if tag == TAG_GET_FILE_COUNT {
            Ok(RequestView::GetFileCount)
        } else if tag == TAG_DOWNLOAD_FILE_BY_INDEX {
            match parse_u64(payload.skip(4)) {
                Err(e) => Err(e),
                Ok(index) => Ok(RequestView::DownloadFileByIndex(index)),
            }
        } else if tag == TAG_DOWNLOAD_FILE_BY_NAME {
            match parse_name(payload.skip(4)) {
                Err(e) => Err(e),
                Ok(name) => Ok(RequestView::DownloadFileByName(name)),
            }
        } else if tag == TAG_DOWNLOAD_ALL_FILES {
            Ok(RequestView::DownloadAllFiles)
        } else {
            Err(ProtocolError::UnknownTag)
        },
    }
}

/// The tag that selects a result's variant.
pub open spec fn result_tag(result: RequestResult) -> u32 {
    match result {
        RequestResult::Okay => TAG_OK,
        RequestResult::ErrUnauthorizedAccess => TAG_UNAUTHORIZED_ACCESS,
        RequestResult::ErrIndexOutOfBounds => TAG_INDEX_OUT_OF_BOUNDS,
    }
}

/// The payload of a result: its tag.
pub open spec fn result_payload(result: RequestResult) -> Seq<u8> {
    le_bytes(result_tag(result) as nat, 4)
}

/// What a reader makes of a result payload.
pub open spec fn parse_result(payload: Seq<u8>) -> Result<RequestResult, ProtocolError> {
    match parse_u32(payload) {
        Err(e) => Err(e),
        Ok(tag) => if tag == TAG_OK {
            Ok(RequestResult::Okay)
        } else if tag == TAG_UNAUTHORIZED_ACCESS {
            Ok(RequestResult::ErrUnauthorizedAccess)
        } else if tag == TAG_INDEX_OUT_OF_BOUNDS {
            Ok(RequestResult::ErrIndexOutOfBounds)
        } else {
            Err(ProtocolError::UnknownTag)
        },
    }
}

impl RequestResult {
    /// Turns the server's verdict into success or the refusal it states.
    pub fn naturalize(&self) -> (outcome: Result<(), ProtocolRejection>)
        ensures
            outcome == match *self {
                RequestResult::Okay => Ok::<(), ProtocolRejection>(()),
                RequestResult::ErrUnauthorizedAccess => Err(ProtocolRejection::UnauthorizedAccess),
                RequestResult::ErrIndexOutOfBounds => Err(ProtocolRejection::IndexOutOfBounds),
            },
    {
        match self {
            RequestResult::Okay => Ok(()),
            RequestResult::ErrUnauthorizedAccess => Err(ProtocolRejection::UnauthorizedAccess),
            RequestResult::ErrIndexOutOfBounds => Err(ProtocolRejection::IndexOutOfBounds),
        }
    }

    /// The payload of this result.
    pub fn to_payload(&self) -> (payload: Vec<u8>)
        ensures
            payload@ == result_payload(*self),
    {
        match self {
            RequestResult::Okay => encode_u32(TAG_OK),
            RequestResult::ErrUnauthorizedAccess => encode_u32(TAG_UNAUTHORIZED_ACCESS),
            RequestResult::ErrIndexOutOfBounds => encode_u32(TAG_INDEX_OUT_OF_BOUNDS),
        }
    }

    /// Reads a result from its payload.
    pub fn from_payload(payload: &[u8]) -> (result: Result<RequestResult, ProtocolError>)
        ensures
            result == parse_result(payload@),
    {
        match decode_u32(payload) {
            Err(e) => Err(e),
            Ok(tag) => {
                if tag == TAG_OK {
                    Ok(RequestResult::Okay)
                } else if tag == TAG_UNAUTHORIZED_ACCESS {
                    Ok(RequestResult::ErrUnauthorizedAccess)
                } else if tag == TAG_INDEX_OUT_OF_BOUNDS {
                    Ok(RequestResult::ErrIndexOutOfBounds)
                } else {
                    Err(ProtocolError::UnknownTag)
                }
            },
        }
    }

    /// The frame that carries this result.
    pub fn to_frame(&self) -> (framed: Vec<u8>)
        ensures
            framed@ == frame_of(result_payload(*self)),
    {
        let payload = self.to_payload();
        proof {
            lemma_le_bytes_len(result_tag(*self) as nat, 4);
        }
        match frame(payload.as_slice()) {
            Ok(framed) => framed,
            Err(_) => Vec::new(),
        }
    }
}

impl Request {
    /// The payload of this request.
    pub fn to_payload(&self) -> (payload: Vec<u8>)
        ensures
            payload@ == request_payload(self@),
    {
        match self {
            Request::Disconnect => {
                let payload = encode_u32(TAG_DISCONNECT);
                assert(payload@ + Seq::<u8>::empty() =~= payload@);
                payload
            },
            Request::GetFileCount => {
                let payload = encode_u32(TAG_GET_FILE_COUNT);
                assert(payload@ + Seq::<u8>::empty() =~= payload@);
                payload
            },
            Request::DownloadFileByIndex(index) => {
                let mut payload = encode_u32(TAG_DOWNLOAD_FILE_BY_INDEX);
                let field = encode_u64(*index);
                append_bytes(&mut payload, field.as_slice());
                payload
            },
            Request::DownloadFileByName(name) => {
                let mut payload = encode_u32(TAG_DOWNLOAD_FILE_BY_NAME);
                let bytes = name.as_str().as_bytes();
                let length = encode_u64(bytes.len() as u64);
                append_bytes(&mut payload, length.as_slice());
                append_bytes(&mut payload, bytes);
                assert(payload@ =~= request_payload(self@));
                payload
            },
            Request::DownloadAllFiles => {
                let payload = encode_u32(TAG_DOWNLOAD_ALL_FILES);
                assert(payload@ + Seq::<u8>::empty() =~= payload@);
                payload
            },
        }
    }

    /// Reads a request from its payload.
    pub fn from_payload(payload: &[u8]) -> (request: Result<Request, ProtocolError>)
        ensures
            match request {
                Ok(r) => parse_request(payload@) == Ok::<RequestView, ProtocolError>(r@),
                Err(e) => parse_request(payload@) == Err::<RequestView, ProtocolError>(e),
            },
    {
        let tag = match decode_u32(payload) {
            Err(e) => { return Err(e); },
            Ok(tag) => tag,
        };
        if tag == TAG_DISCONNECT {
            Ok(Request::Disconnect)
        } else if tag == TAG_GET_FILE_COUNT {
            Ok(Request::GetFileCount)
        } else if tag == TAG_DOWNLOAD_FILE_BY_INDEX {
            let field = copy_range(payload, 4, payload.len());
            assert(field@ =~= payload@.skip(4));
            match decode_u64(field.as_slice()) {
                Err(e) => Err(e),
                Ok(index) => Ok(Request::DownloadFileByIndex(index)),
            }
        } else if tag == TAG_DOWNLOAD_FILE_BY_NAME {
            let field = copy_range(payload, 4, payload.len());
            assert(field@ =~= payload@.skip(4));
            match decode_u64(field.as_slice()) {
                Err(e) => Err(e),
                Ok(length) => {
                    if ((field.len() - 8) as u64) < length {
                        Err(ProtocolError::Truncated)
                    } else {
                        let end: usize = 8 + length as usize;
                        let bytes = copy_range(field.as_slice(), 8, end);
                        match decode_text(bytes) {
                            Err(e) => Err(e),
                            Ok(name) => Ok(Request::DownloadFileByName(name)),
                        }
                    }
                },
            }
        } else if tag == TAG_DOWNLOAD_ALL_FILES {
            Ok(Request::DownloadAllFiles)
        } else {
            Err(ProtocolError::UnknownTag)
        }
    }

    /// The frame that carries this request. A name too long for a frame is refused.
    pub fn to_frame(&self) -> (framed: Result<Vec<u8>, ProtocolError>)
        ensures
            request_payload(self@).len() <= MAX_PAYLOAD ==> framed is Ok && framed->Ok_0@
                == frame_of(request_payload(self@)),
            request_payload(self@).len() > MAX_PAYLOAD ==> framed == Err::<Vec<u8>, ProtocolError>(
                ProtocolError::Oversize,
            ),
    {
        let payload = self.to_payload();
        frame(payload.as_slice())
    }
}

/// Encoding a request and decoding the payload gives the request back, whatever follows it in
/// the payload.
pub proof fn lemma_request_round_trip(request: RequestView, rest: Seq<u8>)
    requires
        request matches RequestView::DownloadFileByName(name) ==> encode_utf8(name).len()
            <= u64::MAX,
    ensures
        parse_request(request_payload(request) + rest) == Ok::<RequestView, ProtocolError>(
            request,
        ),
{
    let tag = request_tag(request);
    let head = le_bytes(tag as nat, 4);
    let payload = request_payload(request) + rest;
    lemma_le_bytes_len(tag as nat, 4);
    match request {
        RequestView::DownloadFileByIndex(index) => {
            let field = le_bytes(index as nat, 8);
            assert(payload =~= head + (field + rest));
            lemma_u32_round_trip(tag, field + rest);
            assert(payload.skip(4) =~= field + rest);
            lemma_u64_round_trip(index, rest);
        },
        RequestView::DownloadFileByName(name) => {
            let bytes = encode_utf8(name);
            let length = le_bytes(bytes.len(), 8);
            let field = length + bytes + rest;
            assert(payload =~= head + field);
            lemma_u32_round_trip(tag, field);
            assert(payload.skip(4) =~= field);
            assert(field =~= length + (bytes + rest));
            lemma_u64_round_trip(bytes.len() as u64, bytes + rest);
            lemma_le_bytes_len(bytes.len(), 8);
            assert(field.subrange(8, 8 + bytes.len() as int) =~= bytes);
            lemma_text_round_trip(name);
        },
        _ => {
            assert(payload =~= head + rest);
            lemma_u32_round_trip(tag, rest);
        },
    }
}

/// Encoding a result and decoding the payload gives the result back, whatever follows it in the
/// payload.
pub proof fn lemma_result_round_trip(result: RequestResult, rest: Seq<u8>)
    ensures
        parse_result(result_payload(result) + rest) == Ok::<RequestResult, ProtocolError>(result),
{
    lemma_u32_round_trip(result_tag(result), rest);
}

/// A request that fits in a frame comes back from its frame as it was sent: the reader takes
/// the frame off the stream, whatever follows it, and decodes the payload to the same request.
pub proof fn law_framed_request_round_trip(request: RequestView, rest: Seq<u8>)
    requires
        request_payload(request).len() <= MAX_PAYLOAD,
    ensures
        parse_frame(frame_of(request_payload(request)) + rest) == Ok::<_, ProtocolError>(
            (request_payload(request), 4 + request_payload(request).len()),
        ),
        parse_request(request_payload(request)) == Ok::<RequestView, ProtocolError>(request),
{
    lemma_frame_round_trip(request_payload(request), rest);
    if let RequestView::DownloadFileByName(name) = request {
        lemma_le_bytes_len(request_tag(request) as nat, 4);
        lemma_le_bytes_len(encode_utf8(name).len(), 8);
    }
    lemma_request_round_trip(request, Seq::empty());
    assert(request_payload(request) + Seq::<u8>::empty() =~= request_payload(request));
}

/// A result comes back from its frame as it was sent.
pub proof fn law_framed_result_round_trip(result: RequestResult, rest: Seq<u8>)
    ensures
        parse_frame(frame_of(result_payload(result)) + rest) == Ok::<_, ProtocolError>(
            (result_payload(result), 8nat),
        ),
        parse_result(result_payload(result)) == Ok::<RequestResult, ProtocolError>(result),
{
    lemma_le_bytes_len(result_tag(result) as nat, 4);
    lemma_frame_round_trip(result_payload(result), rest);
    lemma_result_round_trip(result, Seq::empty());
    assert(result_payload(result) + Seq::<u8>::empty() =~= result_payload(result));
}

} // verus!
