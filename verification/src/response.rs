//! Responses of either transport.
use bytes::Bytes;
use http::HeaderMap;

use vstd::prelude::*;

use crate::body::{BodyChunks, BodyState, NacelleBody};
use crate::buffer::chunk_bytes;
use crate::edge::headers::{header_fields, no_headers};

verus! {

/// What a framed protocol says of a response.
#[derive(Debug, Clone, Copy, PartialEq, Eq, Structural)]
pub struct TcpResponseMeta {
    pub request_id: Option<u64>,
    pub opcode: Option<u64>,
}

impl Default for TcpResponseMeta {
    fn default() -> (meta: Self)
        ensures
            meta == (TcpResponseMeta { request_id: None, opcode: None }),
    {
        Self { request_id: None, opcode: None }
    }
}

/// What HTTP says of a response.
#[derive(Debug)]
pub struct HttpResponseMeta {
    pub status: u16,
    pub headers: HeaderMap,
}

/// What the transport says of a response.
#[derive(Debug)]
pub enum NacelleResponseMeta {
    Tcp(TcpResponseMeta),
    Http(HttpResponseMeta),
}

impl NacelleResponseMeta {
    /// What a framed protocol says of the response, if it is one's.
    pub fn tcp(&self) -> (meta: Option<&TcpResponseMeta>)
        ensures
            match *self {
                NacelleResponseMeta::Tcp(own) => meta == Some(&own),
                NacelleResponseMeta::Http(_) => meta is None,
            },
    {
        match self {
            Self::Tcp(meta) => Some(meta),
            Self::Http(_) => None,
        }
    }
}

/// A response of either transport.
#[derive(Debug)]
pub struct NacelleResponse {
    pub meta: NacelleResponseMeta,
    pub body: NacelleBody,
}

/// A body of one chunk, or of none where there is nothing in it.
pub open spec fn body_of(bytes: Seq<u8>) -> BodyState {
    BodyState {
        chunks: if bytes.len() == 0 {
            BodyChunks::Buffered(Seq::empty())
        } else {
            BodyChunks::Single(Some(bytes))
        },
        remaining: bytes.len(),
        held: None,
    }
}

impl NacelleResponse {
    pub fn tcp(body: NacelleBody) -> (response: Self)
        ensures
            response.meta == NacelleResponseMeta::Tcp(
                TcpResponseMeta { request_id: None, opcode: None },
            ),
            response.body == body,
    {
        Self { meta: NacelleResponseMeta::Tcp(TcpResponseMeta::default()), body }
    }

    pub fn tcp_with_meta(meta: TcpResponseMeta, body: NacelleBody) -> (response: Self)
        ensures
            response.meta == NacelleResponseMeta::Tcp(meta),
            response.body == body,
    {
        Self { meta: NacelleResponseMeta::Tcp(meta), body }
    }

    pub fn tcp_bytes(bytes: Bytes) -> (response: Self)
        ensures
            response.meta == NacelleResponseMeta::Tcp(
                TcpResponseMeta { request_id: None, opcode: None },
            ),
            response.body@ == body_of(chunk_bytes(bytes)),
    {
        Self::tcp(NacelleBody::bytes(bytes))
    }

    pub fn empty_tcp() -> (response: Self)
        ensures
            response.meta == NacelleResponseMeta::Tcp(
                TcpResponseMeta { request_id: None, opcode: None },
            ),
            response.body@ == body_of(Seq::empty()),
    {
        Self::tcp(NacelleBody::empty())
    }

    pub fn http(status: u16, headers: HeaderMap, body: NacelleBody) -> (response: Self)
        ensures
            response.meta == NacelleResponseMeta::Http(HttpResponseMeta { status, headers }),
            response.body == body,
    {
        Self { meta: NacelleResponseMeta::Http(HttpResponseMeta { status, headers }), body }
    }

    pub fn http_bytes(status: u16, bytes: Bytes) -> (response: Self)
        ensures
            response.meta is Http,
            response.meta->Http_0.status == status,
            header_fields(response.meta->Http_0.headers) == Seq::<(Seq<u8>, Seq<u8>)>::empty(),
            response.body@ == body_of(chunk_bytes(bytes)),
    {
        Self::http(status, no_headers(), NacelleBody::bytes(bytes))
    }
}

/// A response of bytes has just those for its body, in one chunk where there are any,
/// and the status that it was given.
pub proof fn law_responses_hold_their_bytes(
    status: u16,
    bytes: Bytes,
    framed: NacelleResponse,
    answer: NacelleResponse,
)
    requires
        call_ensures(NacelleResponse::tcp_bytes, (bytes,), framed),
        call_ensures(NacelleResponse::http_bytes, (status, bytes), answer),
    ensures
        framed.meta is Tcp,
        answer.meta is Http,
        answer.meta->Http_0.status == status,
        framed.body@ == answer.body@,
        framed.body@.remaining == chunk_bytes(bytes).len(),
        framed.body@.held is None,
        chunk_bytes(bytes).len() > 0 ==> framed.body@.chunks == BodyChunks::Single(
            Some(chunk_bytes(bytes)),
        ),
        chunk_bytes(bytes).len() == 0 ==> framed.body@.chunks == BodyChunks::Buffered(Seq::empty()),
{
}

} // verus!
