//! Typed HTTP requests and responses, and who handles them.
use bytes::Bytes;
use http::HeaderMap;

use vstd::prelude::*;

use super::headers::{header_fields, no_headers};
use crate::address::IpAddr;
use crate::body::{yields, BodyChunks, BodyState, BodyStep, NacelleBody};
use crate::buffer::chunk_bytes;
use crate::error::NacelleError;
use crate::pipeline::{
    ConnectionContext, ConnectionInfo, Handler, LocalHandler, OptionalCompletion, OptionalResponder,
    RequestContext, RequiredCompletion, RequiredResponder, Respond,
};

verus! {

/// Typed application-facing HTTP request.
#[derive(Debug)]
pub struct HttpRequest {
    /// Request method.
    pub method: String,
    /// Request URI.
    pub uri: String,
    /// Request headers.
    pub headers: HeaderMap,
    /// Effective peer IP after trusted proxy processing.
    pub peer_ip: Option<IpAddr>,
    /// Bounded request body.
    pub body: NacelleBody,
}

impl HttpRequest {
    pub fn new(
        method: String,
        uri: String,
        headers: HeaderMap,
        peer_ip: Option<IpAddr>,
        body: NacelleBody,
    ) -> (request: Self)
        ensures
            request == (HttpRequest { method, uri, headers, peer_ip, body }),
    {
        Self { method, uri, headers, peer_ip, body }
    }

    /// Return the exact remaining size when known, or zero for streaming bodies.
    pub fn remaining_body_bytes(&self) -> (bytes: usize)
        ensures
            bytes == self.body@.remaining,
    {
        self.body.remaining_bytes()
    }

    /// What the request body yields next.
    pub fn next_body_chunk(&mut self) -> (step: BodyStep)
        ensures
            yields(old(self).body@, step, final(self).body@),
            *final(self) == (HttpRequest { body: final(self).body, ..*old(self) }),
    {
        self.body.next_chunk()
    }
}

/// Typed application-facing HTTP response.
#[derive(Debug)]
pub struct HttpResponse {
    /// Response status.
    pub status: u16,
    /// Response headers.
    pub headers: HeaderMap,
    /// Streaming response body.
    pub body: NacelleBody,
}

impl HttpResponse {
    /// Construct an HTTP response.
    pub fn new(status: u16, headers: HeaderMap, body: NacelleBody) -> (response: Self)
        ensures
            response == (HttpResponse { status, headers, body }),
    {
        Self { status, headers, body }
    }

    /// Construct a byte response without additional headers.
    pub fn bytes(status: u16, bytes: Bytes) -> (response: Self)
        ensures
            response.status == status,
            header_fields(response.headers) == Seq::<(Seq<u8>, Seq<u8>)>::empty(),
            response.body@ == (BodyState {
                chunks: if chunk_bytes(bytes).len() == 0 {
                    BodyChunks::Buffered(Seq::empty())
                } else {
                    BodyChunks::Single(Some(chunk_bytes(bytes)))
                },
                remaining: chunk_bytes(bytes).len(),
                held: None,
            }),
    {
        Self::new(status, no_headers(), NacelleBody::bytes(bytes))
    }

    /// Construct an empty response without additional headers.
    pub fn empty(status: u16) -> (response: Self)
        ensures
            response.status == status,
            header_fields(response.headers) == Seq::<(Seq<u8>, Seq<u8>)>::empty(),
            response.body@ == (BodyState {
                chunks: BodyChunks::Buffered(Seq::empty()),
                remaining: 0,
                held: None,
            }),
    {
        Self::new(status, no_headers(), NacelleBody::empty())
    }
}

/// Zero-allocation HTTP response capability.
#[derive(Debug, Clone, Copy, Default)]
pub struct HttpResponder;

/// Typed completion consumed by the transport.
#[must_use]
#[derive(Debug)]
pub struct HttpCompletion {
    response: HttpResponse,
}

impl HttpCompletion {
    pub closed spec fn answer(&self) -> HttpResponse {
        self.response
    }

    /// Recover the response.
    pub fn into_response(self) -> (response: HttpResponse)
        ensures
            response == self.answer(),
    {
        self.response
    }
}

impl Respond for HttpResponder {
    type Response = HttpResponse;

    type Completion = HttpCompletion;

    type Error = NacelleError;

    open spec fn can_respond(self, response: HttpResponse) -> bool {
        true
    }

    /// Responding always succeeds, with the response itself.
    open spec fn responds(
        self,
        response: HttpResponse,
        result: Result<HttpCompletion, NacelleError>,
    ) -> bool {
        result is Ok && result->Ok_0.answer() == response
    }

    fn respond(self, response: HttpResponse) -> (result: Result<HttpCompletion, NacelleError>) {
        Ok(HttpCompletion { response })
    }
}

/// Typed HTTP request context with concrete connection state.
pub type HttpRequestContext<State> = RequestContext<
    HttpRequest,
    RequiredResponder<HttpResponder>,
    (),
    ConnectionContext<State>,
>;

/// Successful completion required from a typed HTTP handler.
pub type HttpHandlerCompletion = RequiredCompletion<HttpCompletion>;

/// Worker-local HTTP request context with concrete connection state.
pub type LocalHttpRequestContext<State> = RequestContext<
    HttpRequest,
    RequiredResponder<HttpResponder>,
    (),
    ConnectionContext<State>,
>;

/// Statically dispatched typed HTTP handler.
pub trait HttpHandler<State>: Handler<
    HttpRequestContext<State>,
    Completion = HttpHandlerCompletion,
    Error = NacelleError,
> {

}

impl<State, H> HttpHandler<State> for H where
    H: Handler<
        HttpRequestContext<State>,
        Completion = HttpHandlerCompletion,
        Error = NacelleError,
    >,
 {

}

/// Worker-local HTTP handler for explicit thread-per-core execution.
pub trait LocalHttpHandler<State>: LocalHandler<
    LocalHttpRequestContext<State>,
    Completion = HttpHandlerCompletion,
    Error = NacelleError,
> {

}

impl<State, H> LocalHttpHandler<State> for H where
    H: LocalHandler<
        LocalHttpRequestContext<State>,
        Completion = HttpHandlerCompletion,
        Error = NacelleError,
    >,
 {

}

/// Constructs concrete state once for each accepted HTTP connection.
pub trait HttpConnectionStateFactory {
    /// State shared by requests on one keep-alive connection.
    type State;

    /// Whether the factory may make `state` for `connection`.
    ///
    /// An implementation that does not say leaves it open.
    open spec fn creates(&self, connection: ConnectionInfo, state: Self::State) -> bool {
        true
    }

    /// Construct state after accept/TLS handshake metadata is available.
    fn create(&self, connection: &ConnectionInfo) -> (state: Self::State)
        ensures
            self.creates(*connection, state),
    ;
}

/// Constructs worker-local state once for each accepted HTTP connection.
pub trait LocalHttpConnectionStateFactory {
    /// State shared locally by requests on one keep-alive connection.
    type State;

    /// Whether the factory may make `state` for `connection`.
    ///
    /// An implementation that does not say leaves it open.
    open spec fn creates(&self, connection: ConnectionInfo, state: Self::State) -> bool {
        true
    }

    /// Construct state after accept/TLS handshake metadata is available.
    fn create(&self, connection: &ConnectionInfo) -> (state: Self::State)
        ensures
            self.creates(*connection, state),
    ;
}

/// Default no-state HTTP connection factory.
#[derive(Debug, Clone, Copy, Default)]
pub struct NoHttpConnectionState;

impl HttpConnectionStateFactory for NoHttpConnectionState {
    type State = ();

    open spec fn creates(&self, connection: ConnectionInfo, state: ()) -> bool {
        true
    }

    fn create(&self, connection: &ConnectionInfo) -> (state: ()) {
    }
}

impl LocalHttpConnectionStateFactory for NoHttpConnectionState {
    type State = ();

    open spec fn creates(&self, connection: ConnectionInfo, state: ()) -> bool {
        true
    }

    fn create(&self, connection: &ConnectionInfo) -> (state: ()) {
    }
}

/// Calls a handler with a request on a connection.
pub fn dispatch<State, H: HttpHandler<State>>(
    handler: &H,
    request: HttpRequest,
    connection: ConnectionContext<State>,
) -> (result: Result<HttpHandlerCompletion, NacelleError>)
    requires
        forall|context: HttpRequestContext<State>|
            context.parts().0 == request && context.parts().3 == connection
                ==> #[trigger] handler.can_handle(context),
    ensures
        exists|context: HttpRequestContext<State>|
            {
                &&& #[trigger] handler.handles(context, result)
                &&& context.parts().0 == request
                &&& context.parts().1.inner() == HttpResponder
                &&& context.parts().3 == connection
            },
{
    let context = RequestContext::new(
        request,
        RequiredResponder::new(HttpResponder),
        (),
        connection,
    );
    handler.call(context)
}

/// Responding over HTTP completes with the response itself, through either kind of
/// responder.
pub proof fn law_responses_are_completed_with(
    response: HttpResponse,
    required: RequiredResponder<HttpResponder>,
    completed: Result<RequiredCompletion<HttpCompletion>, NacelleError>,
    optional: OptionalResponder<HttpResponder>,
    answered: Result<OptionalCompletion<HttpCompletion>, NacelleError>,
)
    requires
        required.responds(response, completed),
        optional.responds(response, answered),
    ensures
        completed matches Ok(completion) && completion.inner().answer() == response,
        answered matches Ok(completion) && completion.response() is Some
            && completion.response()->0.answer() == response,
{
}

/// A response of bytes has the status that it was given, no headers, and just those
/// bytes for its body.
pub proof fn law_byte_responses_hold_their_bytes(
    status: u16,
    bytes: Bytes,
    response: HttpResponse,
    empty: HttpResponse,
)
    requires
        call_ensures(HttpResponse::bytes, (status, bytes), response),
        call_ensures(HttpResponse::empty, (status,), empty),
    ensures
        response.status == status,
        empty.status == status,
        header_fields(response.headers).len() == 0,
        header_fields(empty.headers).len() == 0,
        response.body@.remaining == chunk_bytes(bytes).len(),
        chunk_bytes(bytes).len() > 0 ==> response.body@.chunks == BodyChunks::Single(
            Some(chunk_bytes(bytes)),
        ),
        empty.body@.remaining == 0,
{
}

} // verus!
