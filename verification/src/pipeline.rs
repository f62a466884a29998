//! Statically dispatched request pipeline contracts.
//!
//! A transport enforces required completion by accepting only a handler whose
//! successful `Completion` is the corresponding [`RequiredCompletion`] or
//! [`OptionalCompletion`] token. Application code cannot construct those tokens
//! without consuming the responder. If a context is dropped instead, its
//! concrete responder is dropped; transport responders must treat that as
//! abandonment.
use std::marker::PhantomData;
use std::path::PathBuf;

use vstd::prelude::*;

use crate::address::{IpAddr, SocketAddr};
use crate::connection::{NacelleConnectionMeta, NacelleConnectionTlsMeta};
use crate::transport::NacelleTransport;

verus! {

/// Immutable transport metadata for one accepted connection.
#[derive(Debug)]
pub struct ConnectionInfo {
    /// Stable connection identifier.
    pub connection_id: u64,
    /// Transport that accepted the connection.
    pub transport: NacelleTransport,
    /// Configured listener label.
    pub listener: String,
    /// Remote socket address when available.
    pub peer_addr: Option<SocketAddr>,
    /// Effective remote IP when available.
    pub peer_ip: Option<IpAddr>,
    /// Local socket address when available.
    pub local_addr: Option<SocketAddr>,
    /// Local Unix socket path when available.
    pub local_path: Option<PathBuf>,
    /// Negotiated TLS metadata when TLS is active.
    pub tls: Option<NacelleConnectionTlsMeta>,
}

impl ConnectionInfo {
    /// The metadata of a connection.
    pub fn from(metadata: &NacelleConnectionMeta) -> (info: Self)
        ensures
            info == (ConnectionInfo {
                connection_id: metadata.connection_id,
                transport: metadata.transport,
                listener: metadata.listener,
                peer_addr: metadata.peer_addr,
                peer_ip: metadata.peer_ip,
                local_addr: metadata.local_addr,
                local_path: metadata.local_path,
                tls: metadata.tls,
            }),
    {
        let copy = metadata.clone();
        Self {
            connection_id: copy.connection_id,
            transport: copy.transport,
            listener: copy.listener,
            peer_addr: copy.peer_addr,
            peer_ip: copy.peer_ip,
            local_addr: copy.local_addr,
            local_path: copy.local_path,
            tls: copy.tls,
        }
    }
}

/// Stable connection metadata plus concrete connection-local state.
#[derive(Debug)]
pub struct ConnectionContext<State> {
    /// Immutable connection metadata.
    pub info: ConnectionInfo,
    /// Concrete state owned by this connection.
    pub state: State,
}

impl<State> ConnectionContext<State> {
    /// Construct a typed connection context.
    pub fn new(info: ConnectionInfo, state: State) -> (context: Self)
        ensures
            context == (ConnectionContext { info, state }),
    {
        Self { info, state }
    }

    /// Convert the connection state while preserving metadata.
    pub fn map_state<Mapped, Mapper: FnOnce(State) -> Mapped>(self, map: Mapper) -> (context:
        ConnectionContext<Mapped>)
        requires
            call_requires(map, (self.state,)),
        ensures
            context.info == self.info,
            call_ensures(map, (self.state,), context.state),
    {
        ConnectionContext { info: self.info, state: map(self.state) }
    }
}

/// Completes one request through its originating transport.
pub trait Respond: Sized {
    /// Transport-specific application response.
    type Response;

    /// Value returned to the transport after completion.
    type Completion;

    /// Completion failure.
    type Error;

    /// Whether the responder can take the response.
    ///
    /// An implementation that does not say leaves it open.
    open spec fn can_respond(self, response: Self::Response) -> bool {
        true
    }

    /// Whether responding may end with `result`.
    ///
    /// An implementation that does not say leaves it open.
    open spec fn responds(
        self,
        response: Self::Response,
        result: Result<Self::Completion, Self::Error>,
    ) -> bool {
        true
    }

    /// Consume this capability and complete the request exactly once.
    fn respond(self, response: Self::Response) -> (result: Result<Self::Completion, Self::Error>)
        requires
            self.can_respond(response),
        ensures
            self.responds(response, result),
    ;
}

/// A typed request with exclusive ownership of its completion capability.
///
/// `Connection` is normally a borrowed [`ConnectionContext`], allowing the
/// transport to retain connection state across requests. It can also be another
/// concrete handle when a transport has different sharing requirements. One-way
/// contexts cannot respond, and a responder accepts only its own response type.
#[must_use]
#[derive(Debug)]
pub struct RequestContext<Request, Responder, AppState, Connection> {
    request: Request,
    responder: Responder,
    app_state: AppState,
    connection: Connection,
}

impl<Request, Responder, AppState, Connection> RequestContext<
    Request,
    Responder,
    AppState,
    Connection,
> {
    /// The request, the responder, the application state and the connection.
    pub closed spec fn parts(&self) -> (Request, Responder, AppState, Connection) {
        (self.request, self.responder, self.app_state, self.connection)
    }

    /// Construct a context at the protocol/application boundary.
    pub fn new(
        request: Request,
        responder: Responder,
        app_state: AppState,
        connection: Connection,
    ) -> (context: Self)
        ensures
            context.parts() == (request, responder, app_state, connection),
    {
        Self { request, responder, app_state, connection }
    }

    /// Borrow the typed request.
    pub fn request(&self) -> (request: &Request)
        ensures
            *request == self.parts().0,
    {
        &self.request
    }

    /// Mutably borrow the typed request.
    pub fn request_mut(&mut self) -> (request: &mut Request)
        ensures
            *request == old(self).parts().0,
            final(self).parts() == (
                *final(request),
                old(self).parts().1,
                old(self).parts().2,
                old(self).parts().3,
            ),
    {
        &mut self.request
    }

    /// Borrow application state.
    pub fn app_state(&self) -> (state: &AppState)
        ensures
            *state == self.parts().2,
    {
        &self.app_state
    }

    /// Borrow the concrete connection access value.
    pub fn connection(&self) -> (connection: &Connection)
        ensures
            *connection == self.parts().3,
    {
        &self.connection
    }

    /// Mutably borrow the concrete connection access value.
    pub fn connection_mut(&mut self) -> (connection: &mut Connection)
        ensures
            *connection == old(self).parts().3,
            final(self).parts() == (
                old(self).parts().0,
                old(self).parts().1,
                old(self).parts().2,
                *final(connection),
            ),
    {
        &mut self.connection
    }

    /// Transform the concrete responder while preserving request and state.
    ///
    /// Response-aware middleware uses this to wrap transport completion without
    /// extracting or dynamically dispatching the underlying responder.
    pub fn map_responder<Mapped, Mapper: FnOnce(Responder) -> Mapped>(self, map: Mapper) -> (context:
        RequestContext<Request, Mapped, AppState, Connection>)
        requires
            call_requires(map, (self.parts().1,)),
        ensures
            context.parts().0 == self.parts().0,
            call_ensures(map, (self.parts().1,), context.parts().1),
            context.parts().2 == self.parts().2,
            context.parts().3 == self.parts().3,
    {
        RequestContext {
            request: self.request,
            responder: map(self.responder),
            app_state: self.app_state,
            connection: self.connection,
        }
    }
}

impl<Request, Responder: Respond, AppState, Connection> RequestContext<
    Request,
    Responder,
    AppState,
    Connection,
> {
    /// Complete the request through its originating transport.
    pub fn respond(self, response: Responder::Response) -> (result: Result<
        Responder::Completion,
        Responder::Error,
    >)
        requires
            self.parts().1.can_respond(response),
        ensures
            self.parts().1.responds(response, result),
    {
        self.responder.respond(response)
    }
}

/// Marker returned when a request completes without transport output.
#[must_use]
#[derive(Debug, Clone, Copy, PartialEq, Eq)]
pub struct Completed(());

/// Completion capability for a request that cannot produce a response.
#[must_use]
#[derive(Debug, Clone, Copy, Default)]
pub struct NoResponse;

impl<Request, AppState, Connection> RequestContext<Request, NoResponse, AppState, Connection> {
    /// Complete this one-way request without producing transport output.
    pub fn complete(self) -> (completion: Completed)
        ensures
            completion == completed(),
    {
        Completed(())
    }
}

/// The completion of a one-way request.
pub closed spec fn completed() -> Completed {
    Completed(())
}

/// Required response capability around a concrete transport responder.
///
/// The concrete inner responder should own a synchronous abandonment guard.
/// Dropping this value without responding must mark the request cancelled or
/// incomplete for the transport loop.
#[must_use]
#[derive(Debug)]
pub struct RequiredResponder<Inner>(Inner);

impl<Inner> RequiredResponder<Inner> {
    pub closed spec fn inner(&self) -> Inner {
        self.0
    }

    /// Require completion through this responder.
    pub fn new(inner: Inner) -> (responder: Self)
        ensures
            responder.inner() == inner,
    {
        Self(inner)
    }
}

/// Unforgeable successful completion of a required response.
#[must_use]
#[derive(Debug)]
pub struct RequiredCompletion<Inner>(Inner);

impl<Inner> RequiredCompletion<Inner> {
    pub closed spec fn inner(&self) -> Inner {
        self.0
    }

    /// Recover the transport-specific completion value.
    pub fn into_inner(self) -> (inner: Inner)
        ensures
            inner == self.inner(),
    {
        self.0
    }
}

impl<Inner: Respond> Respond for RequiredResponder<Inner> {
    type Response = Inner::Response;

    type Completion = RequiredCompletion<Inner::Completion>;

    type Error = Inner::Error;

    open spec fn can_respond(self, response: Self::Response) -> bool {
        self.inner().can_respond(response)
    }

    /// The inner responder's completion is wrapped; its error is passed on.
    open spec fn responds(
        self,
        response: Self::Response,
        result: Result<Self::Completion, Self::Error>,
    ) -> bool {
        match result {
            Ok(completion) => self.inner().responds(response, Ok(completion.inner())),
            Err(error) => self.inner().responds(response, Err(error)),
        }
    }

    fn respond(self, response: Self::Response) -> (result: Result<Self::Completion, Self::Error>) {
        match self.0.respond(response) {
            Ok(completion) => Ok(RequiredCompletion(completion)),
            Err(error) => Err(error),
        }
    }
}

/// Result of explicitly completing an optional response capability.
#[must_use]
#[derive(Debug)]
pub struct OptionalCompletion<ResponseCompletion>(Option<ResponseCompletion>);

impl<ResponseCompletion> OptionalCompletion<ResponseCompletion> {
    pub closed spec fn response(&self) -> Option<ResponseCompletion> {
        self.0
    }

    /// Return whether the request produced transport output.
    pub fn responded(&self) -> (responded: bool)
        ensures
            responded == (self.response() is Some),
    {
        self.0.is_some()
    }

    /// Recover the transport completion when a response was produced.
    pub fn into_response(self) -> (response: Option<ResponseCompletion>)
        ensures
            response == self.response(),
    {
        self.0
    }
}

/// Optional response capability around a concrete transport responder.
#[must_use]
#[derive(Debug)]
pub struct OptionalResponder<Inner>(Inner);

impl<Inner> OptionalResponder<Inner> {
    pub closed spec fn inner(&self) -> Inner {
        self.0
    }

    /// Allow either response or explicit silent completion.
    pub fn new(inner: Inner) -> (responder: Self)
        ensures
            responder.inner() == inner,
    {
        Self(inner)
    }
}

impl<Inner: Respond> Respond for OptionalResponder<Inner> {
    type Response = Inner::Response;

    type Completion = OptionalCompletion<Inner::Completion>;

    type Error = Inner::Error;

    open spec fn can_respond(self, response: Self::Response) -> bool {
        self.inner().can_respond(response)
    }

    /// The inner responder's completion is wrapped; its error is passed on.
    open spec fn responds(
        self,
        response: Self::Response,
        result: Result<Self::Completion, Self::Error>,
    ) -> bool {
        match result {
            Ok(completion) => completion.response() is Some && self.inner().responds(
                response,
                Ok(completion.response()->0),
            ),
            Err(error) => self.inner().responds(response, Err(error)),
        }
    }

    fn respond(self, response: Self::Response) -> (result: Result<Self::Completion, Self::Error>) {
        match self.0.respond(response) {
            Ok(completion) => Ok(OptionalCompletion(Some(completion))),
            Err(error) => Err(error),
        }
    }
}

impl<Request, Inner: Respond, AppState, Connection> RequestContext<
    Request,
    OptionalResponder<Inner>,
    AppState,
    Connection,
> {
    /// Complete this optional-response request without transport output.
    pub fn complete(self) -> (completion: OptionalCompletion<Inner::Completion>)
        ensures
            completion.response() is None,
    {
        OptionalCompletion(None)
    }
}

/// Handles one concrete request context on the shared multi-thread runtime.
pub trait Handler<Context>: Sized {
    /// Value returned to the transport after completion.
    type Completion;

    /// Request handling failure.
    type Error;

    /// Whether the handler can take the context.
    ///
    /// An implementation that does not say leaves it open.
    open spec fn can_handle(&self, context: Context) -> bool {
        true
    }

    /// Whether handling may end with `result`.
    ///
    /// An implementation that does not say leaves it open.
    open spec fn handles(
        &self,
        context: Context,
        result: Result<Self::Completion, Self::Error>,
    ) -> bool {
        true
    }

    /// Process one request.
    fn call(&self, context: Context) -> (result: Result<Self::Completion, Self::Error>)
        requires
            self.can_handle(context),
        ensures
            self.handles(context, result),
    ;
}

/// Handles one concrete request context on an explicitly local worker.
pub trait LocalHandler<Context>: Sized {
    /// Value returned to the transport after completion.
    type Completion;

    /// Request handling failure.
    type Error;

    /// Whether the handler can take the context.
    ///
    /// An implementation that does not say leaves it open.
    open spec fn can_handle(&self, context: Context) -> bool {
        true
    }

    /// Whether handling may end with `result`.
    ///
    /// An implementation that does not say leaves it open.
    open spec fn handles(
        &self,
        context: Context,
        result: Result<Self::Completion, Self::Error>,
    ) -> bool {
        true
    }

    /// Process one local request.
    fn call(&self, context: Context) -> (result: Result<Self::Completion, Self::Error>)
        requires
            self.can_handle(context),
        ensures
            self.handles(context, result),
    ;
}

/// Concrete shared-runtime handler created from a closure.
#[derive(Debug)]
pub struct HandlerFn<Function>(Function);

impl<Function> HandlerFn<Function> {
    pub closed spec fn function(&self) -> Function {
        self.0
    }
}

impl<Context, Completion, Error, Function> Handler<Context> for HandlerFn<Function> where
    Function: Fn(Context) -> Result<Completion, Error>,
 {
    type Completion = Completion;

    type Error = Error;

    open spec fn can_handle(&self, context: Context) -> bool {
        call_requires(self.function(), (context,))
    }

    open spec fn handles(&self, context: Context, result: Result<Completion, Error>) -> bool {
        call_ensures(self.function(), (context,), result)
    }

    fn call(&self, context: Context) -> (result: Result<Completion, Error>) {
        (self.0)(context)
    }
}

/// Create a concrete shared-runtime handler from a closure.
pub fn handler_fn<Function>(function: Function) -> (handler: HandlerFn<Function>)
    ensures
        handler.function() == function,
{
    HandlerFn(function)
}

/// Concrete worker-local handler created from a closure.
#[derive(Debug)]
pub struct LocalHandlerFn<Function>(Function);

impl<Function> LocalHandlerFn<Function> {
    pub closed spec fn function(&self) -> Function {
        self.0
    }
}

impl<Context, Completion, Error, Function> LocalHandler<Context> for LocalHandlerFn<Function> where
    Function: Fn(Context) -> Result<Completion, Error>,
 {
    type Completion = Completion;

    type Error = Error;

    open spec fn can_handle(&self, context: Context) -> bool {
        call_requires(self.function(), (context,))
    }

    open spec fn handles(&self, context: Context, result: Result<Completion, Error>) -> bool {
        call_ensures(self.function(), (context,), result)
    }

    fn call(&self, context: Context) -> (result: Result<Completion, Error>) {
        (self.0)(context)
    }
}

/// Create a concrete worker-local handler from a closure.
pub fn local_handler_fn<Function>(function: Function) -> (handler: LocalHandlerFn<Function>)
    ensures
        handler.function() == function,
{
    LocalHandlerFn(function)
}

/// Constructs one statically nested middleware layer.
pub trait Layer<Inner>: Sized {
    /// Concrete middleware service produced by this layer.
    type Service;

    /// Whether layering may produce `service`.
    ///
    /// An implementation that does not say leaves it open.
    open spec fn layers(self, inner: Inner, service: Self::Service) -> bool {
        true
    }

    /// Wrap a concrete inner handler.
    fn layer(self, inner: Inner) -> (service: Self::Service)
        ensures
            self.layers(inner, service),
    ;
}

/// Concrete responder that maps an application response before completion.
#[derive(Debug)]
pub struct MapResponse<Inner, Mapper, Response> {
    inner: Inner,
    map: Mapper,
    response: PhantomData<Response>,
}

impl<Inner, Mapper, Response> MapResponse<Inner, Mapper, Response> {
    pub closed spec fn inner(&self) -> Inner {
        self.inner
    }

    pub closed spec fn mapping(&self) -> Mapper {
        self.map
    }

    /// Wrap a responder with a synchronous response transformation.
    pub fn new(inner: Inner, map: Mapper) -> (responder: Self)
        ensures
            responder.inner() == inner,
            responder.mapping() == map,
    {
        Self { inner, map, response: PhantomData }
    }
}

impl<Inner: Respond, Mapper, Response> Respond for MapResponse<Inner, Mapper, Response> where
    Mapper: FnOnce(Response) -> Inner::Response,
 {
    type Response = Response;

    type Completion = Inner::Completion;

    type Error = Inner::Error;

    /// The mapping takes the response, and the inner responder whatever comes of it.
    open spec fn can_respond(self, response: Response) -> bool {
        &&& call_requires(self.mapping(), (response,))
        &&& forall|mapped: Inner::Response| #[trigger]
            call_ensures(self.mapping(), (response,), mapped) ==> self.inner().can_respond(mapped)
    }

    /// The inner responder completes with the mapped response.
    open spec fn responds(
        self,
        response: Response,
        result: Result<Self::Completion, Self::Error>,
    ) -> bool {
        exists|mapped: Inner::Response| #[trigger]
            call_ensures(self.mapping(), (response,), mapped) && self.inner().responds(
                mapped,
                result,
            )
    }

    fn respond(self, response: Response) -> (result: Result<Self::Completion, Self::Error>) {
        let mapped = (self.map)(response);
        assert(call_ensures(self.mapping(), (response,), mapped));
        self.inner.respond(mapped)
    }
}

/// What a handler is told of a connection is what is known of it.
pub proof fn law_handlers_are_told_what_is_known(meta: NacelleConnectionMeta, info: ConnectionInfo)
    requires
        call_ensures(ConnectionInfo::from, (&meta,), info),
    ensures
        info.connection_id == meta.connection_id,
        info.transport == meta.transport,
        info.listener@ == meta.listener@,
        info.peer_addr == meta.peer_addr,
        info.peer_ip == meta.peer_ip,
        info.local_addr == meta.local_addr,
        info.local_path == meta.local_path,
        info.tls == meta.tls,
{
}

} // verus!
