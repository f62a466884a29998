use std::convert::Infallible;
use std::rc::Rc;
use std::sync::Arc;

use nacelle::connection::{ConnectionIds, NacelleConnectionMeta};
use nacelle::pipeline::{
    handler_fn, local_handler_fn, ConnectionContext, ConnectionInfo, Handler, Layer, LocalHandler,
    MapResponse, NoResponse, OptionalResponder, RequestContext, RequiredCompletion, RequiredResponder,
    Respond,
};

struct TestResponder;

impl Respond for TestResponder {
    type Response = u64;
    type Completion = u64;
    type Error = Infallible;

    fn respond(self, response: u64) -> Result<u64, Infallible> {
        Ok(response)
    }
}

struct BorrowingHandler;

type Borrowed<'connection> = RequestContext<
    u64,
    RequiredResponder<TestResponder>,
    (),
    &'connection mut ConnectionContext<u64>,
>;

impl<'connection> LocalHandler<Borrowed<'connection>> for BorrowingHandler {
    type Completion = RequiredCompletion<u64>;
    type Error = Infallible;

    fn call(&self, mut context: Borrowed<'connection>) -> Result<Self::Completion, Self::Error> {
        context.connection_mut().state += 1;
        let response = context.request() + context.connection().state;
        context.respond(response)
    }
}

fn connection<State>(state: State) -> ConnectionContext<State> {
    ConnectionContext::new(
        ConnectionInfo::from(&NacelleConnectionMeta::tcp(
            &mut ConnectionIds::default(),
            None,
            None,
        )),
        state,
    )
}

#[test]
fn required_responder_completes_once() {
    let context = RequestContext::new(5, RequiredResponder::new(TestResponder), (), connection(()));

    let completion = context.respond(7).expect("infallible response");

    assert_eq!(completion.into_inner(), 7);
}

#[test]
fn optional_and_one_way_requests_complete_without_output() {
    let optional = RequestContext::new(5, OptionalResponder::new(TestResponder), (), connection(()));
    let one_way = RequestContext::new(5, NoResponse, (), connection(()));

    assert!(!optional.complete().responded());
    let completion = one_way.complete();
    assert_eq!(std::mem::size_of_val(&completion), 0);
}

#[test]
fn optional_requests_may_respond() {
    let optional = RequestContext::new(5, OptionalResponder::new(TestResponder), (), connection(()));

    let completion = optional.respond(9).expect("infallible response");

    assert!(completion.responded());
    assert_eq!(completion.into_response(), Some(9));
}

type Shared<AppState> =
    RequestContext<u64, RequiredResponder<TestResponder>, AppState, ConnectionContext<()>>;

#[test]
fn shared_handler_accepts_send_state() {
    let handler = handler_fn(|context: Shared<Arc<str>>| {
        let response = context.request() + context.app_state().len() as u64;
        context.respond(response)
    });
    let context = RequestContext::new(
        5,
        RequiredResponder::new(TestResponder),
        Arc::<str>::from("state"),
        connection(()),
    );

    let completion = handler.call(context).expect("infallible response");

    assert_eq!(completion.into_inner(), 10);
}

#[test]
fn request_borrows_connection_state_without_consuming_it() {
    let mut connection = connection(10_u64);
    let context = RequestContext::new(
        5,
        RequiredResponder::new(TestResponder),
        (),
        &mut connection,
    );

    let completion = BorrowingHandler.call(context).expect("infallible response");

    assert_eq!(completion.into_inner(), 16);
    assert_eq!(connection.state, 11);
}

#[test]
fn local_handler_accepts_non_send_state() {
    let handler = local_handler_fn(|context: Shared<Rc<str>>| {
        let response = context.request() + context.app_state().len() as u64;
        context.respond(response)
    });
    let context = RequestContext::new(
        5,
        RequiredResponder::new(TestResponder),
        Rc::<str>::from("local"),
        connection(()),
    );

    let completion = handler.call(context).expect("infallible response");

    assert_eq!(completion.into_inner(), 10);
}

#[test]
fn response_middleware_maps_without_exposing_transport_responder() {
    let context = RequestContext::new(
        5_u64,
        RequiredResponder::new(TestResponder),
        (),
        connection(()),
    )
    .map_responder(|responder| MapResponse::new(responder, |response: u32| u64::from(response) + 1));

    let completion = context.respond(6_u32).expect("infallible response");

    assert_eq!(completion.into_inner(), 7);
}

#[test]
fn connection_state_is_mapped_and_requests_are_mutable() {
    let mapped = connection(4_u8).map_state(|state| u32::from(state) * 2);
    assert_eq!(mapped.state, 8);
    let mut context = RequestContext::new(1, NoResponse, (), mapped);
    *context.request_mut() += 2;
    assert_eq!(*context.request(), 3);
    assert_eq!(context.connection().state, 8);
}

struct Doubling;

impl Layer<u32> for Doubling {
    type Service = u32;

    fn layer(self, inner: u32) -> u32 {
        inner * 2
    }
}

#[test]
fn layers_wrap_services() {
    assert_eq!(Doubling.layer(21), 42);
}
