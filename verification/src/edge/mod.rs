//! The HTTP edge: what is checked, counted and answered around a request.
pub mod ascii;
pub mod deadline;
pub mod forwarded;
pub mod headers;
pub mod laws;
pub mod limits;
pub mod message;
pub mod policy;
pub mod pump;
pub mod runtime;

pub use self::limits::NacelleHttpLimits;
pub use self::message::{
    HttpCompletion, HttpConnectionStateFactory, HttpHandler, HttpHandlerCompletion, HttpRequest,
    HttpRequestContext, HttpResponder, HttpResponse, LocalHttpConnectionStateFactory, LocalHttpHandler,
    LocalHttpRequestContext, NoHttpConnectionState,
};
pub use self::policy::NacelleHttpPolicy;
pub use self::runtime::{HttpRuntime, LocalHttpSharedState};
