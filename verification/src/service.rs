//! The connection adapter: what stands between the protocol engine and the
//! request handler.

use std::sync::Arc;
use vstd::prelude::*;

verus! {

/// The status of the reply that stands in for a handler's failure.
pub const INTERNAL_SERVER_ERROR: u16 = 500;

/// A parsed request, as the protocol engine hands it over.
pub struct Request {
    pub method: String,
    pub path: String,
    pub headers: Vec<(String, String)>,
    pub body: Vec<u8>,
}

/// A response, as the protocol engine takes it.
pub struct Response {
    pub status: u16,
    pub headers: Vec<(String, String)>,
    pub body: Vec<u8>,
}

/// A handler's own account of why it produced no response.
pub struct HandlerFailure {
    pub reason: String,
}

/// What answers requests. One handler is shared by all the workers of a
/// pool, which call it at the same time from their own threads and never
/// change it: it takes `&self`, and it is `Send` and `Sync`.
pub trait Handler: Send + Sync {
    /// A response to `request`, or the reason why there is none.
    fn call(&self, request: &Request) -> Result<Response, HandlerFailure>;
}

impl Response {
    /// Whether the protocol engine can encode this response: its status is a
    /// three-digit code of one of the five classes.
    pub open spec fn well_formed(&self) -> bool {
        100 <= self.status <= 599
    }

    /// Whether this is the reply that stands in for a handler's failure.
    pub open spec fn is_failure_reply(&self) -> bool {
        &&& self.status == INTERNAL_SERVER_ERROR
        &&& self.headers@.len() == 0
        &&& self.body@.len() == 0
    }

    /// The reply that stands in for a handler's failure.
    pub fn failure() -> (r: Response)
        ensures
            r.is_failure_reply(),
            r.well_formed(),
    {
        Response { status: INTERNAL_SERVER_ERROR, headers: Vec::new(), body: Vec::new() }
    }
}

/// Whether a handler's outcome goes to the connection as it is: it is a
/// response, and a well-formed one.
pub open spec fn passes(outcome: Result<Response, HandlerFailure>) -> bool {
    outcome matches Ok(response) && response.well_formed()
}

/// What goes to the connection for a handler's outcome: its response, where it
/// gave a well-formed one, and the failure reply in every other case.
pub fn respond(outcome: Result<Response, HandlerFailure>) -> (reply: Response)
    ensures
        reply.well_formed(),
        passes(outcome) ==> outcome == Ok::<Response, HandlerFailure>(reply),
        !passes(outcome) ==> reply.is_failure_reply(),
{
    match outcome {
        Ok(response) => {
            if 100 <= response.status && response.status <= 599 {
                response
            } else {
                Response::failure()
            }
        },
        Err(_) => Response::failure(),
    }
}

/// A worker's connection adapter: a handle on the shared handler. A copy
/// shares the handler; it copies nothing of the handler's state.
pub struct Service<H> {
    handler: Arc<H>,
}

impl<H> Service<H> {
    /// The handler that this adapter calls.
    pub closed spec fn shared(&self) -> Arc<H> {
        self.handler
    }

    /// An adapter for `handler`.
    pub fn new(handler: Arc<H>) -> (service: Service<H>)
        ensures
            service.shared() == handler,
    {
        Service { handler }
    }

    /// The handler that this adapter calls.
    pub fn handler(&self) -> (handler: &H)
        ensures
            *handler == *self.shared(),
    {
        &*self.handler
    }
}

impl<H> Clone for Service<H> {
    /// Another handle on the same handler.
    fn clone(&self) -> (copy: Service<H>)
        ensures
            copy == *self,
    {
        Service { handler: self.handler.clone() }
    }
}

impl<H: Handler> Service<H> {
    /// Answers one request: calls the shared handler on `request` and settles
    /// what it returned as [`respond`] does. Whatever the handler does, the
    /// connection gets a well-formed response.
    pub fn call(&self, request: &Request) -> (reply: Response)
        ensures
            reply.well_formed(),
            exists|outcome: Result<Response, HandlerFailure>|
                {
                    &&& #[trigger] call_ensures(H::call, (&*self.shared(), request), outcome)
                    &&& passes(outcome) ==> outcome == Ok::<Response, HandlerFailure>(reply)
                    &&& !passes(outcome) ==> reply.is_failure_reply()
                },
    {
        let outcome = self.handler.call(request);
        assert(call_ensures(H::call, (&*self.shared(), request), outcome));
        respond(outcome)
    }
}

} // verus!
