//! The request-handler extension point: the acceptor invokes a pluggable
//! handler once per accepted connection and knows nothing of what it does.

use vstd::prelude::*;

verus! {

/// The request side of one accepted connection, as the handler sees it.
/// Framing and protocol semantics are the handler's business, not the
/// acceptor's.
pub struct Request {}

/// The response sink paired with a request, scoped to one connection.
pub struct Response {}

/// The abstract capability the acceptor dispatches to: one invocation per
/// accepted connection, with a request/response pair scoped to it. Both
/// stateless functions and stateful objects can implement it.
pub trait HandlesRequests {
    fn handle_request(&self, req: Request, res: Response);
}

/// The default handler: accepts the request and leaves the response alone.
/// Connection handling logic is deliberately out of the acceptor's scope;
/// this is the stub a concrete server replaces.
pub fn handle_request(req: &Request, res: &Response) {
}

/// The default handler as a pluggable value.
pub struct NullHandler {}

impl HandlesRequests for NullHandler {
    fn handle_request(&self, req: Request, res: Response) {
    }
}

} // verus!
