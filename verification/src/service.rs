//! What serving a request yields: either a pending handler invocation for
//! the surrounding server loop to drive, or a response the router
//! synthesized itself.

use vstd::prelude::*;
use crate::context::RouteContext;

verus! {

/// A response as the dispatch engine sees it: a status code and a body the
/// core never inspects. The only response the router itself synthesizes is
/// the not-found response.
pub struct Response<B> {
    pub status: u16,
    pub body: B,
}

/// The outcome of dispatching one request: the selected handler together
/// with the freshly built context of the matched route, or a synthesized
/// response when no handler serves the request.
pub enum Dispatch<H, D, B> {
    Invoke { handler: H, ctx: RouteContext<D> },
    Respond { response: Response<B> },
}

} // verus!
