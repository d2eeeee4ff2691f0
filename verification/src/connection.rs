//! Per-connection processing: decode one request, dispatch it through the
//! router, encode exactly one response. The listening socket, the accept
//! loop and the worker threads live outside this crate; they hand each
//! accepted connection's bytes in and write the returned bytes back.

use std::sync::Arc;
use vstd::prelude::*;

use crate::protocol::{
    encode_spec,
    headers_model,
    parse_spec,
    ParseModel,
    ParseResult,
    parse_request,
    RespModel,
    Response,
};
use crate::router::{Handler, HelixRouter, lookup_route, RouteError};
use crate::thread_pool::ThreadPool;

verus! {

/// The response sent when the request bytes could not be decoded.
pub open spec fn bad_request_model() -> RespModel {
    RespModel { status: 400, headers: Seq::empty(), body: Seq::empty() }
}

/// The response sent when no route matches the request.
pub open spec fn not_found_model() -> RespModel {
    RespModel { status: 404, headers: Seq::empty(), body: Seq::empty() }
}

/// The response sent when the matched handler failed.
pub open spec fn server_error_model() -> RespModel {
    RespModel { status: 500, headers: Seq::empty(), body: Seq::empty() }
}

/// A response with the given status and no headers or body.
fn status_response(status: u16) -> (r: Response)
    ensures
        r@ == (RespModel { status: status as int, headers: Seq::empty(), body: Seq::empty() }),
{
    let r = Response { status, headers: Vec::new(), body: Vec::new() };
    proof {
        assert(headers_model(r.headers@) =~= Seq::<(Seq<u8>, Seq<u8>)>::empty());
        assert(r@ =~= (RespModel {
            status: status as int,
            headers: Seq::empty(),
            body: Seq::empty(),
        }));
    }
    r
}

/// Decides what is sent for each dispatch outcome: the handler-built
/// response on success, the default "not found" response when no route
/// matched, and the default server-error response when the handler failed —
/// a half-built success is discarded rather than sent.
pub fn response_for_outcome(outcome: Result<(), RouteError>, built: Response) -> (out: Response)
    ensures
        outcome is Ok ==> out == built,
        (outcome matches Err(RouteError::NotFound)) ==> out@ == not_found_model(),
        (outcome matches Err(RouteError::Handler(_))) ==> out@ == server_error_model(),
{
    match outcome {
        Ok(()) => built,
        Err(RouteError::NotFound) => status_response(404),
        Err(RouteError::Handler(_)) => status_response(500),
    }
}

/// Processes one connection's request bytes and yields the exact response
/// bytes to write back. `input` is everything the connection delivered: a
/// buffer that decodes to a request is dispatched; anything else — malformed
/// bytes, or a stream that ended before the request was complete — gets the
/// default bad-request response.
pub fn process_connection<E, H: Handler<E>>(
    router: &HelixRouter<H>,
    graph: &E,
    input: &[u8],
) -> (out: Vec<u8>)
    ensures
        !(parse_spec(input@) is Complete) ==> out@ == encode_spec(bad_request_model()),
        (parse_spec(input@) matches ParseModel::Complete(req) && lookup_route(
            router.routes@,
            req.method,
            req.path,
        ) is None) ==> out@ == encode_spec(not_found_model()),
        exists|m: RespModel| out@ == encode_spec(m),
{
    let mut out: Vec<u8> = Vec::new();
    match parse_request(input) {
        ParseResult::Complete(request) => {
            let mut response = Response::new();
            let outcome = router.handle(graph, request, &mut response);
            let sent = response_for_outcome(outcome, response);
            sent.send(&mut out);
            proof {
                assert(out@ =~= encode_spec(sent@));
            }
        },
        _ => {
            let sent = status_response(400);
            sent.send(&mut out);
            proof {
                assert(out@ =~= encode_spec(bad_request_model()));
            }
        },
    }
    out
}

/// Owns what serves connections: the bound address, and the pool that the
/// accept loop submits each accepted connection to. The socket itself is
/// bound and accepted outside this crate.
pub struct ConnectionHandler<E, H, J> {
    pub address: String,
    pub pool: ThreadPool<E, H, J>,
}

impl<E, H, J> ConnectionHandler<E, H, J> {
    /// A handler for `address` over a fresh pool of `size` workers sharing
    /// `graph` and `router`. A zero-size pool is rejected before this is
    /// called.
    pub fn new(address: &str, graph: Arc<E>, size: usize, router: HelixRouter<H>) -> (r:
        ConnectionHandler<E, H, J>)
        requires
            size >= 1,
        ensures
            r.address@ == address@,
            r.pool.wf(),
            r.pool.spec_total() == size,
            r.pool.spec_busy() == 0,
            r.pool.spec_idle() == size,
            r.pool.spec_jobs() == Seq::<J>::empty(),
            r.pool.spec_graph() == graph,
            r.pool.spec_router() == router,
    {
        let pool = ThreadPool::new(size, graph, Arc::new(router));
        ConnectionHandler { address: String::from_str(address), pool }
    }
}

} // verus!
