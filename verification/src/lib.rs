//! A verified gateway core: a wire-protocol codec that decodes requests and
//! encodes responses byte-exactly, an exact-match routing table, a
//! fixed-capacity worker-pool model with strict accounting invariants, and the
//! per-connection dispatch logic that ties them together.
//!
//! All socket, thread and process work lives outside this crate; the crate
//! works on plain byte buffers and state values, and every function carries a
//! contract that Verus has checked.

pub mod connection;
pub mod protocol;
pub mod router;
pub mod thread_pool;
pub mod types;

use std::sync::Arc;
use vstd::prelude::*;

use crate::connection::ConnectionHandler;
use crate::router::{HelixRouter, insert_all, Route};

verus! {

/// Configuration defaults for the gateway.
pub struct GatewayOpts {}

impl GatewayOpts {
    /// How many workers a gateway runs when the operator does not choose.
    pub const DEFAULT_POOL_SIZE: usize = 10;
}

/// The assembled gateway: the connection handler owning the pool, the
/// router, and the shared engine handle.
pub struct HelixGateway<E, H, J> {
    pub connection_handler: ConnectionHandler<E, H, J>,
}

impl<E, H, J> HelixGateway<E, H, J> {
    /// A gateway for `address` with a pool of `size` workers and the given
    /// routes, registered in order so that a later duplicate key wins. A
    /// zero-size pool is rejected before this is called.
    pub fn new(
        address: &str,
        graph: Arc<E>,
        size: usize,
        routes: Option<Vec<Route<H>>>,
    ) -> (g: HelixGateway<E, H, J>)
        requires
            size >= 1,
        ensures
            g.connection_handler.address@ == address@,
            g.connection_handler.pool.wf(),
            g.connection_handler.pool.spec_total() == size,
            g.connection_handler.pool.spec_busy() == 0,
            g.connection_handler.pool.spec_idle() == size,
            g.connection_handler.pool.spec_jobs() == Seq::<J>::empty(),
            g.connection_handler.pool.spec_graph() == graph,
            g.connection_handler.pool.spec_router().routes@ == (match routes {
                Some(v) => insert_all(Seq::<Route<H>>::empty(), v@),
                None => Seq::<Route<H>>::empty(),
            }),
    {
        let router = HelixRouter::new(routes);
        let connection_handler = ConnectionHandler::new(address, graph, size, router);
        HelixGateway { connection_handler }
    }
}

} // verus!
