//! The routing table: an immutable-after-setup mapping from exact
//! (method, path) keys to handlers, with a default "not found" outcome.

use vstd::prelude::*;

use crate::protocol::{Request, Response};
use crate::protocol::bytes_eq;
use crate::types::GraphError;

verus! {

/// Caller-supplied logic bound to a route. A handler is given the shared
/// engine handle, the decoded request, and a response to populate.
pub trait Handler<E> {
    /// Populates `response` for `request`, or fails with the handler's error.
    fn call(&self, graph: &E, request: &Request, response: &mut Response) -> Result<
        (),
        GraphError,
    >;
}

/// Why dispatch did not succeed: no route matched, or the matched handler
/// itself failed.
#[derive(Debug)]
pub enum RouteError {
    NotFound,
    Handler(GraphError),
}

/// One registered route.
pub struct Route<H> {
    pub method: Vec<u8>,
    pub path: Vec<u8>,
    pub handler: H,
}

/// Index of the first route at or after `j` whose key is exactly (m, p).
pub open spec fn find_route<H>(rs: Seq<Route<H>>, m: Seq<u8>, p: Seq<u8>, j: int) -> Option<int>
    decreases rs.len() - j,
{
    if j < 0 || j >= rs.len() {
        None
    } else if rs[j].method@ == m && rs[j].path@ == p {
        Some(j)
    } else {
        find_route(rs, m, p, j + 1)
    }
}

/// The route registered under (m, p), if any.
pub open spec fn lookup_route<H>(rs: Seq<Route<H>>, m: Seq<u8>, p: Seq<u8>) -> Option<Route<H>> {
    match find_route(rs, m, p, 0) {
        Some(i) => Some(rs[i]),
        None => None,
    }
}

/// Registration: a route whose key is already present replaces that entry in
/// place; a new key is appended. The last registration wins.
pub open spec fn upsert_route<H>(rs: Seq<Route<H>>, e: Route<H>) -> Seq<Route<H>> {
    match find_route(rs, e.method@, e.path@, 0) {
        Some(i) => rs.update(i, e),
        None => rs.push(e),
    }
}

/// Registering the routes of `es` in order, starting from table `rs`.
pub open spec fn insert_all<H>(rs: Seq<Route<H>>, es: Seq<Route<H>>) -> Seq<Route<H>>
    decreases es.len(),
{
    if es.len() == 0 {
        rs
    } else {
        insert_all(upsert_route(rs, es[0]), es.remove(0))
    }
}

/// The dispatch table. Built before the gateway starts serving; read-only
/// thereafter.
pub struct HelixRouter<H> {
    pub routes: Vec<Route<H>>,
}

/// Finds the first route with key (method, path).
fn find_route_exec<H>(routes: &Vec<Route<H>>, method: &[u8], path: &[u8]) -> (r: Option<usize>)
    ensures
        (match r {
            Some(i) => find_route(routes@, method@, path@, 0) == Some(i as int) && i
                < routes@.len(),
            None => find_route(routes@, method@, path@, 0) is None,
        }),
{
    let n = routes.len();
    let mut i: usize = 0;
    while i < n
        invariant
            i <= n,
            n == routes@.len(),
            find_route(routes@, method@, path@, 0) == find_route(
                routes@,
                method@,
                path@,
                i as int,
            ),
        decreases n - i,
    {
        if bytes_eq(routes[i].method.as_slice(), method) && bytes_eq(
            routes[i].path.as_slice(),
            path,
        ) {
            return Some(i);
        }
        i = i + 1;
    }
    None
}

impl<H> HelixRouter<H> {
    /// A router holding the given routes, registered in order (so a later
    /// duplicate key wins), or an empty table.
    pub fn new(routes: Option<Vec<Route<H>>>) -> (r: HelixRouter<H>)
        ensures
            r.routes@ == (match routes {
                Some(v) => insert_all(Seq::<Route<H>>::empty(), v@),
                None => Seq::<Route<H>>::empty(),
            }),
    {
        let mut r = HelixRouter { routes: Vec::new() };
        match routes {
            None => r,
            Some(mut entries) => {
                let ghost orig = entries@;
                proof {
                    assert(insert_all(r.routes@, entries@) == insert_all(
                        Seq::<Route<H>>::empty(),
                        orig,
                    ));
                }
                while entries.len() > 0
                    invariant
                        insert_all(r.routes@, entries@) == insert_all(
                            Seq::<Route<H>>::empty(),
                            orig,
                        ),
                    decreases entries@.len(),
                {
                    let e = entries.remove(0);
                    let Route { method, path, handler } = e;
                    r.add_route(method, path, handler);
                }
                r
            },
        }
    }

    /// Registers `handler` under the exact key (method, path), overwriting
    /// any prior handler at that key.
    pub fn add_route(&mut self, method: Vec<u8>, path: Vec<u8>, handler: H)
        ensures
            final(self).routes@ == upsert_route(
                old(self).routes@,
                (Route { method, path, handler }),
            ),
    {
        let ghost e = Route { method, path, handler };
        match find_route_exec(&self.routes, method.as_slice(), path.as_slice()) {
            Some(i) => {
                self.routes.remove(i);
                self.routes.insert(i, Route { method, path, handler });
                proof {
                    assert(self.routes@ =~= old(self).routes@.update(i as int, e));
                }
            },
            None => {
                self.routes.push(Route { method, path, handler });
            },
        }
    }

    /// Looks up (request.method, request.path) exactly; invokes the matching
    /// handler and returns its result unchanged, or reports that no route
    /// matched, leaving the response untouched.
    pub fn handle<E>(&self, graph: &E, request: Request, response: &mut Response) -> (r: Result<
        (),
        RouteError,
    >) where H: Handler<E>
        ensures
            (r matches Err(RouteError::NotFound)) <==> lookup_route(
                self.routes@,
                request.method@,
                request.path@,
            ) is None,
            lookup_route(self.routes@, request.method@, request.path@) is None ==> *final(response)
                == *old(response),
    {
        match find_route_exec(&self.routes, request.method.as_slice(), request.path.as_slice()) {
            None => Err(RouteError::NotFound),
            Some(i) => match self.routes[i].handler.call(graph, &request, response) {
                Ok(()) => Ok(()),
                Err(e) => Err(RouteError::Handler(e)),
            },
        }
    }
}

// ---------------------------------------------------------------------------
// The registration/lookup law
// ---------------------------------------------------------------------------

/// A found route lies in range and its key matches exactly.
proof fn lemma_find_route_some<H>(rs: Seq<Route<H>>, m: Seq<u8>, p: Seq<u8>, j: int)
    ensures
        find_route(rs, m, p, j) matches Some(i) ==> j <= i < rs.len() && rs[i].method@ == m
            && rs[i].path@ == p,
    decreases rs.len() - j,
{
    if !(j < 0 || j >= rs.len()) && !(rs[j].method@ == m && rs[j].path@ == p) {
        lemma_find_route_some(rs, m, p, j + 1);
    }
}

/// Replacing an entry whose key is neither (m, p) nor the new entry's key
/// leaves lookups for (m, p) unchanged.
proof fn lemma_find_route_update_other<H>(
    rs: Seq<Route<H>>,
    i: int,
    e: Route<H>,
    m: Seq<u8>,
    p: Seq<u8>,
    j: int,
)
    requires
        0 <= i < rs.len(),
        !(rs[i].method@ == m && rs[i].path@ == p),
        !(e.method@ == m && e.path@ == p),
    ensures
        find_route(rs.update(i, e), m, p, j) == find_route(rs, m, p, j),
    decreases rs.len() - j,
{
    if !(j < 0 || j >= rs.len()) {
        lemma_find_route_update_other(rs, i, e, m, p, j + 1);
    }
}

/// Replacing the first entry that matches the new entry's key keeps it the
/// first match.
proof fn lemma_find_route_update_same<H>(rs: Seq<Route<H>>, i: int, e: Route<H>, j: int)
    requires
        0 <= j,
        find_route(rs, e.method@, e.path@, j) == Some(i),
    ensures
        find_route(rs.update(i, e), e.method@, e.path@, j) == Some(i),
    decreases rs.len() - j,
{
    lemma_find_route_some(rs, e.method@, e.path@, j);
    if rs[j].method@ == e.method@ && rs[j].path@ == e.path@ {
        assert(i == j);
    } else {
        lemma_find_route_update_same(rs, i, e, j + 1);
    }
}

/// Appending an entry changes a lookup only when nothing matched before and
/// the new entry's key matches.
proof fn lemma_find_route_push<H>(rs: Seq<Route<H>>, e: Route<H>, m: Seq<u8>, p: Seq<u8>, j: int)
    requires
        0 <= j,
    ensures
        find_route(rs.push(e), m, p, j) == (match find_route(rs, m, p, j) {
            Some(i) => Some(i),
            None => if e.method@ == m && e.path@ == p && j <= rs.len() {
                Some(rs.len() as int)
            } else {
                None
            },
        }),
    decreases rs.len() + 1 - j,
{
    if j < rs.len() {
        assert(rs.push(e)[j] == rs[j]);
        if !(rs[j].method@ == m && rs[j].path@ == p) {
            lemma_find_route_push(rs, e, m, p, j + 1);
        }
    } else if j == rs.len() {
        assert(rs.push(e)[j] == e);
        assert(find_route(rs, m, p, j) is None);
        if e.method@ == m && e.path@ == p {
            assert(find_route(rs.push(e), m, p, j) == Some(j));
        } else {
            assert(find_route(rs.push(e), m, p, j + 1) is None);
        }
    }
}

/// Law: after registering a route, looking up that exact key yields the
/// newly registered route, and looking up any other key yields exactly what
/// it yielded before the registration.
pub proof fn lemma_register_then_lookup<H>(rs: Seq<Route<H>>, e: Route<H>, m: Seq<u8>, p: Seq<u8>)
    ensures
        m == e.method@ && p == e.path@ ==> lookup_route(upsert_route(rs, e), m, p) == Some(e),
        !(m == e.method@ && p == e.path@) ==> lookup_route(upsert_route(rs, e), m, p)
            == lookup_route(rs, m, p),
{
    lemma_find_route_some(rs, e.method@, e.path@, 0);
    lemma_find_route_some(rs, m, p, 0);
    match find_route(rs, e.method@, e.path@, 0) {
        Some(i) => {
            if m == e.method@ && p == e.path@ {
                lemma_find_route_update_same(rs, i, e, 0);
            } else {
                lemma_find_route_update_other(rs, i, e, m, p, 0);
                lemma_find_route_some(rs.update(i, e), m, p, 0);
            }
        },
        None => {
            lemma_find_route_push(rs, e, m, p, 0);
        },
    }
}

} // verus!
