//! Dispatch by method and path, and the bookkeeping that lets a router
//! mounted under another one see only the part of the path left to it.
use vstd::prelude::*;
use vstd::string::StringSliceAdditionalSpecFns;
use vstd::utf8::{encode_utf8, is_char_boundary};

use crate::matcher::{
    is_supported_pattern, match_view, new_table, pattern_accepted, pattern_supported,
    routes_supported, table_add, table_best_match, table_routes, wildcard_end, wildcard_end_of,
    best_match_of, MatchView, Route,
};
use crate::method::{Method, METHOD_COUNT};
use crate::request::{Captures, Request};

verus! {

/// Why a route could not be registered.
#[derive(Clone, Copy, Debug, PartialEq, Eq, Structural)]
pub enum RouteError {
    /// The pattern is not ASCII, or has a `*` that is followed by more than slashes.
    Unsupported,
    /// The matcher does not parse the pattern.
    Invalid,
}

/// What a router decided for a request.
#[derive(Clone, Copy, Debug, PartialEq, Eq, Structural)]
pub enum Dispatch {
    /// Nothing matched: hand the request on to the rest of the chain.
    Next,
    /// Run the handler with this number, then the rest of the chain after it.
    Handle(usize),
}

/// A table of routes for each method. Handlers are referred to by number;
/// whoever runs the chain keeps the handlers themselves.
pub struct Router {
    tables: Vec<crate::matcher::RouteTable<usize>>,
}

/// The offset a request carries, with a fresh request at offset 0.
pub open spec fn offset_of<B>(req: Request<B>) -> int {
    match req.matched_path {
        Some(n) => n as int,
        None => 0,
    }
}

/// The part of the path that is left to a router, when the offset falls on
/// a character boundary.
pub open spec fn effective_path(path: Seq<u8>, offset: int) -> Option<Seq<u8>> {
    if offset <= path.len() && is_char_boundary(path, offset) {
        Some(path.subrange(offset, path.len() as int))
    } else {
        None
    }
}

/// The offset recorded after a match: where the wildcard's capture begins
/// in the full path, or the full length when the pattern had no wildcard.
pub open spec fn next_offset(path: Seq<u8>, offset: int, m: MatchView) -> int {
    match m.2 {
        Some(w) => offset + wildcard_end(path.subrange(offset, path.len() as int))
            - encode_utf8(w).len(),
        None => path.len() as int,
    }
}

/// The outcome of `route` on a router, over the routes before and after.
pub open spec fn registered(
    before: Router,
    after: Router,
    method: Method,
    pattern: Seq<char>,
    handler: usize,
    r: Result<(), RouteError>,
) -> bool {
    &&& after.wf()
    &&& r == Err::<(), RouteError>(RouteError::Unsupported) <==> !pattern_supported(
        encode_utf8(pattern),
    )
    &&& r == Err::<(), RouteError>(RouteError::Invalid) <==> pattern_supported(
        encode_utf8(pattern),
    ) && !pattern_accepted(pattern)
    &&& r is Ok ==> after.routes(method) == before.routes(method).push((pattern, handler))
    &&& r is Err ==> after.routes(method) == before.routes(method)
    &&& forall|m: Method| m != method ==> after.routes(m) == before.routes(m)
}

impl Router {
    /// One table per method, every pattern in it one the matcher handles.
    pub closed spec fn wf(&self) -> bool {
        &&& self.tables@.len() == METHOD_COUNT
        &&& forall|i: int| 0 <= i < METHOD_COUNT ==> routes_supported(table_routes(#[trigger] self.tables@[i]))
    }

    /// The routes registered under a method, in registration order.
    pub closed spec fn routes(&self, m: Method) -> Seq<Route> {
        table_routes(self.tables@[m.spec_index() as int])
    }

    /// The match this router finds for a request, if any.
    pub open spec fn decision<B>(&self, req: Request<B>) -> Option<MatchView> {
        if self.routes(req.method).len() == 0 {
            None
        } else {
            match effective_path(encode_utf8(req.path@), offset_of(req)) {
                Some(p) => best_match_of(self.routes(req.method), p),
                None => None,
            }
        }
    }

    /// A router with no routes.
    pub fn new() -> (r: Router)
        ensures
            r.wf(),
            forall|m: Method| (#[trigger] r.routes(m)).len() == 0,
    {
        let mut tables: Vec<crate::matcher::RouteTable<usize>> = Vec::new();
        let mut i: usize = 0;
        while i < METHOD_COUNT
            invariant
                i <= METHOD_COUNT,
                tables@.len() == i,
                forall|j: int| 0 <= j < i ==> table_routes(#[trigger] tables@[j]).len() == 0,
            decreases METHOD_COUNT - i,
        {
            tables.push(new_table());
            i = i + 1;
        }
        let r = Router { tables };
        assert forall|m: Method| (#[trigger] r.routes(m)).len() == 0 by {
            assert(m.spec_index() < METHOD_COUNT);
        }
        r
    }

    /// Registers `handler` for requests with `method` whose path matches
    /// `pattern`. A pattern that cannot be served is refused, and nothing
    /// is registered then.
    pub fn route(&mut self, method: Method, pattern: &str, handler: usize) -> (r: Result<(), RouteError>)
        requires
            old(self).wf(),
        ensures
            registered(*old(self), *final(self), method, pattern@, handler, r),
    {
        if !is_supported_pattern(pattern.as_bytes()) {
            return Err(RouteError::Unsupported);
        }
        let i = method.index();
        let ghost before = self.tables@;
        let added = table_add(&mut self.tables[i], pattern, handler);
        proof {
            assert forall|m: Method| m != method implies self.routes(m) == old(self).routes(m) by {
                crate::method::lemma_index_injective(m, method);
            }
            assert forall|j: int| 0 <= j < METHOD_COUNT implies routes_supported(
                table_routes(#[trigger] self.tables@[j]),
            ) by {
                if j == i as int {
                    if added {
                        let rs = table_routes(self.tables@[j]);
                        assert forall|k: int| 0 <= k < rs.len() implies pattern_supported(
                            encode_utf8(#[trigger] rs[k].0),
                        ) by {
                            if k < rs.len() - 1 {
                                assert(rs[k] == table_routes(before[j])[k]);
                            }
                        }
                    }
                }
            }
        }
        if added {
            Ok(())
        } else {
            Err(RouteError::Invalid)
        }
    }

    /// Registers a `CONNECT` route, as `route` does.
    pub fn connect(&mut self, pattern: &str, handler: usize) -> (r: Result<(), RouteError>)
        requires
            old(self).wf(),
        ensures
            registered(*old(self), *final(self), Method::Connect, pattern@, handler, r),
    {
        self.route(Method::Connect, pattern, handler)
    }

    /// Registers a `DELETE` route, as `route` does.
    pub fn delete(&mut self, pattern: &str, handler: usize) -> (r: Result<(), RouteError>)
        requires
            old(self).wf(),
        ensures
            registered(*old(self), *final(self), Method::Delete, pattern@, handler, r),
    {
        self.route(Method::Delete, pattern, handler)
    }

    /// Registers a `GET` route, as `route` does.
    pub fn get(&mut self, pattern: &str, handler: usize) -> (r: Result<(), RouteError>)
        requires
            old(self).wf(),
        ensures
            registered(*old(self), *final(self), Method::Get, pattern@, handler, r),
    {
        self.route(Method::Get, pattern, handler)
    }

    /// Registers a `HEAD` route, as `route` does.
    pub fn head(&mut self, pattern: &str, handler: usize) -> (r: Result<(), RouteError>)
        requires
            old(self).wf(),
        ensures
            registered(*old(self), *final(self), Method::Head, pattern@, handler, r),
    {
        self.route(Method::Head, pattern, handler)
    }

    /// Registers a `OPTIONS` route, as `route` does.
    pub fn options(&mut self, pattern: &str, handler: usize) -> (r: Result<(), RouteError>)
        requires
            old(self).wf(),
        ensures
            registered(*old(self), *final(self), Method::Options, pattern@, handler, r),
    {
        self.route(Method::Options, pattern, handler)
    }

    /// Registers a `PATCH` route, as `route` does.
    pub fn patch(&mut self, pattern: &str, handler: usize) -> (r: Result<(), RouteError>)
        requires
            old(self).wf(),
        ensures
            registered(*old(self), *final(self), Method::Patch, pattern@, handler, r),
    {
        self.route(Method::Patch, pattern, handler)
    }

    /// Registers a `POST` route, as `route` does.
    pub fn post(&mut self, pattern: &str, handler: usize) -> (r: Result<(), RouteError>)
        requires
            old(self).wf(),
        ensures
            registered(*old(self), *final(self), Method::Post, pattern@, handler, r),
    {
        self.route(Method::Post, pattern, handler)
    }

    /// Registers a `PUT` route, as `route` does.
    pub fn put(&mut self, pattern: &str, handler: usize) -> (r: Result<(), RouteError>)
        requires
            old(self).wf(),
        ensures
            registered(*old(self), *final(self), Method::Put, pattern@, handler, r),
    {
        self.route(Method::Put, pattern, handler)
    }

    /// Registers a `TRACE` route, as `route` does.
    pub fn trace(&mut self, pattern: &str, handler: usize) -> (r: Result<(), RouteError>)
        requires
            old(self).wf(),
        ensures
            registered(*old(self), *final(self), Method::Trace, pattern@, handler, r),
    {
        self.route(Method::Trace, pattern, handler)
    }

    /// Picks the handler for a request, or decides to pass it on.
    ///
    /// The router consumes the offset that an enclosing router left on the
    /// request and matches the rest of the path against the table of the
    /// request's method. On a match it records the captures and the new
    /// offset, replacing what was there; otherwise it changes nothing else.
    pub fn run<B>(&self, req: &mut Request<B>) -> (r: Dispatch)
        requires
            self.wf(),
        ensures
            final(req).method == old(req).method,
            final(req).path == old(req).path,
            final(req).body == old(req).body,
            final(req).response == old(req).response,
            match self.decision(*old(req)) {
                None => {
                    &&& r == Dispatch::Next
                    &&& final(req).captures == old(req).captures
                    &&& final(req).matched_path is None
                },
                Some(m) => {
                    &&& r == Dispatch::Handle(m.0)
                    &&& final(req).captures matches Some(c) && c@ == (m.1, m.2)
                    &&& final(req).matched_path == Some(
                        next_offset(encode_utf8(old(req).path@), offset_of(*old(req)), m) as usize,
                    )
                },
            },
            r matches Dispatch::Handle(h) ==> exists|i: int|
                0 <= i < self.routes(old(req).method).len()
                    && (#[trigger] self.routes(old(req).method)[i]).1 == h,
            self.routes(old(req).method).len() == 0 ==> r == Dispatch::Next,
    {
        let offset: usize = match req.matched_path {
            Some(n) => n,
            None => 0,
        };
        req.matched_path = None;
        let i = req.method.index();
        let m: Option<(usize, Captures)>;
        let start: usize;
        {
            let path = req.path.as_str();
            let plen = path.as_bytes().len();
            if offset > plen || !path.is_char_boundary(offset) {
                return Dispatch::Next;
            }
            let (_, rest) = path.split_at(offset);
            m = table_best_match(&self.tables[i], rest);
            start = match &m {
                Some((_, c)) => match &c.wildcard {
                    Some(w) => {
                        let e = wildcard_end_of(rest.as_bytes());
                        let ghost pb = path.spec_bytes();
                        assert(rest.spec_bytes() =~= pb.subrange(offset as int, pb.len() as int));
                        let wl = w.as_str().len();
                        assert(wl == encode_utf8(w@).len());
                        assert(wl <= e);
                        offset + (e - wl)
                    },
                    None => plen,
                },
                None => 0,
            };
        }
        match m {
            Some((h, c)) => {
                req.matched_path = Some(start);
                req.captures = Some(c);
                Dispatch::Handle(h)
            },
            None => Dispatch::Next,
        }
    }
}

/// A request whose method has no routes is passed on: nothing is matched,
/// so `run` only drops the consumed-path offset and leaves the rest as it was.
pub proof fn lemma_unregistered_method_passes<B>(r: Router, req: Request<B>)
    requires
        r.routes(req.method).len() == 0,
    ensures
        r.decision(req) is None,
{
}

/// Routing depends on the method, the path and the consumed-path offset
/// alone: two requests that agree on them get the same handler, the same
/// captures and the same new offset.
pub proof fn lemma_dispatch_deterministic<B, C>(r: Router, a: Request<B>, b: Request<C>)
    requires
        a.method == b.method,
        a.path@ == b.path@,
        a.matched_path == b.matched_path,
    ensures
        r.decision(a) == r.decision(b),
        r.decision(a) matches Some(m) ==> next_offset(encode_utf8(a.path@), offset_of(a), m)
            == next_offset(encode_utf8(b.path@), offset_of(b), m),
{
}

} // verus!
