//! The path-matching tables that a router keeps, one per method. Matching
//! itself is done by the `routefinder` crate; this module states what the
//! router relies on from it, and the byte arithmetic around a wildcard.
use vstd::prelude::*;
use vstd::string::StringSliceAdditionalSpecFns;
use vstd::utf8::encode_utf8;

use crate::request::{Binding, Captures};
pub use routefinder::Router as RouteTable;

verus! {

#[verifier::external_type_specification]
#[verifier::external_body]
#[verifier::reject_recursive_types(Handler)]
pub struct ExTable<Handler>(RouteTable<Handler>);

/// A route as a table holds it: its pattern and the handler it leads to.
pub type Route = (Seq<char>, usize);

/// What a match yields: the handler, the named bindings in pattern order,
/// and the wildcard's text.
pub type MatchView = (usize, Seq<Binding>, Option<Seq<char>>);

/// The routes a table holds, in the order they were added.
pub uninterp spec fn table_routes(t: RouteTable<usize>) -> Seq<Route>;

/// Whether routefinder parses `pattern` as a route.
pub uninterp spec fn pattern_accepted(pattern: Seq<char>) -> bool;

/// The match that routefinder picks for a path, by its precedence rules,
/// among the routes added so far.
pub uninterp spec fn best_match_of(routes: Seq<Route>, path: Seq<u8>) -> Option<MatchView>;

pub open spec fn match_view(m: Option<(usize, Captures)>) -> Option<MatchView> {
    match m {
        Some((h, c)) => Some((h, c@.0, c@.1)),
        None => None,
    }
}

pub open spec fn is_slash(b: u8) -> bool {
    b == 47
}

pub open spec fn is_star(b: u8) -> bool {
    b == 42
}

/// End of the path once trailing slashes are dropped.
pub open spec fn trimmed_end(p: Seq<u8>) -> int
    decreases p.len(),
{
    if p.len() == 0 {
        0
    } else if is_slash(p.last()) {
        trimmed_end(p.drop_last())
    } else {
        p.len() as int
    }
}

pub open spec fn all_slashes(p: Seq<u8>) -> bool {
    forall|i: int| 0 <= i < p.len() ==> is_slash(#[trigger] p[i])
}

/// Where a trailing wildcard's capture ends. The matcher drops leading and
/// then trailing slashes, so a path of slashes only leaves an empty text
/// at its very end.
pub open spec fn wildcard_end(p: Seq<u8>) -> int {
    if all_slashes(p) {
        p.len() as int
    } else {
        trimmed_end(p)
    }
}

/// A wildcard capture `w` of path `p` is the text that ends at `wildcard_end(p)`.
pub open spec fn ends_at_wildcard_end(p: Seq<u8>, w: Seq<u8>) -> bool {
    &&& w.len() <= wildcard_end(p)
    &&& p.subrange(wildcard_end(p) - w.len(), wildcard_end(p)) == w
}

/// Patterns this library registers: ASCII only, and a `*` only where
/// nothing but slashes follows it. The matcher panics on a wildcard that is
/// not the last segment, and reads non-ASCII patterns inconsistently.
pub open spec fn pattern_supported(p: Seq<u8>) -> bool {
    &&& forall|i: int| 0 <= i < p.len() ==> #[trigger] p[i] < 128
    &&& forall|a: int, b: int|
        0 <= a < b < p.len() && is_star(#[trigger] p[a]) ==> is_slash(#[trigger] p[b])
}

pub open spec fn routes_supported(routes: Seq<Route>) -> bool {
    forall|i: int| 0 <= i < routes.len() ==> pattern_supported(encode_utf8(#[trigger] routes[i].0))
}

/// Relies on routefinder::Router::new: a table with no routes.
#[verifier::external_body]
pub(crate) fn new_table() -> (r: RouteTable<usize>)
    ensures
        table_routes(r) == Seq::<Route>::empty(),
{
    routefinder::Router::new()
}

/// Relies on routefinder::Router::add: it parses the pattern and, when that
/// succeeds, inserts the route; a parse error leaves the table as it was.
/// No route is ever replaced: `RouteSpec`'s ordering never calls two specs equal.
#[verifier::external_body]
pub(crate) fn table_add(t: &mut RouteTable<usize>, pattern: &str, handler: usize) -> (r: bool)
    ensures
        r == pattern_accepted(pattern@),
        r ==> table_routes(*final(t)) == table_routes(*old(t)).push((pattern@, handler)),
        !r ==> table_routes(*final(t)) == table_routes(*old(t)),
{
    t.add(pattern, handler).is_ok()
}

/// Relies on routefinder::Router::best_match and Match::captures: the first
/// route in precedence order that matches, whose handler is one that was
/// added, with the named captures in pattern order and the wildcard as the
/// tail of the path left after the matcher trims slashes off both ends.
#[verifier::external_body]
pub(crate) fn table_best_match(t: &RouteTable<usize>, path: &str) -> (r: Option<(usize, Captures)>)
    requires
        routes_supported(table_routes(*t)),
    ensures
        match_view(r) == best_match_of(table_routes(*t), path.spec_bytes()),
        table_routes(*t).len() == 0 ==> r is None,
        r matches Some((h, _)) ==> exists|i: int|
            0 <= i < table_routes(*t).len() && (#[trigger] table_routes(*t)[i]).1 == h,
        r matches Some((_, c)) ==> (c.wildcard matches Some(w) ==> ends_at_wildcard_end(
            path.spec_bytes(),
            encode_utf8(w@),
        )),
{
    t.best_match(path).map(|m| {
        let c = m.captures();
        let params = c.iter().map(|(k, v)| (k.to_string(), v.to_string())).collect();
        let wildcard = c.wildcard().map(|w| w.to_string());
        (*m.handler(), Captures { params, wildcard })
    })
}

/// Computes `wildcard_end` of a path's bytes.
pub fn wildcard_end_of(p: &[u8]) -> (r: usize)
    ensures
        r == wildcard_end(p@),
        r <= p@.len(),
{
    let n = p.len();
    let mut e: usize = n;
    assert(p@.subrange(0, n as int) =~= p@);
    while e > 0 && p[e - 1] == 47
        invariant
            e <= n,
            n == p@.len(),
            trimmed_end(p@) == trimmed_end(p@.subrange(0, e as int)),
            forall|j: int| e <= j < n ==> is_slash(#[trigger] p@[j]),
        decreases e,
    {
        assert(p@.subrange(0, e as int).drop_last() =~= p@.subrange(0, e - 1));
        e = e - 1;
    }
    if e == 0 {
        n
    } else {
        assert(!is_slash(p@[e - 1]));
        assert(!all_slashes(p@));
        e
    }
}

/// Decides `pattern_supported` for a pattern's bytes.
pub fn is_supported_pattern(p: &[u8]) -> (r: bool)
    ensures
        r == pattern_supported(p@),
{
    let n = p.len();
    let mut star: bool = false;
    let mut i: usize = 0;
    while i < n
        invariant
            i <= n,
            n == p@.len(),
            forall|j: int| 0 <= j < i ==> #[trigger] p@[j] < 128,
            forall|a: int, b: int|
                0 <= a < b < i && is_star(#[trigger] p@[a]) ==> is_slash(#[trigger] p@[b]),
            star <==> exists|a: int| 0 <= a < i && is_star(#[trigger] p@[a]),
        decreases n - i,
    {
        if p[i] >= 128 {
            return false;
        }
        if star && p[i] != 47 {
            return false;
        }
        if p[i] == 42 {
            star = true;
        }
        i = i + 1;
    }
    true
}

} // verus!
