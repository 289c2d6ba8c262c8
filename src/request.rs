use vstd::prelude::*;

use crate::method::Method;

verus! {

/// A named binding: the parameter's name and the text it matched.
pub type Binding = (Seq<char>, Seq<char>);

/// The bindings of a list of name/value string pairs, as text.
pub open spec fn bindings_of(v: Seq<(String, String)>) -> Seq<Binding> {
    v.map_values(|p: (String, String)| (p.0@, p.1@))
}

/// The value bound to `key` by the first binding that names it.
pub open spec fn lookup(ps: Seq<Binding>, key: Seq<char>) -> Option<Seq<char>>
    decreases ps.len(),
{
    if ps.len() == 0 {
        None
    } else if ps[0].0 == key {
        Some(ps[0].1)
    } else {
        lookup(ps.drop_first(), key)
    }
}

/// What a successful path match captured: named parameters in pattern order,
/// and the text matched by a trailing wildcard, if the pattern had one.
#[derive(Clone, Debug)]
pub struct Captures {
    pub params: Vec<(String, String)>,
    pub wildcard: Option<String>,
}

impl View for Captures {
    type V = (Seq<Binding>, Option<Seq<char>>);

    open spec fn view(&self) -> Self::V {
        (bindings_of(self.params@), match self.wildcard {
            Some(w) => Some(w@),
            None => None,
        })
    }
}

impl Captures {
    /// The value of the first parameter named `key`.
    pub fn get(&self, key: &str) -> (r: Option<&str>)
        ensures
            r is None <==> lookup(self@.0, key@) is None,
            r is Some ==> r->0@ == lookup(self@.0, key@)->0,
    {
        let wanted: String = key.to_owned();
        let ghost ps = self@.0;
        let n = self.params.len();
        let mut i: usize = 0;
        assert(ps.subrange(0, n as int) =~= ps);
        while i < n
            invariant
                n == self.params.len(),
                ps == bindings_of(self.params@),
                ps.len() == n,
                i <= n,
                wanted@ == key@,
                lookup(ps, key@) == lookup(ps.subrange(i as int, n as int), key@),
            decreases n - i,
        {
            proof {
                let rest = ps.subrange(i as int, n as int);
                assert(rest.drop_first() =~= ps.subrange(i + 1, n as int));
            }
            assert(ps[i as int] == (self.params@[i as int].0@, self.params@[i as int].1@));
            if self.params[i].0 == wanted {
                assert(ps.subrange(i as int, n as int)[0] == ps[i as int]);
                return Some(self.params[i].1.as_str());
            }
            i = i + 1;
        }
        None
    }

    /// The text matched by the trailing wildcard, if any.
    pub fn wildcard(&self) -> (r: Option<&str>)
        ensures
            r is None <==> self.wildcard is None,
            r is Some ==> r->0@ == self@.1->0,
    {
        match &self.wildcard {
            Some(w) => Some(w.as_str()),
            None => None,
        }
    }
}

/// The reply a handler attaches to a request.
#[derive(Clone, Debug)]
pub struct Response {
    pub status: u16,
    pub body: Vec<u8>,
}

impl Response {
    pub fn new(status: u16, body: Vec<u8>) -> (r: Response)
        ensures
            r.status == status,
            r.body@ == body@,
    {
        Response { status, body }
    }
}

/// One in-flight exchange as it travels down a handler chain.
///
/// Beside the method and path it carries the state that routers leave for
/// the handlers after them: the captures of the innermost router that
/// matched, and how many bytes of the path enclosing routers consumed.
/// `body` is whatever the transport hands over; routing never reads it.
pub struct Request<B> {
    pub method: Method,
    pub path: String,
    pub body: B,
    pub captures: Option<Captures>,
    pub matched_path: Option<usize>,
    pub response: Option<Response>,
}

impl<B> Request<B> {
    /// A fresh request: nothing matched yet, no response.
    pub fn new(method: Method, path: String, body: B) -> (r: Request<B>)
        ensures
            r.method == method,
            r.path@ == path@,
            r.body == body,
            r.captures is None,
            r.matched_path is None,
            r.response is None,
    {
        Request { method, path, body, captures: None, matched_path: None, response: None }
    }

    /// Attaches (or replaces) the response.
    pub fn set_response(&mut self, res: Response)
        ensures
            final(self).response == Some(res),
            final(self).method == old(self).method,
            final(self).path == old(self).path,
            final(self).body == old(self).body,
            final(self).captures == old(self).captures,
            final(self).matched_path == old(self).matched_path,
    {
        self.response = Some(res);
    }
}

/// Read access to the path parameters that routing recorded on a request.
pub trait RouterRequestExt {
    /// The value bound to `name` by the most recent match, if any.
    spec fn spec_param(&self, name: Seq<char>) -> Option<Seq<char>>;

    fn param(&self, name: &str) -> (r: Option<&str>)
        ensures
            r is None <==> self.spec_param(name@) is None,
            r is Some ==> r->0@ == self.spec_param(name@)->0,
    ;
}

impl<B> RouterRequestExt for Request<B> {
    /// Absent when nothing matched, or when the match bound no such name.
    open spec fn spec_param(&self, name: Seq<char>) -> Option<Seq<char>> {
        match self.captures {
            Some(c) => lookup(c@.0, name),
            None => None,
        }
    }

    fn param(&self, name: &str) -> (r: Option<&str>) {
        match &self.captures {
            Some(c) => c.get(name),
            None => None,
        }
    }
}

} // verus!
