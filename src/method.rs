use vstd::prelude::*;

verus! {

/// The standard HTTP verbs a route can be registered under.
#[derive(Clone, Copy, Debug, PartialEq, Eq, Structural, Hash)]
pub enum Method {
    Connect,
    Delete,
    Get,
    Head,
    Options,
    Patch,
    Post,
    Put,
    Trace,
}

/// Number of distinct methods; each router keeps one table per method.
pub const METHOD_COUNT: usize = 9;

impl Method {
    /// Position of this method's table inside a router.
    pub open spec fn spec_index(self) -> nat {
        match self {
            Method::Connect => 0,
            Method::Delete => 1,
            Method::Get => 2,
            Method::Head => 3,
            Method::Options => 4,
            Method::Patch => 5,
            Method::Post => 6,
            Method::Put => 7,
            Method::Trace => 8,
        }
    }

    pub fn index(self) -> (r: usize)
        ensures
            r == self.spec_index(),
            r < METHOD_COUNT,
    {
        match self {
            Method::Connect => 0,
            Method::Delete => 1,
            Method::Get => 2,
            Method::Head => 3,
            Method::Options => 4,
            Method::Patch => 5,
            Method::Post => 6,
            Method::Put => 7,
            Method::Trace => 8,
        }
    }
}

/// Distinct methods occupy distinct tables.
pub proof fn lemma_index_injective(a: Method, b: Method)
    ensures
        a.spec_index() == b.spec_index() <==> a == b,
{
}

} // verus!
