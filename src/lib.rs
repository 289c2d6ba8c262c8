//! Dispatch core of a small HTTP middleware framework: a router that picks a
//! handler by method and path, records path parameters on the request, and
//! keeps track of how much of the path enclosing routers have consumed.
pub mod matcher;
pub mod method;
pub mod request;
pub mod router;
pub mod server;

pub use method::Method;
pub use request::{Captures, Request, Response, RouterRequestExt};
pub use router::{Dispatch, RouteError, Router};
pub use server::finish;
