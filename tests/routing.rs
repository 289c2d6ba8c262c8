use chain_router::{finish, Captures, Dispatch, Method, Request, Response, RouteError, Router, RouterRequestExt};

fn req(method: Method, path: &str) -> Request<()> {
    Request::new(method, path.to_string(), ())
}

/// Runs a request through `router`; a matched handler answers with its own
/// number as the body, and an unmatched request is left unanswered.
fn serve(router: &Router, mut r: Request<()>) -> (Dispatch, Response) {
    let d = router.run(&mut r);
    if let Dispatch::Handle(h) = d {
        r.set_response(Response::new(200, vec![h as u8]));
    }
    (d, finish(r))
}

#[test]
fn end_to_end_dispatch() {
    let mut router = Router::new();
    router.get("/", 0).unwrap();
    router.get("/health", 1).unwrap();
    router.post("/items", 2).unwrap();

    let (d, res) = serve(&router, req(Method::Get, "/health"));
    assert_eq!(d, Dispatch::Handle(1));
    assert_eq!(res.status, 200);
    assert_eq!(res.body, vec![1u8]);

    let (d, res) = serve(&router, req(Method::Get, "/missing"));
    assert_eq!(d, Dispatch::Next);
    assert_eq!(res.status, 404);
    assert!(res.body.is_empty());

    let (d, res) = serve(&router, req(Method::Post, "/items"));
    assert_eq!(d, Dispatch::Handle(2));
    assert_eq!(res.body, vec![2u8]);

    let (d, res) = serve(&router, req(Method::Get, "/items"));
    assert_eq!(d, Dispatch::Next);
    assert_eq!(res.status, 404);

    let (d, _) = serve(&router, req(Method::Get, "/"));
    assert_eq!(d, Dispatch::Handle(0));
}

#[test]
fn named_parameter_is_readable() {
    let mut router = Router::new();
    router.get("/users/:id", 3).unwrap();
    let mut r = req(Method::Get, "/users/42");
    assert_eq!(router.run(&mut r), Dispatch::Handle(3));
    assert_eq!(r.param("id"), Some("42"));
    assert_eq!(r.param("name"), None);
    assert_eq!(r.matched_path, Some(9));
}

#[test]
fn param_absent_before_any_match() {
    let r = req(Method::Get, "/users/42");
    assert_eq!(r.param("id"), None);
}

#[test]
fn wildcard_capture_and_offset() {
    let mut router = Router::new();
    router.get("/files/*", 5).unwrap();
    let mut r = req(Method::Get, "/files/a/b.txt");
    assert_eq!(router.run(&mut r), Dispatch::Handle(5));
    let caps = r.captures.as_ref().unwrap();
    assert_eq!(caps.wildcard(), Some("a/b.txt"));
    assert_eq!(r.matched_path, Some(7));
    assert_eq!(&r.path[7..], "a/b.txt");
}

#[test]
fn wildcard_offset_ignores_trailing_slashes() {
    let mut router = Router::new();
    router.get("/files/*", 5).unwrap();
    let mut r = req(Method::Get, "/files/a/b//");
    assert_eq!(router.run(&mut r), Dispatch::Handle(5));
    assert_eq!(r.captures.as_ref().unwrap().wildcard(), Some("a/b"));
    assert_eq!(r.matched_path, Some(7));
}

#[test]
fn nested_router_sees_remaining_path() {
    let mut outer = Router::new();
    outer.get("/files/*", 1).unwrap();
    let mut inner = Router::new();
    inner.get("/a/:name", 2).unwrap();
    inner.get("/files/a/:name", 3).unwrap();

    let mut r = req(Method::Get, "/files/a/b.txt");
    assert_eq!(outer.run(&mut r), Dispatch::Handle(1));
    assert_eq!(inner.run(&mut r), Dispatch::Handle(2));
    assert_eq!(r.param("name"), Some("b.txt"));
    assert_eq!(r.matched_path, Some("/files/a/b.txt".len()));
}

#[test]
fn inner_captures_shadow_outer() {
    let mut outer = Router::new();
    outer.get("/:id/*", 1).unwrap();
    let mut inner = Router::new();
    inner.get("/:id", 2).unwrap();

    let mut r = req(Method::Get, "/outer/inner");
    assert_eq!(outer.run(&mut r), Dispatch::Handle(1));
    assert_eq!(r.param("id"), Some("outer"));
    assert_eq!(inner.run(&mut r), Dispatch::Handle(2));
    assert_eq!(r.param("id"), Some("inner"));
}

#[test]
fn unregistered_method_passes_through() {
    let mut router = Router::new();
    router.get("/x", 1).unwrap();
    let mut r = req(Method::Delete, "/x");
    r.set_response(Response::new(201, vec![9]));
    assert_eq!(router.run(&mut r), Dispatch::Next);
    assert_eq!(r.method, Method::Delete);
    assert_eq!(r.path, "/x");
    assert!(r.captures.is_none());
    assert_eq!(r.response.as_ref().unwrap().status, 201);
}

#[test]
fn unmatched_path_consumes_offset_only() {
    let mut outer = Router::new();
    outer.get("/api/*", 1).unwrap();
    let mut inner = Router::new();
    inner.get("/other", 2).unwrap();
    let mut r = req(Method::Get, "/api/v1");
    assert_eq!(outer.run(&mut r), Dispatch::Handle(1));
    assert_eq!(inner.run(&mut r), Dispatch::Next);
    assert_eq!(r.matched_path, None);
    assert_eq!(r.captures.as_ref().unwrap().wildcard(), Some("v1"));
}

#[test]
fn repeated_dispatch_is_identical() {
    let mut router = Router::new();
    router.get("/users/:id/*", 4).unwrap();
    let mut a = req(Method::Get, "/users/7/x/y");
    let mut b = req(Method::Get, "/users/7/x/y");
    assert_eq!(router.run(&mut a), router.run(&mut b));
    assert_eq!(a.matched_path, b.matched_path);
    assert_eq!(a.param("id"), b.param("id"));
    let (ca, cb) = (a.captures.unwrap(), b.captures.unwrap());
    assert_eq!(ca.params, cb.params);
    assert_eq!(ca.wildcard, cb.wildcard);
}

#[test]
fn most_specific_route_wins() {
    let mut router = Router::new();
    router.get("/*", 0).unwrap();
    router.get("/:param", 1).unwrap();
    router.get("/hello", 2).unwrap();
    let mut r = req(Method::Get, "/hello");
    assert_eq!(router.run(&mut r), Dispatch::Handle(2));
    let mut r = req(Method::Get, "/hey");
    assert_eq!(router.run(&mut r), Dispatch::Handle(1));
    let mut r = req(Method::Get, "/hey/there");
    assert_eq!(router.run(&mut r), Dispatch::Handle(0));
}

#[test]
fn every_verb_registers_under_its_method() {
    let mut router = Router::new();
    router.connect("/v", 0).unwrap();
    router.delete("/v", 1).unwrap();
    router.get("/v", 2).unwrap();
    router.head("/v", 3).unwrap();
    router.options("/v", 4).unwrap();
    router.patch("/v", 5).unwrap();
    router.post("/v", 6).unwrap();
    router.put("/v", 7).unwrap();
    router.trace("/v", 8).unwrap();
    let methods = [
        Method::Connect,
        Method::Delete,
        Method::Get,
        Method::Head,
        Method::Options,
        Method::Patch,
        Method::Post,
        Method::Put,
        Method::Trace,
    ];
    for (i, m) in methods.iter().enumerate() {
        let mut r = req(*m, "/v");
        assert_eq!(router.run(&mut r), Dispatch::Handle(i));
    }
}

#[test]
fn route_errors() {
    let mut router = Router::new();
    assert_eq!(router.get("/files/*rest", 1), Err(RouteError::Unsupported));
    assert_eq!(router.get("/a/*/b", 1), Err(RouteError::Unsupported));
    assert_eq!(router.get("/caf\u{e9}", 1), Err(RouteError::Unsupported));
    assert_eq!(router.get("/:", 1), Err(RouteError::Invalid));
    assert_eq!(router.route(Method::Get, "/ok/*/", 1), Ok(()));
    let mut r = req(Method::Get, "/ok/rest");
    assert_eq!(router.run(&mut r), Dispatch::Handle(1));
}

#[test]
fn refused_route_registers_nothing() {
    let mut router = Router::new();
    assert_eq!(router.get("/:", 1), Err(RouteError::Invalid));
    let mut r = req(Method::Get, "/x");
    assert_eq!(router.run(&mut r), Dispatch::Next);
}

#[test]
fn bad_offset_passes_through() {
    let mut router = Router::new();
    router.get("/*", 1).unwrap();
    let mut r = req(Method::Get, "/ab");
    r.matched_path = Some(10);
    assert_eq!(router.run(&mut r), Dispatch::Next);
    assert_eq!(r.matched_path, None);
    let mut r = req(Method::Get, "/\u{e9}x");
    r.matched_path = Some(2);
    assert_eq!(router.run(&mut r), Dispatch::Next);
}

#[test]
fn finish_keeps_response() {
    let mut r = req(Method::Get, "/");
    r.set_response(Response::new(500, b"boom".to_vec()));
    let res = finish(r);
    assert_eq!(res.status, 500);
    assert_eq!(res.body, b"boom".to_vec());
    let res = finish(req(Method::Get, "/"));
    assert_eq!(res.status, 404);
}

#[test]
fn captures_get_first_binding() {
    let c = Captures {
        params: vec![
            ("a".to_string(), "1".to_string()),
            ("b".to_string(), "2".to_string()),
            ("a".to_string(), "3".to_string()),
        ],
        wildcard: None,
    };
    assert_eq!(c.get("a"), Some("1"));
    assert_eq!(c.get("b"), Some("2"));
    assert_eq!(c.get("c"), None);
    assert_eq!(c.wildcard(), None);
}
