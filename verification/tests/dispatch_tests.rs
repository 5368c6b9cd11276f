use router_service::matcher::RouteError;
use router_service::method::Method;
use router_service::router::Router;
use router_service::service::Dispatch;

fn invoked(outcome: Dispatch<u32, (), String>) -> Option<u32> {
    match outcome {
        Dispatch::Invoke { handler, .. } => Some(handler),
        Dispatch::Respond { .. } => None,
    }
}

fn status_of(outcome: Dispatch<u32, (), String>) -> Option<(u16, String)> {
    match outcome {
        Dispatch::Invoke { .. } => None,
        Dispatch::Respond { response } => Some((response.status, response.body)),
    }
}

#[test]
fn no_route_gives_404_with_default_body() {
    let router: Router<u32, ()> = Router::new();
    let (status, body) = status_of(router.dispatch(Method::Get, "/anything")).unwrap();
    assert_eq!(status, 404);
    assert_eq!(body, String::new());
}

#[test]
fn no_method_and_no_catchall_gives_404() {
    let router: Router<u32, ()> = Router::new().post("/only", 5).unwrap();
    let (status, body) = status_of(router.dispatch(Method::Get, "/only")).unwrap();
    assert_eq!(status, 404);
    assert_eq!(body, String::new());
    assert_eq!(invoked(router.dispatch(Method::Post, "/only")), Some(5));
}

#[test]
fn named_parameter_is_captured() {
    let router: Router<u32, ()> = Router::new().get("/users/:id", 1).unwrap();
    match router.dispatch::<String>(Method::Get, "/users/42") {
        Dispatch::Invoke { handler, ctx } => {
            assert_eq!(handler, 1);
            assert_eq!(ctx.param("id"), Some("42"));
            assert_eq!(ctx.param("ID"), None);
            assert_eq!(ctx.param("other"), None);
        },
        Dispatch::Respond { .. } => panic!("expected the registered handler"),
    }
}

#[test]
fn two_methods_on_one_pattern_coexist() {
    let router: Router<u32, ()> = Router::new()
        .get("/a", 1)
        .unwrap()
        .post("/a", 2)
        .unwrap();
    assert_eq!(invoked(router.dispatch(Method::Get, "/a")), Some(1));
    assert_eq!(invoked(router.dispatch(Method::Post, "/a")), Some(2));
    assert_eq!(invoked(router.dispatch(Method::Put, "/a")), None);
}

#[test]
fn reregistration_replaces_handler() {
    let router: Router<u32, ()> = Router::new()
        .get("/a", 1)
        .unwrap()
        .get("/a", 2)
        .unwrap();
    assert_eq!(invoked(router.dispatch(Method::Get, "/a")), Some(2));
}

#[test]
fn method_handler_beats_catchall() {
    let router: Router<u32, ()> = Router::new()
        .get("/a", 1)
        .unwrap()
        .any("/a", 9)
        .unwrap();
    assert_eq!(invoked(router.dispatch(Method::Get, "/a")), Some(1));
    assert_eq!(invoked(router.dispatch(Method::Post, "/a")), Some(9));
    assert_eq!(invoked(router.dispatch(Method::Delete, "/a")), Some(9));
}

#[test]
fn catchall_replaces_catchall() {
    let router: Router<u32, ()> = Router::new()
        .any("/a", 1)
        .unwrap()
        .any("/a", 2)
        .unwrap();
    assert_eq!(invoked(router.dispatch(Method::Post, "/a")), Some(2));
}

#[test]
fn every_registration_method_routes_its_method() {
    let router: Router<u32, ()> = Router::new()
        .get("/m", 1)
        .unwrap()
        .post("/m", 2)
        .unwrap()
        .put("/m", 3)
        .unwrap()
        .delete("/m", 4)
        .unwrap()
        .head("/m", 5)
        .unwrap()
        .options("/m", 6)
        .unwrap()
        .patch("/m", 7)
        .unwrap();
    assert_eq!(invoked(router.dispatch(Method::Get, "/m")), Some(1));
    assert_eq!(invoked(router.dispatch(Method::Post, "/m")), Some(2));
    assert_eq!(invoked(router.dispatch(Method::Put, "/m")), Some(3));
    assert_eq!(invoked(router.dispatch(Method::Delete, "/m")), Some(4));
    assert_eq!(invoked(router.dispatch(Method::Head, "/m")), Some(5));
    assert_eq!(invoked(router.dispatch(Method::Options, "/m")), Some(6));
    assert_eq!(invoked(router.dispatch(Method::Patch, "/m")), Some(7));
    assert_eq!(invoked(router.dispatch(Method::Trace, "/m")), None);
}

#[test]
fn rejected_patterns_report_their_error() {
    let unnamed: Result<Router<u32, ()>, RouteError> = Router::new().get("/*", 1);
    assert!(matches!(unnamed, Err(RouteError::UnnamedParam)));

    let conflict = Router::<u32, ()>::new().get("/:a", 1).unwrap().get("/:b", 2);
    assert!(matches!(conflict, Err(RouteError::Conflict { .. })));

    let crowded = Router::<u32, ()>::new().get("/:a:b", 1);
    assert!(matches!(crowded, Err(RouteError::TooManyParams)));

    let misplaced = Router::<u32, ()>::new().get("/*a/b", 1);
    assert!(matches!(misplaced, Err(RouteError::InvalidCatchAll)));
}

#[test]
fn static_pattern_beats_catchall_pattern() {
    let router: Router<u32, ()> = Router::new()
        .get("/about", 1)
        .unwrap()
        .any("/*rest", 2)
        .unwrap();
    assert_eq!(invoked(router.dispatch(Method::Get, "/about")), Some(1));
    assert_eq!(invoked(router.dispatch(Method::Get, "/elsewhere")), Some(2));
}

#[test]
fn parameter_limit_is_enforced() {
    let mut over_limit = String::new();
    for c in 'a'..='z' {
        over_limit.push_str(&format!("/:{c}"));
    }
    let rejected = Router::<u32, ()>::new().get(&over_limit, 1);
    assert!(matches!(rejected, Err(RouteError::ParamLimit)));

    let mut at_limit = String::new();
    for c in 'a'..='y' {
        at_limit.push_str(&format!("/:{c}"));
    }
    let router = Router::<u32, ()>::new().get(&at_limit, 1).unwrap();
    let mut path = String::new();
    for _ in 0..25 {
        path.push_str("/x");
    }
    assert_eq!(invoked(router.dispatch(Method::Get, &path)), Some(1));
}
