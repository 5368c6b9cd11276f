use std::convert::Infallible;
use std::future::Future;
use std::pin::Pin;
use std::rc::Rc;
use std::sync::atomic::{AtomicBool, AtomicUsize, Ordering};
use std::sync::Arc;

use router_service::context::RouteContext;
use router_service::method::Method;
use router_service::router::Router;
use router_service::service::Dispatch;

type UnitFut = Pin<Box<dyn Future<Output = Result<http::Response<()>, Infallible>>>>;
type UnitHandler<D> = Rc<dyn Fn(http::Request<()>, RouteContext<D>) -> UnitFut>;

type StrFut = Pin<Box<dyn Future<Output = Result<http::Response<String>, Infallible>>>>;
type StrHandler = Rc<dyn Fn(http::Request<String>, RouteContext<()>) -> StrFut>;

#[test]
fn not_found() {
    futures::executor::block_on(async move {
        let router: Router<UnitHandler<()>, ()> = Router::new();
        let req = http::Request::builder()
            .uri("/not-found")
            .method(http::Method::GET)
            .body(())
            .unwrap();

        let outcome: Dispatch<UnitHandler<()>, (), ()> =
            router.dispatch(Method::Get, req.uri().path());
        match outcome {
            Dispatch::Respond { response } => assert_eq!(response.status, 404),
            Dispatch::Invoke { .. } => panic!("expected the synthesized not-found response"),
        }
    });
}

#[test]
fn receives_data() {
    futures::executor::block_on(async move {
        let data = Arc::new(AtomicBool::new(false));
        let handler: UnitHandler<Arc<AtomicBool>> =
            Rc::new(|_req, ctx: RouteContext<Arc<AtomicBool>>| {
                let f: UnitFut = Box::pin(async move {
                    ctx.data.store(true, Ordering::SeqCst);
                    Ok(http::Response::builder().body(()).unwrap())
                });
                f
            });
        let router: Router<UnitHandler<Arc<AtomicBool>>, Arc<AtomicBool>> =
            Router::with_data(data.clone())
                .get("/example", handler)
                .unwrap();

        let req = http::Request::builder()
            .uri("/example")
            .method(http::Method::GET)
            .body(())
            .unwrap();

        let outcome: Dispatch<UnitHandler<Arc<AtomicBool>>, Arc<AtomicBool>, ()> =
            router.dispatch(Method::Get, req.uri().path());
        let resp = match outcome {
            Dispatch::Invoke { handler, ctx } => handler(req, ctx).await.unwrap(),
            Dispatch::Respond { .. } => panic!("expected the registered handler"),
        };
        assert_eq!(resp.status(), 200);
        assert!(data.load(Ordering::SeqCst));
    });
}

#[test]
fn receives_data_async() {
    futures::executor::block_on(async move {
        let data = Arc::new(AtomicBool::new(false));
        let handler: UnitHandler<Arc<AtomicBool>> =
            Rc::new(|_req, ctx: RouteContext<Arc<AtomicBool>>| {
                let f: UnitFut = Box::pin(async move {
                    ctx.data.store(true, Ordering::SeqCst);
                    Ok(http::Response::builder().body(()).unwrap())
                });
                f
            });
        let router = Router::with_data(data.clone())
            .get("/example", handler)
            .unwrap();

        let req = http::Request::builder()
            .uri("/example")
            .method(http::Method::GET)
            .body(())
            .unwrap();

        let outcome: Dispatch<_, _, ()> = router.dispatch(Method::Get, req.uri().path());
        let resp = match outcome {
            Dispatch::Invoke { handler, ctx } => handler(req, ctx).await.unwrap(),
            Dispatch::Respond { .. } => panic!("expected the registered handler"),
        };
        assert_eq!(resp.status(), 200);
        assert!(data.load(Ordering::SeqCst));
    });
}

#[test]
fn hello_world_with_catchall() {
    futures::executor::block_on(async move {
        let hello: StrHandler = Rc::new(|_req, _ctx| {
            let f: StrFut = Box::pin(async move {
                Ok(http::Response::builder()
                    .status(200)
                    .body("Hello, World!".to_owned())
                    .unwrap())
            });
            f
        });
        let catchall: StrHandler = Rc::new(|_req, ctx: RouteContext<()>| {
            let body = format!("no endpoint \"/{}\"", ctx.param("catchall").unwrap_or(""));
            let f: StrFut = Box::pin(async move {
                Ok(http::Response::builder().status(404).body(body).unwrap())
            });
            f
        });
        let router = Router::new()
            .get("/", hello)
            .unwrap()
            .any("/*catchall", catchall)
            .unwrap();

        let run = |method: Method, path: &str| {
            let req = http::Request::builder()
                .uri(path)
                .body(String::new())
                .unwrap();
            let outcome: Dispatch<StrHandler, (), String> = router.dispatch(method, path);
            match outcome {
                Dispatch::Invoke { handler, ctx } => handler(req, ctx),
                Dispatch::Respond { .. } => panic!("expected a handler for {path}"),
            }
        };

        let resp = run(Method::Get, "/").await.unwrap();
        assert_eq!(resp.status(), 200);
        assert_eq!(resp.body(), "Hello, World!");

        let resp = run(Method::Get, "/missing").await.unwrap();
        assert_eq!(resp.status(), 404);
        assert_eq!(resp.body(), "no endpoint \"/missing\"");

        let resp = run(Method::Post, "/missing").await.unwrap();
        assert_eq!(resp.status(), 404);
        assert_eq!(resp.body(), "no endpoint \"/missing\"");
    });
}

#[test]
fn shared_counter_incremented_once() {
    futures::executor::block_on(async move {
        let counter = Arc::new(AtomicUsize::new(0));
        let handler: UnitHandler<Arc<AtomicUsize>> =
            Rc::new(|_req, ctx: RouteContext<Arc<AtomicUsize>>| {
                let f: UnitFut = Box::pin(async move {
                    ctx.data.fetch_add(1, Ordering::SeqCst);
                    Ok(http::Response::builder().status(200).body(()).unwrap())
                });
                f
            });
        let router = Router::with_data(counter.clone())
            .get("/example", handler)
            .unwrap();

        let req = http::Request::builder()
            .uri("/example")
            .method(http::Method::GET)
            .body(())
            .unwrap();
        let outcome: Dispatch<_, _, ()> = router.dispatch(Method::Get, "/example");
        let resp = match outcome {
            Dispatch::Invoke { handler, ctx } => handler(req, ctx).await.unwrap(),
            Dispatch::Respond { .. } => panic!("expected the registered handler"),
        };
        assert_eq!(resp.status(), 200);
        assert_eq!(counter.load(Ordering::SeqCst), 1);
    });
}
