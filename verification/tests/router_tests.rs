use corex::CoreX;
use corex::ExtensionTrait;
use tower::ServiceExt;

/// A test extension that adds a `/test` endpoint.
struct TestExtension;

impl ExtensionTrait for TestExtension {
    fn name(&self) -> &'static str {
        "TestExtension"
    }

    fn extend(&self, router: axum::Router) -> axum::Router {
        router.route(
            "/test",
            axum::routing::get(|| async { "{\"message\":\"Test endpoint\"}" }),
        )
    }
}

/// A test extension that adds one route with a fixed body.
struct RouteExtension {
    path: &'static str,
    body: &'static str,
}

impl ExtensionTrait for RouteExtension {
    fn name(&self) -> &'static str {
        "RouteExtension"
    }

    fn extend(&self, router: axum::Router) -> axum::Router {
        let body = self.body;
        router.route(self.path, axum::routing::get(move || async move { body }))
    }
}

/// Dispatches one request to the router and returns the status code and the
/// response body.
fn dispatch(router: axum::Router, method: &str, path: &str) -> (u16, String) {
    let rt = tokio::runtime::Builder::new_current_thread().build().unwrap();
    rt.block_on(async move {
        let request = axum::http::Request::builder()
            .method(method)
            .uri(path)
            .body(axum::body::Body::empty())
            .unwrap();
        let response = router.oneshot(request).await.unwrap();
        let status = response.status().as_u16();
        let bytes = axum::body::to_bytes(response.into_body(), 65536).await.unwrap();
        (status, String::from_utf8_lossy(&bytes).to_string())
    })
}

#[test]
fn test_core_with_extension() {
    let mut core = CoreX::new("127.0.0.1".to_string(), 3000);
    core.register_extension(TestExtension);
    let router = core.build();

    let (status, body) = dispatch(router, "GET", "/test");
    assert_eq!(status, 200);
    assert!(body.contains("Test endpoint"));
}

#[test]
fn test_core_without_extensions() {
    let core: CoreX<TestExtension> = CoreX::new("127.0.0.1".to_string(), 3001);
    let router = core.build();

    let (status, _body) = dispatch(router, "GET", "/");
    assert_eq!(status, 404);
}

#[test]
fn empty_build_yields_not_found_everywhere() {
    let core: CoreX<TestExtension> = CoreX::new("127.0.0.1".to_string(), 3002);
    let router = core.build();

    for (method, path) in [
        ("GET", "/"),
        ("GET", "/test"),
        ("POST", "/"),
        ("PUT", "/anything/else"),
        ("DELETE", "/a"),
    ] {
        let (status, _body) = dispatch(router.clone(), method, path);
        assert_eq!(status, 404);
    }
}

#[test]
fn routes_of_both_extensions_are_served() {
    let mut core = CoreX::new("127.0.0.1".to_string(), 3100);
    core.register_extension(RouteExtension { path: "/a", body: "alpha response" });
    core.register_extension(RouteExtension { path: "/b", body: "beta response" });
    let router = core.build();

    let (status_a, body_a) = dispatch(router.clone(), "GET", "/a");
    let (status_b, body_b) = dispatch(router.clone(), "GET", "/b");
    let (status_missing, _) = dispatch(router, "GET", "/missing");

    assert_eq!(status_a, 200);
    assert_eq!(body_a, "alpha response");
    assert_eq!(status_b, 200);
    assert_eq!(body_b, "beta response");
    assert_eq!(status_missing, 404);
}

#[test]
fn identical_registrations_serve_identical_responses() {
    let mut first = CoreX::new("127.0.0.1".to_string(), 3102);
    first.register_extension(RouteExtension { path: "/a", body: "alpha response" });
    first.register_extension(RouteExtension { path: "/b", body: "beta response" });

    let mut second = CoreX::new("127.0.0.1".to_string(), 3103);
    second.register_extension(RouteExtension { path: "/a", body: "alpha response" });
    second.register_extension(RouteExtension { path: "/b", body: "beta response" });

    let first_router = first.build();
    let second_router = second.build();

    for path in ["/a", "/b", "/missing"] {
        let (first_status, first_body) = dispatch(first_router.clone(), "GET", path);
        let (second_status, second_body) = dispatch(second_router.clone(), "GET", path);
        assert_eq!(first_status, second_status);
        assert_eq!(first_body, second_body);
    }
}
