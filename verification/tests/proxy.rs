use martus_proxy::forward::forward;
use martus_proxy::forward::InboundRequest;
use martus_proxy::forward::Method;
use martus_proxy::handlers::bad_gateway;
use martus_proxy::handlers::handle_404;
use martus_proxy::handlers::health_check;
use martus_proxy::registry::ServiceEntry;
use martus_proxy::registry::ServiceRegistry;
use martus_proxy::resolve::ServicePath;
use martus_proxy::router::handler;
use martus_proxy::router::Step;
use martus_proxy::segments::join_segments;
use martus_proxy::segments::split_path;

const PROXY: &str = "http://0.0.0.0:5000";

fn demo_registry() -> ServiceRegistry {
    let mut registry = ServiceRegistry::new(PROXY.to_string());
    let (id, base) = ServicePath::from("student", "http://svc-student".to_string());
    assert!(registry.register(ServiceEntry { identifier: id, base_address: base }));
    let (id, base) = ServicePath::from("library", "http://svc-library".to_string());
    assert!(registry.register(ServiceEntry { identifier: id, base_address: base }));
    registry
}

#[test]
fn split_and_join_restore_the_path() {
    let segs = split_path("/v1/student/courses/42");
    let expected: Vec<String> = vec![
        "".to_string(),
        "v1".to_string(),
        "student".to_string(),
        "courses".to_string(),
        "42".to_string(),
    ];
    assert_eq!(segs, expected);
    assert_eq!(join_segments(&segs, 0), "/v1/student/courses/42");
    assert_eq!(join_segments(&segs, 3), "courses/42");
    assert_eq!(join_segments(&segs, 5), "");
    assert_eq!(split_path(""), vec!["".to_string()]);
    assert_eq!(split_path("//"), vec!["".to_string(), "".to_string(), "".to_string()]);
}

#[test]
fn from_pairs_identifier_with_base() {
    let pair = ServicePath::from("student", "http://svc-student".to_string());
    assert_eq!(pair.0, "student");
    assert_eq!(pair.1, "http://svc-student");
}

#[test]
fn lookup_finds_registered_and_rejects_unknown() {
    let registry = demo_registry();
    assert_eq!(
        registry.lookup(&"student".to_string()),
        Some("http://svc-student".to_string())
    );
    assert_eq!(
        registry.lookup(&"library".to_string()),
        Some("http://svc-library".to_string())
    );
    assert_eq!(registry.lookup(&"staff".to_string()), None);
}

#[test]
fn register_refuses_duplicate_identifier() {
    let mut registry = demo_registry();
    let added = registry.register(ServiceEntry {
        identifier: "student".to_string(),
        base_address: "http://elsewhere".to_string(),
    });
    assert!(!added);
    assert_eq!(
        registry.lookup(&"student".to_string()),
        Some("http://svc-student".to_string())
    );
}

#[test]
fn resolve_registered_appends_resource_to_base() {
    let registry = demo_registry();
    let url = ServicePath::parse_url(&registry, "/v1/student/courses/42").unwrap();
    assert_eq!(url, "http://svc-studentcourses/42");
}

#[test]
fn resolve_forwards_to_slashed_base_verbatim() {
    let mut registry = ServiceRegistry::new(PROXY.to_string());
    let (id, base) = ServicePath::from("student", "http://svc-student/".to_string());
    assert!(registry.register(ServiceEntry { identifier: id, base_address: base }));
    let url = ServicePath::parse_url(&registry, "/v1/student/courses/42").unwrap();
    assert_eq!(url, "http://svc-student/courses/42");
}

#[test]
fn resolve_keeps_resource_segments_byte_for_byte() {
    let registry = demo_registry();
    let url = ServicePath::parse_url(&registry, "/v1/student//a//").unwrap();
    assert_eq!(url, "http://svc-student/a//");
    let url = ServicePath::parse_url(&registry, "/v1/student/").unwrap();
    assert_eq!(url, "http://svc-student");
}

#[test]
fn resolve_unknown_identifier_falls_back_to_proxy() {
    let registry = demo_registry();
    let url = ServicePath::parse_url(&registry, "/v1/unknownsvc/x").unwrap();
    assert_eq!(url, format!("{}x", PROXY));
}

#[test]
fn resolve_rejects_paths_without_identifier_segment() {
    let registry = demo_registry();
    assert_eq!(ServicePath::parse_url(&registry, ""), None);
    assert_eq!(ServicePath::parse_url(&registry, "/"), None);
    assert_eq!(ServicePath::parse_url(&registry, "/v1"), None);
    assert_eq!(ServicePath::parse_url(&registry, "student"), None);
}

#[test]
fn forward_passes_method_headers_and_body_through() {
    let headers = vec![
        ("X-Custom".to_string(), b"one".to_vec()),
        ("x-custom".to_string(), b"two".to_vec()),
        ("X-CUSTOM".to_string(), b"three".to_vec()),
        ("Content-Type".to_string(), b"application/octet-stream".to_vec()),
    ];
    let body = vec![0u8, 159, 146, 150, 13, 10];
    let outbound = forward(
        Method::Post,
        headers.clone(),
        body.clone(),
        "http://svc-student/upload".to_string(),
    );
    assert_eq!(outbound.url, "http://svc-student/upload");
    assert!(matches!(outbound.method, Method::Post));
    assert_eq!(outbound.headers, headers);
    assert_eq!(outbound.body, body);
}

#[test]
fn health_check_is_200_with_fixed_body() {
    let r = health_check();
    assert_eq!(r.status, 200);
    assert_eq!(r.content_type, "application/json");
    assert_eq!(
        r.body,
        "{\"success\": true, \"message\": \"The server is up and running!\"}"
    );
}

#[test]
fn handle_404_is_404_with_fixed_body() {
    let r = handle_404();
    assert_eq!(r.status, 404);
    assert_eq!(r.content_type, "application/json");
    assert_eq!(
        r.body,
        "{\"success\": false, \"message\": \"The requested resource does not exist on this server!\"}"
    );
}

#[test]
fn bad_gateway_is_502_with_fixed_body() {
    let r = bad_gateway();
    assert_eq!(r.status, 502);
    assert_eq!(r.content_type, "application/json");
    assert_eq!(
        r.body,
        "{\"success\": false, \"message\": \"The upstream service could not be reached!\"}"
    );
}

fn plain_request(path: &str, method: Method) -> InboundRequest {
    InboundRequest {
        path: path.to_string(),
        method,
        headers: vec![("accept".to_string(), b"*/*".to_vec())],
        body: Vec::new(),
    }
}

#[test]
fn handler_answers_health_probe_directly() {
    let registry = demo_registry();
    match handler(&registry, plain_request("/health", Method::Get)) {
        Step::Reply(r) => {
            assert_eq!(r.status, 200);
            assert_eq!(
                r.body,
                "{\"success\": true, \"message\": \"The server is up and running!\"}"
            );
        }
        Step::Send(_) => panic!("the health probe must be answered directly"),
    }
}

#[test]
fn handler_forwards_versioned_path_with_request_parts() {
    let registry = demo_registry();
    let request = InboundRequest {
        path: "/v1/student/courses/42".to_string(),
        method: Method::Put,
        headers: vec![
            ("X-Custom".to_string(), b"one".to_vec()),
            ("x-custom".to_string(), b"two".to_vec()),
        ],
        body: b"grade=A".to_vec(),
    };
    match handler(&registry, request) {
        Step::Send(outbound) => {
            assert_eq!(outbound.url, "http://svc-studentcourses/42");
            assert!(matches!(outbound.method, Method::Put));
            assert_eq!(
                outbound.headers,
                vec![
                    ("X-Custom".to_string(), b"one".to_vec()),
                    ("x-custom".to_string(), b"two".to_vec()),
                ]
            );
            assert_eq!(outbound.body, b"grade=A".to_vec());
        }
        Step::Reply(_) => panic!("a versioned path must be forwarded"),
    }
}

#[test]
fn handler_sends_unknown_service_toward_proxy_address() {
    let registry = demo_registry();
    match handler(&registry, plain_request("/v1/unknownsvc/x", Method::Get)) {
        Step::Send(outbound) => assert_eq!(outbound.url, format!("{}x", PROXY)),
        Step::Reply(_) => panic!("an unknown service still resolves to the proxy's own address"),
    }
}

#[test]
fn handler_falls_back_to_404_for_unmatched_paths() {
    let registry = demo_registry();
    let not_found_body =
        "{\"success\": false, \"message\": \"The requested resource does not exist on this server!\"}";
    let unmatched = ["/", "/random", "/v2/student/x", "/v1", "/v1/", "/healthz", ""];
    for path in unmatched {
        match handler(&registry, plain_request(path, Method::Get)) {
            Step::Reply(r) => {
                assert_eq!(r.status, 404, "path {:?}", path);
                assert_eq!(r.body, not_found_body, "path {:?}", path);
            }
            Step::Send(_) => panic!("path {:?} must not be forwarded", path),
        }
    }
    match handler(&registry, plain_request("/health", Method::Post)) {
        Step::Reply(r) => assert_eq!(r.status, 404),
        Step::Send(_) => panic!("a non-GET health path must not be forwarded"),
    }
}

#[test]
fn unknown_service_round_trip_observes_not_found() {
    let registry = demo_registry();
    let step = handler(&registry, plain_request("/v1/unknownsvc/x", Method::Get));
    let outbound = match step {
        Step::Send(outbound) => outbound,
        Step::Reply(_) => panic!("the resolver hands unknown services to the proxy's own edge"),
    };
    assert!(outbound.url.starts_with(PROXY));
    // The request reaches the proxy's own edge; the path that arrives there
    // is the rewritten remainder, which no route matches.
    let arriving = outbound.url[PROXY.len()..].to_string();
    match handler(&registry, plain_request(&arriving, Method::Get)) {
        Step::Reply(r) => {
            assert_eq!(r.status, 404);
            assert_eq!(
                r.body,
                "{\"success\": false, \"message\": \"The requested resource does not exist on this server!\"}"
            );
        }
        Step::Send(_) => panic!("the second hop must answer with the fallback"),
    }
}
