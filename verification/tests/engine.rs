use rust_proxy::app_config::ApiService;
use rust_proxy::app_config::AuthRule;
use rust_proxy::app_config::BaseRoute;
use rust_proxy::app_config::Route;
use rust_proxy::app_config::RouteCluster;
use rust_proxy::app_config::ServiceConfig;
use rust_proxy::app_config::ServiceType;
use rust_proxy::handler::Handler;
use rust_proxy::proxy::CheckTrait;
use rust_proxy::proxy::CommonCheckRequest;
use rust_proxy::text::extract_path;
use rust_proxy::text::join_target;
use rust_proxy::text::split_header_line;
use rust_proxy::AppError;

fn route(prefix: &str, auth: AuthRule, endpoints: &[(&str, bool)]) -> Route {
    Route {
        prefix: prefix.to_string(),
        required_headers: Vec::new(),
        auth,
        route_cluster: RouteCluster {
            backends: endpoints
                .iter()
                .map(|(e, alive)| BaseRoute { endpoint: e.to_string(), is_alive: *alive })
                .collect(),
            next_index: 0,
        },
    }
}

fn service(port: i32, routes: Vec<Route>) -> ApiService {
    ApiService {
        listen_port: port,
        service_config: ServiceConfig { server_type: ServiceType::Http, routes, tls: None },
    }
}

fn fresh_handler() -> Handler {
    Handler::new(rust_proxy::handler::init_static_config(None, None, None, None))
}

#[test]
fn test_url_parse() {
    let host = url::Url::parse("http://127.0.0.1:8080");
    assert!(host.is_ok());
}

#[test]
fn prefix_match_resolves_forward_target() {
    let mut h = fresh_handler();
    let svc = service(8080, vec![route("/users", AuthRule::AllowAll, &[("http://10.0.0.1:9000", true)])]);
    let (id, _stop) = h.apply_service(svc);
    let engine = CommonCheckRequest;
    let r = engine
        .check_before_request(
            &mut h.shared_app_config,
            id,
            Vec::new(),
            "/users/42".to_string(),
            "1.2.3.4".to_string(),
        )
        .unwrap();
    let cr = r.expect("expected a match");
    assert_eq!(cr.request_path, "http://10.0.0.1:9000/42");
    assert_eq!(cr.base_route.endpoint, "http://10.0.0.1:9000");
    assert_eq!(cr.route.prefix, "/users");
}

#[test]
fn unmatched_path_yields_no_match() {
    let mut h = fresh_handler();
    let svc = service(8080, vec![route("/users", AuthRule::AllowAll, &[("http://10.0.0.1:9000", true)])]);
    let (id, _stop) = h.apply_service(svc);
    let engine = CommonCheckRequest;
    let r = engine
        .check_before_request(
            &mut h.shared_app_config,
            id,
            Vec::new(),
            "/orders/1".to_string(),
            "1.2.3.4".to_string(),
        )
        .unwrap();
    assert!(r.is_none());
}

#[test]
fn unauthorized_reads_like_unmatched() {
    let mut h = fresh_handler();
    let denied = route(
        "/users",
        AuthRule::DenyList(vec!["9.9.9.9".to_string()]),
        &[("http://10.0.0.1:9000", true)],
    );
    let svc = service(8080, vec![denied]);
    let (id, _stop) = h.apply_service(svc);
    let engine = CommonCheckRequest;
    let unauthorized = engine
        .check_before_request(
            &mut h.shared_app_config,
            id,
            Vec::new(),
            "/users/42".to_string(),
            "9.9.9.9".to_string(),
        )
        .unwrap();
    let unmatched = engine
        .check_before_request(
            &mut h.shared_app_config,
            id,
            Vec::new(),
            "/nothing".to_string(),
            "9.9.9.9".to_string(),
        )
        .unwrap();
    assert!(unauthorized.is_none());
    assert!(unmatched.is_none());
}

#[test]
fn allow_list_admits_only_listed_addresses() {
    let mut h = fresh_handler();
    let guarded = route(
        "/api",
        AuthRule::AllowList(vec!["10.0.0.7".to_string()]),
        &[("http://backend:1", true)],
    );
    let (id, _stop) = h.apply_service(service(80, vec![guarded]));
    let engine = CommonCheckRequest;
    let admitted = engine
        .check_before_request(
            &mut h.shared_app_config,
            id,
            Vec::new(),
            "/api/x".to_string(),
            "10.0.0.7".to_string(),
        )
        .unwrap();
    assert!(admitted.is_some());
    let refused = engine
        .check_before_request(
            &mut h.shared_app_config,
            id,
            Vec::new(),
            "/api/x".to_string(),
            "10.0.0.8".to_string(),
        )
        .unwrap();
    assert!(refused.is_none());
}

#[test]
fn first_declared_route_wins() {
    let mut h = fresh_handler();
    let first = route("/a", AuthRule::AllowAll, &[("http://first:1", true)]);
    let second = route("/a", AuthRule::AllowAll, &[("http://second:2", true)]);
    let (id, _stop) = h.apply_service(service(80, vec![first, second]));
    let engine = CommonCheckRequest;
    for _ in 0..3 {
        let cr = engine
            .check_before_request(
                &mut h.shared_app_config,
                id,
                Vec::new(),
                "/a/x".to_string(),
                "1.1.1.1".to_string(),
            )
            .unwrap()
            .expect("expected a match");
        assert_eq!(cr.base_route.endpoint, "http://first:1");
    }
}

#[test]
fn required_headers_gate_the_match() {
    let mut h = fresh_handler();
    let mut gated = route("/h", AuthRule::AllowAll, &[("http://backend:1", true)]);
    gated.required_headers = vec![("x-tenant".to_string(), "blue".to_string())];
    let (id, _stop) = h.apply_service(service(80, vec![gated]));
    let engine = CommonCheckRequest;
    let without = engine
        .check_before_request(
            &mut h.shared_app_config,
            id,
            Vec::new(),
            "/h/x".to_string(),
            "1.1.1.1".to_string(),
        )
        .unwrap();
    assert!(without.is_none());
    let with = engine
        .check_before_request(
            &mut h.shared_app_config,
            id,
            vec![("x-tenant".to_string(), "blue".to_string())],
            "/h/x".to_string(),
            "1.1.1.1".to_string(),
        )
        .unwrap();
    assert!(with.is_some());
}

#[test]
fn round_robin_alternates_live_backends() {
    let mut h = fresh_handler();
    let cluster = route(
        "/rr",
        AuthRule::AllowAll,
        &[("http://one:1", true), ("http://two:2", true)],
    );
    let (id, _stop) = h.apply_service(service(80, vec![cluster]));
    let engine = CommonCheckRequest;
    let mut seen = Vec::new();
    for _ in 0..4 {
        let cr = engine
            .check_before_request(
                &mut h.shared_app_config,
                id,
                Vec::new(),
                "/rr/x".to_string(),
                "1.1.1.1".to_string(),
            )
            .unwrap()
            .unwrap();
        seen.push(cr.base_route.endpoint);
    }
    assert_eq!(seen, vec!["http://one:1", "http://two:2", "http://one:1", "http://two:2"]);
}

#[test]
fn selection_skips_dead_backends() {
    let mut h = fresh_handler();
    let cluster = route(
        "/rr",
        AuthRule::AllowAll,
        &[("http://dead:1", false), ("http://live:2", true)],
    );
    let (id, _stop) = h.apply_service(service(80, vec![cluster]));
    let engine = CommonCheckRequest;
    let cr = engine
        .check_before_request(
            &mut h.shared_app_config,
            id,
            Vec::new(),
            "/rr/x".to_string(),
            "1.1.1.1".to_string(),
        )
        .unwrap()
        .unwrap();
    assert_eq!(cr.base_route.endpoint, "http://live:2");
}

#[test]
fn all_dead_backends_still_select_advisory() {
    let mut h = fresh_handler();
    let cluster = route("/rr", AuthRule::AllowAll, &[("http://only:1", false)]);
    let (id, _stop) = h.apply_service(service(80, vec![cluster]));
    let engine = CommonCheckRequest;
    let cr = engine
        .check_before_request(
            &mut h.shared_app_config,
            id,
            Vec::new(),
            "/rr/x".to_string(),
            "1.1.1.1".to_string(),
        )
        .unwrap()
        .unwrap();
    assert_eq!(cr.base_route.endpoint, "http://only:1");
}

#[test]
fn filesystem_backend_joins_paths() {
    let mut h = fresh_handler();
    let files = route("/static/", AuthRule::AllowAll, &[("/srv/static", true)]);
    let (id, _stop) = h.apply_service(service(80, vec![files]));
    let engine = CommonCheckRequest;
    let cr = engine
        .check_before_request(
            &mut h.shared_app_config,
            id,
            Vec::new(),
            "/static/index.html".to_string(),
            "1.1.1.1".to_string(),
        )
        .unwrap()
        .unwrap();
    assert_eq!(cr.request_path, "/srv/static/index.html");
}

#[test]
fn unknown_service_is_configuration_not_found() {
    let mut h = fresh_handler();
    let engine = CommonCheckRequest;
    let r = engine.check_before_request(
        &mut h.shared_app_config,
        77,
        Vec::new(),
        "/x".to_string(),
        "1.1.1.1".to_string(),
    );
    assert!(matches!(r, Err(AppError::ConfigurationNotFound)));
}

#[test]
fn empty_path_is_invalid_request() {
    let mut h = fresh_handler();
    let (id, _stop) = h.apply_service(service(80, vec![route("/", AuthRule::AllowAll, &[("http://b:1", true)])]));
    let engine = CommonCheckRequest;
    let r = engine.check_before_request(
        &mut h.shared_app_config,
        id,
        Vec::new(),
        String::new(),
        "1.1.1.1".to_string(),
    );
    assert!(matches!(r, Err(AppError::InvalidRequest)));
}

#[test]
fn unparsable_url_backend_is_routing_error() {
    let mut h = fresh_handler();
    let bad = route("/u", AuthRule::AllowAll, &[("http://", true)]);
    let (id, _stop) = h.apply_service(service(80, vec![bad]));
    let engine = CommonCheckRequest;
    let r = engine.check_before_request(
        &mut h.shared_app_config,
        id,
        Vec::new(),
        "/u/x".to_string(),
        "1.1.1.1".to_string(),
    );
    assert!(matches!(r, Err(AppError::RoutingError)));
}

#[test]
fn join_target_inserts_exactly_one_separator() {
    assert_eq!(
        join_target(&"http://example.com/api".to_string(), &"/v1/items".to_string()),
        "http://example.com/api/v1/items"
    );
    assert_eq!(
        join_target(&"/srv/static".to_string(), &"index.html".to_string()),
        "/srv/static/index.html"
    );
    assert_eq!(join_target(&"http://h/".to_string(), &"/x".to_string()), "http://h//x");
    assert_eq!(join_target(&"http://h".to_string(), &"x".to_string()), "http://h/x");
}

#[test]
fn extract_path_takes_the_request_target() {
    assert_eq!(extract_path("GET /users/42 HTTP/1.1").as_deref(), Some("/users/42"));
    assert_eq!(extract_path("POST / HTTP/1.0").as_deref(), Some("/"));
    assert!(extract_path("GET").is_none());
    assert!(extract_path("GET /nothing-after").is_none());
    assert!(extract_path("").is_none());
}

#[test]
fn split_header_line_names_and_values() {
    let (name, value) = split_header_line("Host: example.com").unwrap();
    assert_eq!(name, "Host");
    assert_eq!(value, "example.com");
    let (name, value) = split_header_line("x-tenant:blue").unwrap();
    assert_eq!(name, "x-tenant");
    assert_eq!(value, "blue");
    assert!(split_header_line("no colon here").is_none());
}
