use rust_proxy::dispatch::plan_request;
use rust_proxy::dispatch::not_found_body;
use rust_proxy::dispatch::DispatchPlan;
use rust_proxy::dispatch::deny_body;
use rust_proxy::model::AliveState;
use rust_proxy::model::AllowDenyObject;
use rust_proxy::model::AllowType;
use rust_proxy::model::AnomalyDetectionStatus;
use rust_proxy::model::ApiService;
use rust_proxy::model::Authentication;
use rust_proxy::model::BaseRoute;
use rust_proxy::model::Cluster;
use rust_proxy::model::LivenessStatus;
use rust_proxy::model::LoadbalancerStrategy;
use rust_proxy::model::Matcher;
use rust_proxy::model::Route;
use rust_proxy::model::ServiceConfig;
use rust_proxy::model::ServiceType;
use rust_proxy::dispatch::RequestInfo;

fn base_route(endpoint: &str) -> BaseRoute {
    BaseRoute {
        endpoint: String::from(endpoint),
        try_file: None,
        is_alive: AliveState::Unknown,
        anomaly_detection_status: AnomalyDetectionStatus { consecutive_5xx: 0 },
    }
}

fn route_with(
    prefix: &str,
    rewrite: Option<&str>,
    endpoints: &[&str],
    strategy: LoadbalancerStrategy,
) -> Route {
    let n = endpoints.len() as u64;
    Route {
        route_id: String::from("r"),
        host_name: None,
        matcher: Matcher {
            prefix: String::from(prefix),
            prefix_rewrite: rewrite.map(String::from),
        },
        allow_deny_list: None,
        authentication: None,
        anomaly_detection: None,
        liveness_config: None,
        liveness_status: LivenessStatus { current_liveness_count: n },
        route_cluster: Cluster {
            routes: endpoints.iter().map(|e| base_route(e)).collect(),
            strategy,
        },
    }
}

fn service_of(routes: Vec<Route>) -> ApiService {
    ApiService {
        api_service_id: String::from("svc"),
        listen_port: 4486,
        service_config: ServiceConfig {
            server_type: ServiceType::Http,
            cert_str: None,
            key_str: None,
            routes,
        },
    }
}

fn request(path: &str) -> RequestInfo {
    RequestInfo {
        path: String::from(path),
        host: None,
        client_ip: String::from("127.0.0.1"),
        headers: Vec::new(),
    }
}

#[test]
fn unmatched_path_is_not_found_for_any_method() {
    // the decision never reads the method: the same plan serves them all
    let mut svc = service_of(vec![route_with("/get", None, &["http://a"], LoadbalancerStrategy::Random)]);
    let plan = plan_request(&mut svc, &request("/other"), 0);
    assert!(matches!(plan, DispatchPlan::NotFound));
    assert_eq!(not_found_body(), "The request path is not found!");
}

#[test]
fn matched_prefix_forwards_with_rewrite() {
    let mut svc = service_of(vec![route_with(
        "/get",
        Some("ssss"),
        &["http://localhost:8000"],
        LoadbalancerStrategy::Random,
    )]);
    let plan = plan_request(&mut svc, &request("/get"), 0);
    match plan {
        DispatchPlan::Forward { target, https, upstream_index, .. } => {
            assert_eq!(target, "http://localhost:8000/ssss");
            assert!(!https);
            assert_eq!(upstream_index, 0);
        },
        _ => panic!("expected a forward plan"),
    }
}

#[test]
fn https_endpoint_sets_tls_and_keeps_path_without_rewrite() {
    let mut svc = service_of(vec![route_with(
        "/",
        None,
        &["https://upstream:8443"],
        LoadbalancerStrategy::Random,
    )]);
    let plan = plan_request(&mut svc, &request("/api/x"), 0);
    match plan {
        DispatchPlan::Forward { target, https, .. } => {
            assert_eq!(target, "https://upstream:8443/api/x");
            assert!(https);
        },
        _ => panic!("expected a forward plan"),
    }
}

#[test]
fn file_endpoint_serves_file() {
    let mut svc = service_of(vec![route_with("/", Some("app_config.yaml"), &["config"], LoadbalancerStrategy::Random)]);
    let plan = plan_request(&mut svc, &request("/"), 0);
    match plan {
        DispatchPlan::ServeFile { endpoint, rewritten_path, .. } => {
            assert_eq!(endpoint, "config");
            assert_eq!(rewritten_path, "app_config.yaml");
        },
        _ => panic!("expected a file plan"),
    }
}

#[test]
fn denied_ip_is_forbidden_with_fixed_body() {
    let mut route = route_with("/", None, &["http://a"], LoadbalancerStrategy::Random);
    route.allow_deny_list = Some(vec![AllowDenyObject {
        limit_type: AllowType::Deny,
        value: Some(String::from("127.0.0.1")),
    }]);
    let mut svc = service_of(vec![route]);
    let plan = plan_request(&mut svc, &request("/get"), 0);
    assert!(matches!(plan, DispatchPlan::Forbidden));
    assert_eq!(deny_body(), "Forbidden.\n");
}

#[test]
fn allow_all_passes() {
    let mut route = route_with("/", None, &["http://a"], LoadbalancerStrategy::Random);
    route.allow_deny_list = Some(vec![
        AllowDenyObject { limit_type: AllowType::AllowAll, value: None },
        AllowDenyObject { limit_type: AllowType::Deny, value: Some(String::from("127.0.0.1")) },
    ]);
    let mut svc = service_of(vec![route]);
    let plan = plan_request(&mut svc, &request("/get"), 0);
    assert!(matches!(plan, DispatchPlan::Forward { .. }));
}

#[test]
fn no_matching_rule_rejects() {
    let mut route = route_with("/", None, &["http://a"], LoadbalancerStrategy::Random);
    route.allow_deny_list = Some(vec![AllowDenyObject {
        limit_type: AllowType::Allow,
        value: Some(String::from("10.0.0.1")),
    }]);
    let mut svc = service_of(vec![route]);
    let plan = plan_request(&mut svc, &request("/get"), 0);
    assert!(matches!(plan, DispatchPlan::Forbidden));
}

#[test]
fn missing_credentials_are_unauthorized() {
    let mut route = route_with("/", None, &["http://a"], LoadbalancerStrategy::Random);
    route.authentication = Some(Authentication::Basic {
        username: String::from("user"),
        password: String::from("pw"),
    });
    let mut svc = service_of(vec![route]);
    let plan = plan_request(&mut svc, &request("/get"), 0);
    assert!(matches!(plan, DispatchPlan::Unauthorized));
}

#[test]
fn basic_credentials_pass() {
    let mut route = route_with("/", None, &["http://a"], LoadbalancerStrategy::Random);
    route.authentication = Some(Authentication::Basic {
        username: String::from("user"),
        password: String::from("pw"),
    });
    let mut svc = service_of(vec![route]);
    let mut req = request("/get");
    req.headers = vec![(String::from("Authorization"), String::from("Basic user:pw"))];
    let plan = plan_request(&mut svc, &req, 0);
    assert!(matches!(plan, DispatchPlan::Forward { .. }));
}

#[test]
fn api_key_header_checked_case_insensitively_by_name() {
    let mut route = route_with("/", None, &["http://a"], LoadbalancerStrategy::Random);
    route.authentication = Some(Authentication::ApiKey {
        header_name: String::from("X-Api-Key"),
        expected: String::from("SECRET-REDACTED"),
    });
    let mut svc = service_of(vec![route]);
    let mut req = request("/get");
    req.headers = vec![(String::from("x-api-key"), String::from("SECRET-REDACTED"))];
    let plan = plan_request(&mut svc, &req, 0);
    assert!(matches!(plan, DispatchPlan::Forward { .. }));
    let mut req2 = request("/get");
    req2.headers = vec![(String::from("x-api-key"), String::from("wrong"))];
    let plan2 = plan_request(&mut svc, &req2, 0);
    assert!(matches!(plan2, DispatchPlan::Unauthorized));
}

#[test]
fn websocket_markers_hand_off() {
    let mut svc = service_of(vec![route_with("/", None, &["http://a"], LoadbalancerStrategy::Random)]);
    let mut req = request("/chat");
    req.headers = vec![
        (String::from("Connection"), String::from("Upgrade")),
        (String::from("Sec-WebSocket-Key"), String::from("abc")),
    ];
    let plan = plan_request(&mut svc, &req, 0);
    assert!(matches!(plan, DispatchPlan::WebsocketUpgrade { route_index: 0 }));
}

#[test]
fn host_constraint_matches_case_insensitively() {
    let mut route = route_with("/", None, &["http://a"], LoadbalancerStrategy::Random);
    route.host_name = Some(String::from("Example.COM"));
    let mut svc = service_of(vec![route]);
    let mut req = request("/get");
    req.host = Some(String::from("example.com"));
    assert!(matches!(plan_request(&mut svc, &req, 0), DispatchPlan::Forward { .. }));
    let mut req2 = request("/get");
    req2.host = Some(String::from("other.com"));
    assert!(matches!(plan_request(&mut svc, &req2, 0), DispatchPlan::NotFound));
    let req3 = request("/get");
    assert!(matches!(plan_request(&mut svc, &req3, 0), DispatchPlan::NotFound));
}

#[test]
fn first_route_wins_never_longest_prefix() {
    let mut svc = service_of(vec![
        route_with("/a", None, &["http://first"], LoadbalancerStrategy::Random),
        route_with("/a/b", None, &["http://second"], LoadbalancerStrategy::Random),
    ]);
    let plan = plan_request(&mut svc, &request("/a/b/c"), 0);
    match plan {
        DispatchPlan::Forward { route_index, .. } => assert_eq!(route_index, 0),
        _ => panic!("expected a forward plan"),
    }
}

#[test]
fn round_robin_cycles_over_live_upstreams() {
    let mut svc = service_of(vec![route_with(
        "/",
        None,
        &["http://a", "http://b", "http://c"],
        LoadbalancerStrategy::RoundRobin { index: 0 },
    )]);
    let mut picks = Vec::new();
    for _ in 0..6 {
        match plan_request(&mut svc, &request("/x"), 0) {
            DispatchPlan::Forward { upstream_index, .. } => picks.push(upstream_index),
            _ => panic!("expected a forward plan"),
        }
    }
    assert_eq!(picks, vec![0, 1, 2, 0, 1, 2]);
}

#[test]
fn round_robin_skips_ejected_upstreams() {
    let mut svc = service_of(vec![route_with(
        "/",
        None,
        &["http://a", "http://b", "http://c"],
        LoadbalancerStrategy::RoundRobin { index: 0 },
    )]);
    svc.service_config.routes[0].route_cluster.routes[1].is_alive = AliveState::Ejected;
    svc.service_config.routes[0].liveness_status.current_liveness_count = 2;
    let mut picks = Vec::new();
    for _ in 0..4 {
        match plan_request(&mut svc, &request("/x"), 0) {
            DispatchPlan::Forward { upstream_index, .. } => picks.push(upstream_index),
            _ => panic!("expected a forward plan"),
        }
    }
    assert_eq!(picks, vec![0, 2, 0, 2]);
}

#[test]
fn all_ejected_falls_back_to_full_set() {
    let mut svc = service_of(vec![route_with(
        "/",
        None,
        &["http://a", "http://b"],
        LoadbalancerStrategy::Random,
    )]);
    for b in svc.service_config.routes[0].route_cluster.routes.iter_mut() {
        b.is_alive = AliveState::Ejected;
    }
    svc.service_config.routes[0].liveness_status.current_liveness_count = 0;
    match plan_request(&mut svc, &request("/x"), 3) {
        DispatchPlan::Forward { upstream_index, .. } => assert_eq!(upstream_index, 1),
        _ => panic!("expected a forward plan"),
    }
}

#[test]
fn ip_hash_is_stable_while_live_set_is_unchanged() {
    let make = || {
        service_of(vec![route_with(
            "/",
            None,
            &["http://a", "http://b", "http://c"],
            LoadbalancerStrategy::IpHash,
        )])
    };
    let mut svc = make();
    let first = match plan_request(&mut svc, &request("/x"), 0) {
        DispatchPlan::Forward { upstream_index, .. } => upstream_index,
        _ => panic!("expected a forward plan"),
    };
    let again = match plan_request(&mut svc, &request("/x"), 99) {
        DispatchPlan::Forward { upstream_index, .. } => upstream_index,
        _ => panic!("expected a forward plan"),
    };
    assert_eq!(first, again);
}

#[test]
fn header_hash_same_key_same_upstream() {
    let mut svc = service_of(vec![route_with(
        "/",
        None,
        &["http://a", "http://b", "http://c"],
        LoadbalancerStrategy::HeaderHash { header_name: String::from("x-user") },
    )]);
    let mut req = request("/x");
    req.headers = vec![(String::from("x-user"), String::from("alice"))];
    let p1 = match plan_request(&mut svc, &req, 1) {
        DispatchPlan::Forward { upstream_index, .. } => upstream_index,
        _ => panic!("expected a forward plan"),
    };
    let p2 = match plan_request(&mut svc, &req, 2) {
        DispatchPlan::Forward { upstream_index, .. } => upstream_index,
        _ => panic!("expected a forward plan"),
    };
    assert_eq!(p1, p2);
}

#[test]
fn poll_sticks_until_upstream_leaves() {
    let mut svc = service_of(vec![route_with(
        "/",
        None,
        &["http://a", "http://b"],
        LoadbalancerStrategy::Poll { index: 0 },
    )]);
    for _ in 0..3 {
        match plan_request(&mut svc, &request("/x"), 0) {
            DispatchPlan::Forward { upstream_index, .. } => assert_eq!(upstream_index, 0),
            _ => panic!("expected a forward plan"),
        }
    }
    svc.service_config.routes[0].route_cluster.routes[0].is_alive = AliveState::Ejected;
    svc.service_config.routes[0].liveness_status.current_liveness_count = 1;
    match plan_request(&mut svc, &request("/x"), 0) {
        DispatchPlan::Forward { upstream_index, .. } => assert_eq!(upstream_index, 1),
        _ => panic!("expected a forward plan"),
    }
}

#[test]
fn weighted_random_honours_budgets() {
    let mut svc = service_of(vec![route_with(
        "/",
        None,
        &["http://a", "http://b"],
        LoadbalancerStrategy::WeightedRandom { weights: vec![1, 2], budgets: vec![1, 2] },
    )]);
    // entropy 0 always takes the first upstream with budget left; the budget
    // drains, so three picks cover both upstreams
    let mut picks = Vec::new();
    for _ in 0..3 {
        match plan_request(&mut svc, &request("/x"), 0) {
            DispatchPlan::Forward { upstream_index, .. } => picks.push(upstream_index),
            _ => panic!("expected a forward plan"),
        }
    }
    assert_eq!(picks, vec![0, 1, 1]);
    // all budgets are spent: they reset to the declared weights
    match plan_request(&mut svc, &request("/x"), 0) {
        DispatchPlan::Forward { upstream_index, .. } => assert_eq!(upstream_index, 0),
        _ => panic!("expected a forward plan"),
    }
}
