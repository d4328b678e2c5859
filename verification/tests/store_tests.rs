use rust_proxy::admin::admin_delete_route;
use rust_proxy::admin::admin_replace_all;
use rust_proxy::admin::admin_update_route;
use rust_proxy::model::AliveState;
use rust_proxy::model::AnomalyDetectionStatus;
use rust_proxy::model::ApiService;
use rust_proxy::model::AppConfig;
use rust_proxy::model::BaseRoute;
use rust_proxy::model::Cluster;
use rust_proxy::model::LivenessStatus;
use rust_proxy::model::LoadbalancerStrategy;
use rust_proxy::model::Matcher;
use rust_proxy::model::Route;
use rust_proxy::model::ServiceConfig;
use rust_proxy::model::ServiceType;
use rust_proxy::store::get_all;
use rust_proxy::store::replace_all;
use rust_proxy::store::update_route;

fn base_route(endpoint: &str) -> BaseRoute {
    BaseRoute {
        endpoint: String::from(endpoint),
        try_file: None,
        is_alive: AliveState::Unknown,
        anomaly_detection_status: AnomalyDetectionStatus { consecutive_5xx: 0 },
    }
}

fn simple_route(id: &str, prefix: &str, rewrite: Option<&str>, endpoints: &[&str]) -> Route {
    Route {
        route_id: String::from(id),
        host_name: None,
        matcher: Matcher {
            prefix: String::from(prefix),
            prefix_rewrite: rewrite.map(String::from),
        },
        allow_deny_list: None,
        authentication: None,
        anomaly_detection: None,
        liveness_config: None,
        liveness_status: LivenessStatus { current_liveness_count: 0 },
        route_cluster: Cluster {
            routes: endpoints.iter().map(|e| base_route(e)).collect(),
            strategy: LoadbalancerStrategy::Random,
        },
    }
}

fn service(port: u16, routes: Vec<Route>) -> ApiService {
    ApiService {
        api_service_id: String::from("svc"),
        listen_port: port,
        service_config: ServiceConfig {
            server_type: ServiceType::Http,
            cert_str: None,
            key_str: None,
            routes,
        },
    }
}

fn empty_config() -> AppConfig {
    AppConfig { api_service_config: Vec::new() }
}

#[test]
fn post_app_config_installs_snapshot() {
    let mut config = empty_config();
    let payload = vec![service(
        4486,
        vec![simple_route("r1", "/get", Some("ssss"), &["http://localhost:8000"])],
    )];
    let (status, body) = admin_replace_all(&mut config, payload);
    assert_eq!(status, 200);
    assert_eq!(body, "{\"response_code\":0,\"response_object\":0}");
    let snap = get_all(&config);
    assert_eq!(snap.api_service_config.len(), 1);
    assert_eq!(snap.api_service_config[0].listen_port, 4486);
    let route = &snap.api_service_config[0].service_config.routes[0];
    assert_eq!(route.route_id, "r1");
    assert_eq!(route.route_cluster.routes[0].endpoint, "http://localhost:8000");
    assert!(matches!(route.route_cluster.routes[0].is_alive, AliveState::Unknown));
    assert_eq!(route.liveness_status.current_liveness_count, 1);
}

#[test]
fn post_app_config_bad_cert_leaves_snapshot() {
    let mut config = empty_config();
    let good = vec![service(1000, vec![simple_route("keep", "/", None, &["http://a"])])];
    assert_eq!(admin_replace_all(&mut config, good).0, 200);

    let mut https_service = service(4443, vec![simple_route("r2", "/", None, &["http://b"])]);
    https_service.service_config.server_type = ServiceType::Https;
    https_service.service_config.cert_str = Some(String::from("not a pem"));
    https_service.service_config.key_str = Some(String::from("not a pem"));
    let (status, body) = admin_replace_all(&mut config, vec![https_service]);
    assert_eq!(status, 500);
    assert!(body.contains("Can not parse the certs pem."));
    // no change to the active snapshot
    assert_eq!(config.api_service_config.len(), 1);
    assert_eq!(config.api_service_config[0].service_config.routes[0].route_id, "keep");
}

#[test]
fn duplicate_port_is_rejected() {
    let mut config = empty_config();
    let payload = vec![
        service(7000, vec![simple_route("a", "/", None, &["http://a"])]),
        service(7000, vec![simple_route("b", "/", None, &["http://b"])]),
    ];
    let (status, body) = admin_replace_all(&mut config, payload);
    assert_eq!(status, 500);
    assert_eq!(body, "Duplicate listen port in the config!");
    assert!(config.api_service_config.is_empty());
}

#[test]
fn empty_cluster_is_rejected() {
    let mut config = empty_config();
    let payload = vec![service(7001, vec![simple_route("a", "/", None, &[])])];
    let (status, body) = admin_replace_all(&mut config, payload);
    assert_eq!(status, 500);
    assert_eq!(body, "The route cluster is empty!");
}

#[test]
fn put_route_unknown_id_is_500() {
    let mut config = empty_config();
    let payload = vec![service(4486, vec![simple_route("r1", "/", None, &["http://a"])])];
    assert_eq!(admin_replace_all(&mut config, payload).0, 200);
    let submission = simple_route(
        "90c66439-5c87-4902-aebb-1c2c9443c154",
        "/",
        Some("ssss"),
        &["http://127.0.0.1:10000"],
    );
    let (status, body) = admin_update_route(&mut config, submission);
    assert_eq!(status, 500);
    assert_eq!(body, "Can not find the route by route id!");
    // nothing changed
    assert_eq!(config.api_service_config[0].service_config.routes[0].route_id, "r1");
}

#[test]
fn put_route_preserves_liveness_of_surviving_endpoint() {
    let mut config = empty_config();
    let payload = vec![service(
        4486,
        vec![simple_route("r1", "/", None, &["http://127.0.0.1:10000", "http://other"])],
    )];
    assert_eq!(admin_replace_all(&mut config, payload).0, 200);
    {
        let b = &mut config.api_service_config[0].service_config.routes[0].route_cluster.routes[0];
        b.is_alive = AliveState::Ejected;
        b.anomaly_detection_status.consecutive_5xx = 7;
        config.api_service_config[0].service_config.routes[0]
            .liveness_status
            .current_liveness_count = 1;
    }
    let submission = simple_route("r1", "/", Some("ssss"), &["http://127.0.0.1:10000", "http://fresh"]);
    let (status, _) = admin_update_route(&mut config, submission);
    assert_eq!(status, 200);
    let route = &config.api_service_config[0].service_config.routes[0];
    // surviving endpoint keeps its state
    assert!(matches!(route.route_cluster.routes[0].is_alive, AliveState::Ejected));
    assert_eq!(route.route_cluster.routes[0].anomaly_detection_status.consecutive_5xx, 7);
    // new endpoint starts unknown with a cleared counter
    assert!(matches!(route.route_cluster.routes[1].is_alive, AliveState::Unknown));
    assert_eq!(route.route_cluster.routes[1].anomaly_detection_status.consecutive_5xx, 0);
    // the live count was recomputed: one of two is ejected
    assert_eq!(route.liveness_status.current_liveness_count, 1);
    // the matcher was replaced
    assert_eq!(route.matcher.prefix_rewrite.as_deref(), Some("ssss"));
}

#[test]
fn delete_route_always_200_and_removes_route() {
    let mut config = empty_config();
    let payload = vec![
        service(4486, vec![
            simple_route("keep", "/a", None, &["http://a"]),
            simple_route("90c66439-5c87-4902-aebb-1c2c9443c154", "/b", None, &["http://b"]),
        ]),
        service(4487, vec![simple_route("only", "/", None, &["http://c"])]),
    ];
    assert_eq!(admin_replace_all(&mut config, payload).0, 200);

    // deleting an unknown id is a 200 and a no-op
    let (status, _) = admin_delete_route(&mut config, &String::from("missing"));
    assert_eq!(status, 200);
    assert_eq!(config.api_service_config.len(), 2);
    assert_eq!(config.api_service_config[0].service_config.routes.len(), 2);

    // the route disappears, its service survives with the sibling route
    let id = String::from("90c66439-5c87-4902-aebb-1c2c9443c154");
    let (status, _) = admin_delete_route(&mut config, &id);
    assert_eq!(status, 200);
    assert_eq!(config.api_service_config.len(), 2);
    assert_eq!(config.api_service_config[0].service_config.routes.len(), 1);
    assert_eq!(config.api_service_config[0].service_config.routes[0].route_id, "keep");

    // deleting a service's last route removes the service too
    let (status, _) = admin_delete_route(&mut config, &String::from("only"));
    assert_eq!(status, 200);
    assert_eq!(config.api_service_config.len(), 1);
    assert_eq!(config.api_service_config[0].listen_port, 4486);
}

fn snapshot_fingerprint(config: &AppConfig) -> Vec<(u16, Vec<(String, Vec<(String, u8, u64)>)>)> {
    config
        .api_service_config
        .iter()
        .map(|s| {
            (
                s.listen_port,
                s.service_config
                    .routes
                    .iter()
                    .map(|r| {
                        (
                            r.route_id.clone(),
                            r.route_cluster
                                .routes
                                .iter()
                                .map(|b| {
                                    let alive: u8 = match b.is_alive {
                                        AliveState::Unknown => 0,
                                        AliveState::Live => 1,
                                        AliveState::Ejected => 2,
                                    };
                                    (
                                        b.endpoint.clone(),
                                        alive,
                                        b.anomaly_detection_status.consecutive_5xx,
                                    )
                                })
                                .collect(),
                        )
                    })
                    .collect(),
            )
        })
        .collect()
}

#[test]
fn replace_all_twice_is_replace_all_once() {
    let payload = || {
        vec![service(
            4486,
            vec![simple_route("r1", "/get", Some("ssss"), &["http://localhost:8000", "http://x"])],
        )]
    };
    let mut config = empty_config();
    assert_eq!(admin_replace_all(&mut config, payload()).0, 200);
    // some traffic changes liveness state
    config.api_service_config[0].service_config.routes[0].route_cluster.routes[1].is_alive =
        AliveState::Live;
    let first = replace_all(&config, payload()).unwrap();
    let second = replace_all(&first, payload()).unwrap();
    assert_eq!(snapshot_fingerprint(&first), snapshot_fingerprint(&second));
}

#[test]
fn update_then_delete_of_unknown_id_restores_route_ids() {
    let mut config = empty_config();
    let payload = vec![service(4486, vec![simple_route("r1", "/", None, &["http://a"])])];
    assert_eq!(admin_replace_all(&mut config, payload).0, 200);
    let before = snapshot_fingerprint(&config);
    let id = String::from("90c66439-5c87-4902-aebb-1c2c9443c154");
    let submission = simple_route(&id, "/", Some("ssss"), &["http://127.0.0.1:10000"]);
    assert!(update_route(&mut config, submission).is_err());
    let (status, _) = admin_delete_route(&mut config, &id);
    assert_eq!(status, 200);
    assert_eq!(before, snapshot_fingerprint(&config));
}
