use rust_proxy::model::AliveState;
use rust_proxy::model::AnomalyDetection;
use rust_proxy::model::AnomalyDetectionStatus;
use rust_proxy::model::BaseRoute;
use rust_proxy::model::Cluster;
use rust_proxy::model::LivenessConfig;
use rust_proxy::model::LivenessStatus;
use rust_proxy::model::LoadbalancerStrategy;
use rust_proxy::model::Matcher;
use rust_proxy::model::Route;
use rust_proxy::tracker::record_outcome;
use rust_proxy::tracker::reinstate_upstream;
use rust_proxy::tracker::Outcome;
use rust_proxy::tracker::TrackerAction;

fn tracked_route(endpoints: &[&str], threshold: u64, ejection_second: u64, min: u64) -> Route {
    Route {
        route_id: String::from("r"),
        host_name: None,
        matcher: Matcher { prefix: String::from("/"), prefix_rewrite: None },
        allow_deny_list: None,
        authentication: None,
        anomaly_detection: Some(AnomalyDetection { consecutive_5xx: threshold, ejection_second }),
        liveness_config: Some(LivenessConfig { min_liveness_count: min }),
        liveness_status: LivenessStatus { current_liveness_count: endpoints.len() as u64 },
        route_cluster: Cluster {
            routes: endpoints
                .iter()
                .map(|e| BaseRoute {
                    endpoint: String::from(*e),
                    try_file: None,
                    is_alive: AliveState::Unknown,
                    anomaly_detection_status: AnomalyDetectionStatus { consecutive_5xx: 0 },
                })
                .collect(),
            strategy: LoadbalancerStrategy::Random,
        },
    }
}

#[test]
fn three_failures_leave_a_lone_upstream_live() {
    // threshold 3, ejection 10 s, one upstream, liveness floor 1
    let mut route = tracked_route(&["http://only"], 3, 10, 1);
    for _ in 0..3 {
        let act = record_outcome(&mut route, 0, Outcome::Status { code: 502 });
        assert!(matches!(act, TrackerAction::Keep));
    }
    assert!(!matches!(route.route_cluster.routes[0].is_alive, AliveState::Ejected));
    assert_eq!(route.route_cluster.routes[0].anomaly_detection_status.consecutive_5xx, 3);
    // even past the threshold, ejecting the last upstream is suppressed
    let act = record_outcome(&mut route, 0, Outcome::Status { code: 502 });
    assert!(matches!(act, TrackerAction::Keep));
    assert!(!matches!(route.route_cluster.routes[0].is_alive, AliveState::Ejected));
    assert_eq!(route.route_cluster.routes[0].anomaly_detection_status.consecutive_5xx, 4);
    assert_eq!(route.liveness_status.current_liveness_count, 1);
}

#[test]
fn with_a_second_upstream_the_offender_is_ejected_and_reinstated() {
    let mut route = tracked_route(&["http://bad", "http://good"], 3, 10, 1);
    // the (threshold + 1)-th consecutive failure ejects
    for _ in 0..3 {
        assert!(matches!(
            record_outcome(&mut route, 0, Outcome::Status { code: 500 }),
            TrackerAction::Keep
        ));
    }
    let act = record_outcome(&mut route, 0, Outcome::Status { code: 500 });
    assert!(matches!(act, TrackerAction::Ejected { reinstate_after: 10 }));
    assert!(matches!(route.route_cluster.routes[0].is_alive, AliveState::Ejected));
    assert_eq!(route.liveness_status.current_liveness_count, 1);
    // after the delay the upstream returns live with a cleared counter
    reinstate_upstream(&mut route, 0);
    assert!(matches!(route.route_cluster.routes[0].is_alive, AliveState::Live));
    assert_eq!(route.route_cluster.routes[0].anomaly_detection_status.consecutive_5xx, 0);
    assert_eq!(route.liveness_status.current_liveness_count, 2);
}

#[test]
fn transport_errors_count_as_failures() {
    let mut route = tracked_route(&["http://bad", "http://good"], 1, 5, 1);
    assert!(matches!(
        record_outcome(&mut route, 0, Outcome::TransportError),
        TrackerAction::Keep
    ));
    let act = record_outcome(&mut route, 0, Outcome::TransportError);
    assert!(matches!(act, TrackerAction::Ejected { reinstate_after: 5 }));
}

#[test]
fn success_clears_the_counter_and_marks_unknown_live() {
    let mut route = tracked_route(&["http://a"], 3, 10, 1);
    record_outcome(&mut route, 0, Outcome::Status { code: 503 });
    record_outcome(&mut route, 0, Outcome::Status { code: 503 });
    assert_eq!(route.route_cluster.routes[0].anomaly_detection_status.consecutive_5xx, 2);
    record_outcome(&mut route, 0, Outcome::Status { code: 200 });
    assert_eq!(route.route_cluster.routes[0].anomaly_detection_status.consecutive_5xx, 0);
    assert!(matches!(route.route_cluster.routes[0].is_alive, AliveState::Live));
}

#[test]
fn client_cancel_changes_nothing() {
    let mut route = tracked_route(&["http://a", "http://b"], 3, 10, 1);
    record_outcome(&mut route, 0, Outcome::Status { code: 500 });
    let before = route.route_cluster.routes[0].anomaly_detection_status.consecutive_5xx;
    let act = record_outcome(&mut route, 0, Outcome::ClientCancel);
    assert!(matches!(act, TrackerAction::Keep));
    assert_eq!(route.route_cluster.routes[0].anomaly_detection_status.consecutive_5xx, before);
    assert!(matches!(route.route_cluster.routes[0].is_alive, AliveState::Unknown));
}

#[test]
fn a_4xx_is_no_failure() {
    let mut route = tracked_route(&["http://a"], 1, 10, 0);
    record_outcome(&mut route, 0, Outcome::Status { code: 500 });
    record_outcome(&mut route, 0, Outcome::Status { code: 404 });
    assert_eq!(route.route_cluster.routes[0].anomaly_detection_status.consecutive_5xx, 0);
}

#[test]
fn without_a_policy_the_tracker_is_idle() {
    let mut route = tracked_route(&["http://a"], 3, 10, 1);
    route.anomaly_detection = None;
    for _ in 0..10 {
        assert!(matches!(
            record_outcome(&mut route, 0, Outcome::Status { code: 500 }),
            TrackerAction::Keep
        ));
    }
    assert_eq!(route.route_cluster.routes[0].anomaly_detection_status.consecutive_5xx, 0);
}

#[test]
fn reinstating_a_live_upstream_changes_nothing() {
    let mut route = tracked_route(&["http://a"], 3, 10, 1);
    reinstate_upstream(&mut route, 0);
    assert!(matches!(route.route_cluster.routes[0].is_alive, AliveState::Unknown));
    assert_eq!(route.liveness_status.current_liveness_count, 1);
}
