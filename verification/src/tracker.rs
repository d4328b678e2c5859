//! Passive outlier detection. Every forwarded request reports its outcome
//! here: failures grow a per-upstream consecutive-failure counter, successes
//! clear it, and an upstream whose counter passes the route's threshold is
//! ejected unless that would drop the available count below the route's
//! minimum. Reinstatement is driven from outside after the configured delay.
use vstd::prelude::*;
use crate::model::AliveState;
use crate::model::BaseRoute;
use crate::model::BaseRouteV;
use crate::model::Route;
use crate::model::RouteV;
use crate::model::LivenessStatus;
use crate::model::count_available;
use crate::model::is_available;
use crate::model::route_wf;

verus! {

/// Outcome of one forwarded request, as the tracker sees it.
#[derive(Clone, Copy, PartialEq, Eq, Structural, Debug)]
pub enum Outcome {
    /// The upstream answered with this status code.
    Status { code: u16 },
    /// The upstream could not be reached, timed out, or broke the transport.
    TransportError,
    /// The client dropped the inbound connection while the request ran.
    ClientCancel,
}

/// What the dispatcher must do after recording an outcome.
#[derive(Clone, Copy, PartialEq, Eq, Structural, Debug)]
pub enum TrackerAction {
    /// Nothing to schedule.
    Keep,
    /// The upstream was ejected: reinstate it after this many seconds.
    Ejected { reinstate_after: u64 },
}

/// Whether an outcome counts against the upstream: a 5xx answer or a
/// transport failure. A cancelled client does not.
pub open spec fn is_failure(o: Outcome) -> bool {
    match o {
        Outcome::Status { code } => code >= 500,
        Outcome::TransportError => true,
        Outcome::ClientCancel => false,
    }
}

/// The failure counter after one more failure, capped at its maximum.
pub open spec fn bump(c: u64) -> u64 {
    if c == u64::MAX {
        c
    } else {
        (c + 1) as u64
    }
}

/// The route after one outcome is recorded against upstream `idx`.
///
/// Without both an anomaly-detection policy and a liveness floor the tracker
/// leaves the route alone, as it does for a cancelled client. A success
/// clears the counter and marks a so-far-unknown upstream live. A failure
/// grows the counter; once the counter exceeds the threshold the upstream is
/// ejected, unless it is already ejected or the available count would fall
/// below the configured minimum.
pub open spec fn spec_record(r: RouteV, idx: int, o: Outcome) -> RouteV {
    if r.anomaly_detection is None || r.liveness_config is None || o == Outcome::ClientCancel {
        r
    } else {
        let ad = r.anomaly_detection->Some_0;
        let lc = r.liveness_config->Some_0;
        let b = r.cluster.routes[idx];
        if !is_failure(o) {
            let b2 = BaseRouteV {
                is_alive: if b.is_alive == AliveState::Unknown {
                    AliveState::Live
                } else {
                    b.is_alive
                },
                consecutive_5xx: 0,
                ..b
            };
            RouteV { cluster: cluster_with_routes(r, r.cluster.routes.update(idx, b2)), ..r }
        } else {
            let c2 = bump(b.consecutive_5xx);
            if c2 > ad.consecutive_5xx && is_available(b) && count_available(r.cluster.routes)
                >= lc.min_liveness_count + 1 {
                let b2 = BaseRouteV { is_alive: AliveState::Ejected, consecutive_5xx: c2, ..b };
                RouteV {
                    cluster: cluster_with_routes(r, r.cluster.routes.update(idx, b2)),
                    liveness_status: LivenessStatus {
                        current_liveness_count: (r.liveness_status.current_liveness_count
                            - 1) as u64,
                    },
                    ..r
                }
            } else {
                let b2 = BaseRouteV { consecutive_5xx: c2, ..b };
                RouteV { cluster: cluster_with_routes(r, r.cluster.routes.update(idx, b2)), ..r }
            }
        }
    }
}

/// The route's cluster with its upstreams replaced.
pub open spec fn cluster_with_routes(r: RouteV, routes: Seq<BaseRouteV>) -> crate::model::ClusterV {
    crate::model::ClusterV { routes, ..r.cluster }
}

/// Whether recording this outcome ejects the upstream.
pub open spec fn spec_ejects(r: RouteV, idx: int, o: Outcome) -> bool {
    &&& r.anomaly_detection is Some
    &&& r.liveness_config is Some
    &&& is_failure(o)
    &&& bump(r.cluster.routes[idx].consecutive_5xx) > r.anomaly_detection->Some_0.consecutive_5xx
    &&& is_available(r.cluster.routes[idx])
    &&& count_available(r.cluster.routes) >= r.liveness_config->Some_0.min_liveness_count + 1
}

/// The route after an ejected upstream is reinstated: live again, counter
/// cleared. Anything not ejected is left alone.
pub open spec fn spec_reinstate(r: RouteV, idx: int) -> RouteV {
    let b = r.cluster.routes[idx];
    if b.is_alive == AliveState::Ejected {
        let b2 = BaseRouteV { is_alive: AliveState::Live, consecutive_5xx: 0, ..b };
        RouteV {
            cluster: cluster_with_routes(r, r.cluster.routes.update(idx, b2)),
            liveness_status: LivenessStatus {
                current_liveness_count: (r.liveness_status.current_liveness_count + 1) as u64,
            },
            ..r
        }
    } else {
        r
    }
}

/// Replacing one upstream moves the available count by the difference the
/// replacement makes.
pub proof fn lemma_count_update(s: Seq<BaseRouteV>, i: int, b: BaseRouteV)
    requires
        0 <= i < s.len(),
    ensures
        count_available(s.update(i, b)) + (if is_available(s[i]) {
            1nat
        } else {
            0nat
        }) == count_available(s) + (if is_available(b) {
            1nat
        } else {
            0nat
        }),
    decreases s.len(),
{
    if i == s.len() - 1 {
        assert(s.update(i, b).drop_last() =~= s.drop_last());
    } else {
        assert(s.update(i, b).drop_last() =~= s.drop_last().update(i, b));
        lemma_count_update(s.drop_last(), i, b);
    }
}

/// An available upstream makes the available count positive.
pub proof fn lemma_count_pos(s: Seq<BaseRouteV>, i: int)
    requires
        0 <= i < s.len(),
        is_available(s[i]),
    ensures
        count_available(s) >= 1,
    decreases s.len(),
{
    if i == s.len() - 1 {
    } else {
        lemma_count_pos(s.drop_last(), i);
    }
}

/// Reads one upstream's state rebuilt as a fresh value.
fn copy_base(b: &BaseRoute) -> (r: BaseRoute)
    ensures
        r@ == b@,
{
    BaseRoute {
        endpoint: b.endpoint.clone(),
        try_file: match &b.try_file {
            Some(t) => Some(t.clone()),
            None => None,
        },
        is_alive: b.is_alive,
        anomaly_detection_status: b.anomaly_detection_status,
    }
}

/// Records one outcome against upstream `idx` of the route and says whether
/// a reinstatement must be scheduled. Keeps the route well formed.
pub fn record_outcome(route: &mut Route, idx: usize, outcome: Outcome) -> (act: TrackerAction)
    requires
        route_wf(old(route)@),
        idx < old(route).route_cluster.routes@.len(),
    ensures
        final(route)@ == spec_record(old(route)@, idx as int, outcome),
        route_wf(final(route)@),
        act == (if spec_ejects(old(route)@, idx as int, outcome) {
            TrackerAction::Ejected {
                reinstate_after: old(route)@.anomaly_detection->Some_0.ejection_second,
            }
        } else {
            TrackerAction::Keep
        }),
{
    let ghost rv = route@;
    let (ad, lc) = match (route.anomaly_detection, route.liveness_config) {
        (Some(ad), Some(lc)) => (ad, lc),
        _ => {
            return TrackerAction::Keep;
        },
    };
    let failure = match outcome {
        Outcome::Status { code } => code >= 500,
        Outcome::TransportError => true,
        Outcome::ClientCancel => {
            return TrackerAction::Keep;
        },
    };
    let mut b = copy_base(&route.route_cluster.routes[idx]);
    let ghost bv = rv.cluster.routes[idx as int];
    assert(b@ == bv);
    if !failure {
        if let AliveState::Unknown = b.is_alive {
            b.is_alive = AliveState::Live;
        }
        b.anomaly_detection_status.consecutive_5xx = 0;
        route.route_cluster.routes[idx] = b;
        proof {
            lemma_count_update(rv.cluster.routes, idx as int, route@.cluster.routes[idx as int]);
            assert(route@.cluster.routes =~= spec_record(rv, idx as int, outcome).cluster.routes);
            assert(route@ =~= spec_record(rv, idx as int, outcome));
        }
        return TrackerAction::Keep;
    }
    let c0 = b.anomaly_detection_status.consecutive_5xx;
    let c2: u64 = if c0 == u64::MAX {
        c0
    } else {
        c0 + 1
    };
    b.anomaly_detection_status.consecutive_5xx = c2;
    let avail = match b.is_alive {
        AliveState::Ejected => false,
        _ => true,
    };
    let mut ejected = false;
    if c2 > ad.consecutive_5xx && avail {
        proof {
            lemma_count_pos(rv.cluster.routes, idx as int);
        }
        let count = route.liveness_status.current_liveness_count;
        if count - 1 >= lc.min_liveness_count {
            b.is_alive = AliveState::Ejected;
            route.liveness_status = LivenessStatus { current_liveness_count: count - 1 };
            ejected = true;
        }
    }
    route.route_cluster.routes[idx] = b;
    proof {
        lemma_count_update(rv.cluster.routes, idx as int, route@.cluster.routes[idx as int]);
        assert(route@.cluster.routes =~= spec_record(rv, idx as int, outcome).cluster.routes);
        assert(route@ =~= spec_record(rv, idx as int, outcome));
    }
    if ejected {
        TrackerAction::Ejected { reinstate_after: ad.ejection_second }
    } else {
        TrackerAction::Keep
    }
}

/// Brings an ejected upstream back: live, with a cleared counter. Called
/// after the scheduled delay has elapsed. Keeps the route well formed.
pub fn reinstate_upstream(route: &mut Route, idx: usize)
    requires
        route_wf(old(route)@),
        idx < old(route).route_cluster.routes@.len(),
    ensures
        final(route)@ == spec_reinstate(old(route)@, idx as int),
        route_wf(final(route)@),
        old(route)@.cluster.routes[idx as int].is_alive == AliveState::Ejected ==> {
            &&& final(route)@.cluster.routes[idx as int].is_alive == AliveState::Live
            &&& final(route)@.cluster.routes[idx as int].consecutive_5xx == 0
        },
{
    let ghost rv = route@;
    let mut b = copy_base(&route.route_cluster.routes[idx]);
    let was_ejected = match b.is_alive {
        AliveState::Ejected => true,
        _ => false,
    };
    if !was_ejected {
        proof {
            assert(route@ =~= spec_reinstate(rv, idx as int));
        }
        return ;
    }
    b.is_alive = AliveState::Live;
    b.anomaly_detection_status.consecutive_5xx = 0;
    proof {
        crate::model::lemma_count_available_le_len(rv.cluster.routes);
        lemma_count_update(rv.cluster.routes, idx as int, b@);
    }
    route.liveness_status = LivenessStatus {
        current_liveness_count: route.liveness_status.current_liveness_count + 1,
    };
    route.route_cluster.routes[idx] = b;
    proof {
        assert(route@.cluster.routes =~= spec_reinstate(rv, idx as int).cluster.routes);
        assert(route@ =~= spec_reinstate(rv, idx as int));
    }
}

/// An ejection never leaves fewer available upstreams than the route's
/// configured minimum: where it would, the upstream stays live.
pub proof fn lemma_ejection_respects_min(r: RouteV, idx: int, o: Outcome)
    requires
        route_wf(r),
        0 <= idx < r.cluster.routes.len(),
        r.liveness_config is Some,
    ensures
        is_available(r.cluster.routes[idx]) && !is_available(
            spec_record(r, idx, o).cluster.routes[idx],
        ) ==> count_available(spec_record(r, idx, o).cluster.routes)
            >= r.liveness_config->Some_0.min_liveness_count,
{
    let r2 = spec_record(r, idx, o);
    if is_available(r.cluster.routes[idx]) && !is_available(r2.cluster.routes[idx]) {
        lemma_count_update(r.cluster.routes, idx, r2.cluster.routes[idx]);
    }
}

/// The failure after the threshold is reached ejects the upstream when that
/// is safe; where the liveness floor forbids it, the upstream stays live and
/// only the counter grows.
pub proof fn lemma_threshold_ejects(r: RouteV, idx: int, o: Outcome)
    requires
        route_wf(r),
        0 <= idx < r.cluster.routes.len(),
        r.anomaly_detection is Some,
        r.liveness_config is Some,
        is_failure(o),
        r.cluster.routes[idx].consecutive_5xx == r.anomaly_detection->Some_0.consecutive_5xx,
        r.anomaly_detection->Some_0.consecutive_5xx < u64::MAX,
        is_available(r.cluster.routes[idx]),
    ensures
        count_available(r.cluster.routes) >= r.liveness_config->Some_0.min_liveness_count + 1
            ==> spec_record(r, idx, o).cluster.routes[idx].is_alive == AliveState::Ejected,
        count_available(r.cluster.routes) < r.liveness_config->Some_0.min_liveness_count + 1
            ==> {
            &&& is_available(spec_record(r, idx, o).cluster.routes[idx])
            &&& spec_record(r, idx, o).cluster.routes[idx].consecutive_5xx
                == r.anomaly_detection->Some_0.consecutive_5xx + 1
        },
{
}

} // verus!
