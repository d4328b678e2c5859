//! The configuration store: validation of submitted snapshots and the three
//! mutations the control plane drives — replace everything, update one route,
//! delete one route. A mutation builds a complete new snapshot; the caller
//! swaps it in under its writer exclusion, so readers see old or new in full.
//! Liveness state survives edits keyed by endpoint: an upstream that keeps
//! its endpoint keeps its liveness and failure counter; a new endpoint
//! starts unknown with a cleared counter.
use vstd::prelude::*;
use vstd::string::StringExecFns;
use crate::errors::ConfigError;
use crate::model::AliveState;
use crate::model::AnomalyDetectionStatus;
use crate::model::ApiService;
use crate::model::ApiServiceV;
use crate::model::AppConfig;
use crate::model::AppConfigV;
use crate::model::BaseRoute;
use crate::model::BaseRouteV;
use crate::model::Cluster;
use crate::model::ClusterV;
use crate::model::LivenessStatus;
use crate::model::LoadbalancerStrategy;
use crate::model::Route;
use crate::model::RouteV;
use crate::model::ServiceConfig;
use crate::model::ServiceConfigV;
use crate::model::ServiceType;
use crate::model::StrategyV;
use crate::model::base_routes_view;
use crate::model::count_available;
use crate::model::routes_view;
use crate::model::services_view;
use crate::model::sum_weights;
use crate::tls::spec_validate_tls;
use crate::tls::validate_tls_config;

verus! {

// ------------------------------------------------------------------
// Finding a route by id
// ------------------------------------------------------------------
/// Index of the first route at or after `i` that carries the id.
pub open spec fn route_idx_from(rs: Seq<RouteV>, id: Seq<char>, i: int) -> Option<int>
    decreases rs.len() - i,
{
    if i < 0 || i >= rs.len() {
        None
    } else if rs[i].route_id == id {
        Some(i)
    } else {
        route_idx_from(rs, id, i + 1)
    }
}

/// Index of the first service at or after `i` holding a route with the id.
pub open spec fn service_idx_from(ss: Seq<ApiServiceV>, id: Seq<char>, i: int) -> Option<int>
    decreases ss.len() - i,
{
    if i < 0 || i >= ss.len() {
        None
    } else if route_idx_from(ss[i].service_config.routes, id, 0) is Some {
        Some(i)
    } else {
        service_idx_from(ss, id, i + 1)
    }
}

/// The first route with the given id, walking services and routes in order.
pub open spec fn find_route(c: AppConfigV, id: Seq<char>) -> Option<RouteV> {
    match service_idx_from(c.services, id, 0) {
        Some(si) => {
            let rs = c.services[si].service_config.routes;
            Some(rs[route_idx_from(rs, id, 0)->Some_0])
        },
        None => None,
    }
}

// ------------------------------------------------------------------
// Liveness adoption and strategy reset
// ------------------------------------------------------------------
/// The last prior upstream with this endpoint, the one whose state an edit
/// carries over.
pub open spec fn last_match(prior: Seq<BaseRouteV>, endpoint: Seq<char>) -> Option<BaseRouteV>
    decreases prior.len(),
{
    if prior.len() == 0 {
        None
    } else if prior.last().endpoint == endpoint {
        Some(prior.last())
    } else {
        last_match(prior.drop_last(), endpoint)
    }
}

/// One upstream after an edit: liveness and counter adopted from the prior
/// upstream with the same endpoint, or the unknown state with a cleared
/// counter for a new endpoint.
pub open spec fn adopt_base(b: BaseRouteV, prior: Seq<BaseRouteV>) -> BaseRouteV {
    match last_match(prior, b.endpoint) {
        Some(p) => BaseRouteV { is_alive: p.is_alive, consecutive_5xx: p.consecutive_5xx, ..b },
        None => BaseRouteV {
            is_alive: AliveState::Unknown,
            consecutive_5xx: 0,
            ..b
        },
    }
}

/// Selection state after a route edit: edits reset it, deliberately.
pub open spec fn reset_strategy(st: StrategyV) -> StrategyV {
    match st {
        StrategyV::WeightedRandom { weights, budgets } => StrategyV::WeightedRandom {
            weights,
            budgets: weights,
        },
        StrategyV::RoundRobin { .. } => StrategyV::RoundRobin { index: 0 },
        StrategyV::Poll { .. } => StrategyV::Poll { index: 0 },
        _ => st,
    }
}

/// A submitted route as it enters the snapshot: upstream liveness adopted
/// from the prior route with the same id, selection state reset, live count
/// recomputed.
pub open spec fn install_route(r: RouteV, prior: Option<RouteV>) -> RouteV {
    let prior_bases = match prior {
        Some(p) => p.cluster.routes,
        None => Seq::empty(),
    };
    let adopted = r.cluster.routes.map_values(|b: BaseRouteV| adopt_base(b, prior_bases));
    RouteV {
        cluster: ClusterV { routes: adopted, strategy: reset_strategy(r.cluster.strategy) },
        liveness_status: LivenessStatus {
            current_liveness_count: count_available(adopted) as u64,
        },
        ..r
    }
}

/// A submitted service as it enters the snapshot: every route installed
/// against the prior snapshot.
pub open spec fn install_service(s: ApiServiceV, prior: AppConfigV) -> ApiServiceV {
    ApiServiceV {
        service_config: ServiceConfigV {
            routes: s.service_config.routes.map_values(
                |r: RouteV| install_route(r, find_route(prior, r.route_id)),
            ),
            ..s.service_config
        },
        ..s
    }
}

/// The snapshot a complete replacement produces.
pub open spec fn spec_replace_all(prior: AppConfigV, payload: Seq<ApiServiceV>) -> AppConfigV {
    AppConfigV { services: payload.map_values(|s: ApiServiceV| install_service(s, prior)) }
}

// ------------------------------------------------------------------
// Validation
// ------------------------------------------------------------------
/// The verdict on one route: its cluster must be non-empty and small enough
/// for the counters, and weighted selection must bring one weight per
/// upstream with a positive total.
pub open spec fn route_valid(r: RouteV) -> Option<ConfigError> {
    if r.cluster.routes.len() == 0 {
        Some(ConfigError::EmptyCluster)
    } else if r.cluster.routes.len() >= 0x1_0000_0000 {
        Some(ConfigError::OversizedCluster)
    } else {
        match r.cluster.strategy {
            StrategyV::WeightedRandom { weights, .. } => {
                if weights.len() != r.cluster.routes.len() || sum_weights(weights) == 0 {
                    Some(ConfigError::BadWeights)
                } else {
                    None
                }
            },
            _ => None,
        }
    }
}

/// First route error at or after `i`.
pub open spec fn routes_valid_from(rs: Seq<RouteV>, i: int) -> Option<ConfigError>
    decreases rs.len() - i,
{
    if i < 0 || i >= rs.len() {
        None
    } else {
        match route_valid(rs[i]) {
            Some(e) => Some(e),
            None => routes_valid_from(rs, i + 1),
        }
    }
}

/// The verdict on one service: HTTPS must bring valid TLS material, the
/// service must carry at least one route, and every route must be valid.
pub open spec fn service_valid(s: ApiServiceV) -> Option<ConfigError> {
    let tls = if s.service_config.server_type == ServiceType::Https {
        spec_validate_tls(s.service_config.cert_str, s.service_config.key_str)
    } else {
        Ok(())
    };
    match tls {
        Err(e) => Some(e),
        Ok(()) => {
            if s.service_config.routes.len() == 0 {
                Some(ConfigError::EmptyService)
            } else {
                routes_valid_from(s.service_config.routes, 0)
            }
        },
    }
}

/// Whether the service at `i` shares its port with a later one.
pub open spec fn dup_port_at(ss: Seq<ApiServiceV>, i: int) -> bool {
    exists|j: int| i < j < ss.len() && ss[j].listen_port == ss[i].listen_port
}

/// First validation error at or after service `i`: the service's own
/// verdict, then its port's uniqueness.
pub open spec fn validate_from(ss: Seq<ApiServiceV>, i: int) -> Option<ConfigError>
    decreases ss.len() - i,
{
    if i < 0 || i >= ss.len() {
        None
    } else {
        match service_valid(ss[i]) {
            Some(e) => Some(e),
            None => {
                if dup_port_at(ss, i) {
                    Some(ConfigError::DuplicatePort)
                } else {
                    validate_from(ss, i + 1)
                }
            },
        }
    }
}

/// The verdict on a submitted snapshot.
pub open spec fn spec_validate(ss: Seq<ApiServiceV>) -> Option<ConfigError> {
    validate_from(ss, 0)
}

// ------------------------------------------------------------------
// Update and delete, at the spec level
// ------------------------------------------------------------------
/// The snapshot after one route is replaced: the first route carrying the
/// id gives its liveness to the installed submission and makes way for it.
pub open spec fn spec_update_route(c: AppConfigV, r: RouteV) -> AppConfigV {
    match service_idx_from(c.services, r.route_id, 0) {
        None => c,
        Some(si) => {
            let svc = c.services[si];
            let rs = svc.service_config.routes;
            let ri = route_idx_from(rs, r.route_id, 0)->Some_0;
            let inst = install_route(r, Some(rs[ri]));
            AppConfigV {
                services: c.services.update(
                    si,
                    ApiServiceV {
                        service_config: ServiceConfigV {
                            routes: rs.update(ri, inst),
                            ..svc.service_config
                        },
                        ..svc
                    },
                ),
            }
        },
    }
}

/// Why an update is refused: an unknown id, or an invalid submission.
pub open spec fn spec_update_err(c: AppConfigV, r: RouteV) -> Option<ConfigError> {
    if find_route(c, r.route_id) is None {
        Some(ConfigError::RouteNotFound)
    } else {
        route_valid(r)
    }
}

/// A route list without the routes carrying the id.
pub open spec fn strip_route(rs: Seq<RouteV>, id: Seq<char>) -> Seq<RouteV>
    decreases rs.len(),
{
    if rs.len() == 0 {
        Seq::empty()
    } else {
        (if rs[0].route_id == id {
            Seq::empty()
        } else {
            seq![rs[0]]
        }) + strip_route(rs.drop_first(), id)
    }
}

/// The services after a deletion: the id's routes removed, services that
/// become empty removed with them.
pub open spec fn spec_delete_services(ss: Seq<ApiServiceV>, id: Seq<char>) -> Seq<ApiServiceV>
    decreases ss.len(),
{
    if ss.len() == 0 {
        Seq::empty()
    } else {
        let s2 = ApiServiceV {
            service_config: ServiceConfigV {
                routes: strip_route(ss[0].service_config.routes, id),
                ..ss[0].service_config
            },
            ..ss[0]
        };
        (if s2.service_config.routes.len() > 0 {
            seq![s2]
        } else {
            Seq::empty()
        }) + spec_delete_services(ss.drop_first(), id)
    }
}

/// The snapshot after a deletion.
pub open spec fn spec_delete(c: AppConfigV, id: Seq<char>) -> AppConfigV {
    AppConfigV { services: spec_delete_services(c.services, id) }
}

// ------------------------------------------------------------------
// Executable helpers
// ------------------------------------------------------------------
/// Counts the available upstreams.
fn count_available_exec(routes: &Vec<BaseRoute>) -> (c: u64)
    ensures
        c == count_available(base_routes_view(routes@)),
{
    let ghost rv = base_routes_view(routes@);
    let mut c: u64 = 0;
    let mut i: usize = 0;
    while i < routes.len()
        invariant
            i <= routes.len(),
            rv == base_routes_view(routes@),
            c == count_available(rv.take(i as int)),
            c <= i,
        decreases routes.len() - i,
    {
        proof {
            assert(rv.take(i + 1).drop_last() =~= rv.take(i as int));
            assert(rv.take(i + 1).last() == rv[i as int]);
        }
        let live = match routes[i].is_alive {
            AliveState::Ejected => false,
            _ => true,
        };
        if live {
            c = c + 1;
        }
        i = i + 1;
    }
    proof {
        assert(rv.take(routes@.len() as int) =~= rv);
    }
    c
}

/// Sums the declared weights.
fn sum_weights_exec(w: &Vec<u32>) -> (s: u64)
    requires
        w@.len() < 0x1_0000_0000,
    ensures
        s == sum_weights(w@),
{
    let mut s: u64 = 0;
    let mut i: usize = 0;
    while i < w.len()
        invariant
            i <= w.len(),
            w@.len() < 0x1_0000_0000,
            s == sum_weights(w@.take(i as int)),
            s <= 0xffff_ffff * (i as u64),
        decreases w.len() - i,
    {
        proof {
            assert(w@.take(i + 1).drop_last() =~= w@.take(i as int));
            assert(w@.take(i + 1).last() == w@[i as int]);
        }
        s = s + (w[i] as u64);
        i = i + 1;
    }
    proof {
        assert(w@.take(w@.len() as int) =~= w@);
    }
    s
}

/// Finds the first route with the id, returning its place in the snapshot.
fn locate_route(services: &Vec<ApiService>, id: &String) -> (r: Option<(usize, usize)>)
    ensures
        match r {
            Some((si, ri)) => {
                &&& service_idx_from(services_view(services@), id@, 0) == Some(si as int)
                &&& si < services@.len()
                &&& route_idx_from(
                    services_view(services@)[si as int].service_config.routes,
                    id@,
                    0,
                ) == Some(ri as int)
                &&& ri < services@[si as int].service_config.routes@.len()
            },
            None => service_idx_from(services_view(services@), id@, 0) is None,
        },
{
    let ghost sv = services_view(services@);
    let mut i: usize = 0;
    while i < services.len()
        invariant
            i <= services.len(),
            sv == services_view(services@),
            service_idx_from(sv, id@, 0) == service_idx_from(sv, id@, i as int),
        decreases services.len() - i,
    {
        let routes = &services[i].service_config.routes;
        let ghost rsv = sv[i as int].service_config.routes;
        proof {
            assert(rsv == routes_view(routes@));
        }
        let mut j: usize = 0;
        while j < routes.len()
            invariant
                j <= routes.len(),
                rsv == routes_view(routes@),
                i < services@.len(),
                sv == services_view(services@),
                rsv == sv[i as int].service_config.routes,
                route_idx_from(rsv, id@, 0) == route_idx_from(rsv, id@, j as int),
                service_idx_from(sv, id@, 0) == service_idx_from(sv, id@, i as int),
            decreases routes.len() - j,
        {
            if routes[j].route_id == *id {
                assert(rsv[j as int].route_id == id@);
                return Some((i, j));
            }
            assert(rsv[j as int].route_id != id@);
            j = j + 1;
        }
        assert(route_idx_from(rsv, id@, 0) is None);
        i = i + 1;
    }
    None
}

/// The first route with the id, borrowed from the snapshot.
fn find_route_ref<'a>(config: &'a AppConfig, id: &String) -> (r: Option<&'a Route>)
    ensures
        match r {
            Some(p) => find_route(config@, id@) == Some(p@),
            None => find_route(config@, id@) is None,
        },
{
    match locate_route(&config.api_service_config, id) {
        Some((si, ri)) => Some(&config.api_service_config[si].service_config.routes[ri]),
        None => None,
    }
}

/// One upstream with liveness adopted from the prior cluster.
fn adopt_one(b: BaseRoute, prior: &Vec<BaseRoute>) -> (r: BaseRoute)
    ensures
        r@ == adopt_base(b@, base_routes_view(prior@)),
{
    let ghost pv = base_routes_view(prior@);
    let ghost e = b@.endpoint;
    let mut j: usize = prior.len();
    proof {
        assert(pv.take(prior@.len() as int) =~= pv);
    }
    while j > 0
        invariant
            j <= prior@.len(),
            pv == base_routes_view(prior@),
            e == b@.endpoint,
            last_match(pv, e) == last_match(pv.take(j as int), e),
        decreases j,
    {
        proof {
            assert(pv.take(j as int).drop_last() =~= pv.take(j - 1));
            assert(pv.take(j as int).last() == pv[j - 1]);
        }
        if prior[j - 1].endpoint == b.endpoint {
            assert(pv[j - 1].endpoint == e);
            return BaseRoute {
                endpoint: b.endpoint,
                try_file: b.try_file,
                is_alive: prior[j - 1].is_alive,
                anomaly_detection_status: prior[j - 1].anomaly_detection_status,
            };
        }
        assert(pv[j - 1].endpoint != e);
        j = j - 1;
    }
    proof {
        assert(pv.take(0) =~= Seq::<BaseRouteV>::empty());
    }
    BaseRoute {
        endpoint: b.endpoint,
        try_file: b.try_file,
        is_alive: AliveState::Unknown,
        anomaly_detection_status: AnomalyDetectionStatus { consecutive_5xx: 0 },
    }
}

/// A whole cluster with liveness adopted from the prior cluster.
fn adopt_bases(bases: Vec<BaseRoute>, prior: &Vec<BaseRoute>) -> (r: Vec<BaseRoute>)
    ensures
        base_routes_view(r@) == base_routes_view(bases@).map_values(
            |b: BaseRouteV| adopt_base(b, base_routes_view(prior@)),
        ),
{
    let ghost orig = bases@;
    let ghost pv = base_routes_view(prior@);
    let ghost target = base_routes_view(orig).map_values(|b: BaseRouteV| adopt_base(b, pv));
    let mut rest = bases;
    let mut out: Vec<BaseRoute> = Vec::new();
    let ghost mut i: int = 0;
    while rest.len() > 0
        invariant
            0 <= i <= orig.len(),
            rest@ =~= orig.skip(i),
            pv == base_routes_view(prior@),
            target == base_routes_view(orig).map_values(|b: BaseRouteV| adopt_base(b, pv)),
            base_routes_view(out@) =~= target.take(i),
            out@.len() == i,
        decreases rest@.len(),
    {
        let b = rest.remove(0);
        proof {
            assert(b@ == base_routes_view(orig)[i]);
        }
        let b2 = adopt_one(b, prior);
        out.push(b2);
        proof {
            assert(rest@ =~= orig.skip(i + 1));
            assert(base_routes_view(out@) =~= target.take(i + 1));
        }
        proof {
            i = i + 1;
        }
    }
    proof {
        assert(target.take(orig.len() as int) =~= target);
    }
    out
}

/// The strategy with its selection state reset.
fn reset_strategy_exec(st: LoadbalancerStrategy) -> (r: LoadbalancerStrategy)
    ensures
        r@ == reset_strategy(st@),
{
    match st {
        LoadbalancerStrategy::WeightedRandom { weights, budgets: _ } => {
            let fresh = crate::balancer::copy_u32_vec(&weights);
            LoadbalancerStrategy::WeightedRandom { weights, budgets: fresh }
        },
        LoadbalancerStrategy::RoundRobin { index: _ } => LoadbalancerStrategy::RoundRobin {
            index: 0,
        },
        LoadbalancerStrategy::Poll { index: _ } => LoadbalancerStrategy::Poll { index: 0 },
        other => other,
    }
}

/// Installs one submitted route against its prior version.
fn install_route_exec(route: Route, prior: Option<&Route>) -> (r: Route)
    ensures
        r@ == install_route(
            route@,
            match prior {
                Some(p) => Some(p@),
                None => None,
            },
        ),
{
    let Route {
        route_id,
        host_name,
        matcher,
        allow_deny_list,
        authentication,
        anomaly_detection,
        liveness_config,
        liveness_status,
        route_cluster,
    } = route;
    let Cluster { routes: bases, strategy } = route_cluster;
    let empty_prior: Vec<BaseRoute> = Vec::new();
    let adopted = match prior {
        Some(p) => adopt_bases(bases, &p.route_cluster.routes),
        None => {
            proof {
                assert(base_routes_view(Seq::<BaseRoute>::empty()) =~= Seq::<
                    BaseRouteV,
                >::empty());
            }
            adopt_bases(bases, &empty_prior)
        },
    };
    let count = count_available_exec(&adopted);
    let strategy2 = reset_strategy_exec(strategy);
    Route {
        route_id,
        host_name,
        matcher,
        allow_deny_list,
        authentication,
        anomaly_detection,
        liveness_config,
        liveness_status: LivenessStatus { current_liveness_count: count },
        route_cluster: Cluster { routes: adopted, strategy: strategy2 },
    }
}

/// Installs one submitted service against the prior snapshot.
fn install_service_exec(svc: ApiService, prior: &AppConfig) -> (r: ApiService)
    ensures
        r@ == install_service(svc@, prior@),
{
    let ApiService { api_service_id, listen_port, service_config } = svc;
    let ServiceConfig { server_type, cert_str, key_str, routes } = service_config;
    let ghost orig = routes@;
    let ghost cv = prior@;
    let ghost target = routes_view(orig).map_values(
        |r: RouteV| install_route(r, find_route(cv, r.route_id)),
    );
    let mut rest = routes;
    let mut out: Vec<Route> = Vec::new();
    let ghost mut i: int = 0;
    while rest.len() > 0
        invariant
            0 <= i <= orig.len(),
            rest@ =~= orig.skip(i),
            cv == prior@,
            target == routes_view(orig).map_values(
                |r: RouteV| install_route(r, find_route(cv, r.route_id)),
            ),
            routes_view(out@) =~= target.take(i),
            out@.len() == i,
        decreases rest@.len(),
    {
        let route = rest.remove(0);
        proof {
            assert(route@ == routes_view(orig)[i]);
        }
        let prior_route = find_route_ref(prior, &route.route_id);
        let inst = install_route_exec(route, prior_route);
        out.push(inst);
        proof {
            assert(rest@ =~= orig.skip(i + 1));
            assert(routes_view(out@) =~= target.take(i + 1));
        }
        proof {
            i = i + 1;
        }
    }
    proof {
        assert(target.take(orig.len() as int) =~= target);
    }
    ApiService {
        api_service_id,
        listen_port,
        service_config: ServiceConfig { server_type, cert_str, key_str, routes: out },
    }
}

/// Checks one submitted route.
fn route_valid_exec(route: &Route) -> (r: Option<ConfigError>)
    ensures
        r == route_valid(route@),
{
    let n = route.route_cluster.routes.len();
    if n == 0 {
        return Some(ConfigError::EmptyCluster);
    }
    if (n as u64) >= 0x1_0000_0000u64 {
        return Some(ConfigError::OversizedCluster);
    }
    match &route.route_cluster.strategy {
        LoadbalancerStrategy::WeightedRandom { weights, budgets: _ } => {
            if weights.len() != n {
                return Some(ConfigError::BadWeights);
            }
            let total = sum_weights_exec(weights);
            if total == 0 {
                Some(ConfigError::BadWeights)
            } else {
                None
            }
        },
        _ => None,
    }
}

/// Checks one submitted service, ports aside.
fn service_valid_exec(svc: &ApiService) -> (r: Option<ConfigError>)
    ensures
        r == service_valid(svc@),
{
    let is_https = match svc.service_config.server_type {
        ServiceType::Https => true,
        _ => false,
    };
    if is_https {
        if let Err(e) = validate_tls_config(
            &svc.service_config.cert_str,
            &svc.service_config.key_str,
        ) {
            return Some(e);
        }
    }
    let routes = &svc.service_config.routes;
    if routes.len() == 0 {
        return Some(ConfigError::EmptyService);
    }
    let ghost rsv = routes_view(routes@);
    let mut j: usize = 0;
    while j < routes.len()
        invariant
            j <= routes.len(),
            rsv == routes_view(routes@),
            svc@.service_config.routes == rsv,
            routes_valid_from(rsv, 0) == routes_valid_from(rsv, j as int),
            service_valid(svc@) == routes_valid_from(rsv, 0),
        decreases routes.len() - j,
    {
        if let Some(e) = route_valid_exec(&routes[j]) {
            assert(route_valid(rsv[j as int]) == Some(e));
            return Some(e);
        }
        assert(route_valid(rsv[j as int]) is None);
        j = j + 1;
    }
    None
}

/// Checks a whole submitted snapshot: every service, then every port.
fn validate_exec(services: &Vec<ApiService>) -> (r: Option<ConfigError>)
    ensures
        r == spec_validate(services_view(services@)),
{
    let ghost sv = services_view(services@);
    let mut i: usize = 0;
    while i < services.len()
        invariant
            i <= services.len(),
            sv == services_view(services@),
            validate_from(sv, 0) == validate_from(sv, i as int),
        decreases services.len() - i,
    {
        if let Some(e) = service_valid_exec(&services[i]) {
            assert(service_valid(sv[i as int]) == Some(e));
            return Some(e);
        }
        assert(service_valid(sv[i as int]) is None);
        let mut j: usize = i + 1;
        while j < services.len()
            invariant
                i < j <= services.len(),
                sv == services_view(services@),
                validate_from(sv, 0) == validate_from(sv, i as int),
                service_valid(sv[i as int]) is None,
                forall|k: int|
                    i < k < j ==> (#[trigger] sv[k]).listen_port != sv[i as int].listen_port,
            decreases services.len() - j,
        {
            if services[j].listen_port == services[i].listen_port {
                assert(sv[j as int] == services@[j as int]@);
                assert(sv[i as int] == services@[i as int]@);
                assert(sv[j as int].listen_port == sv[i as int].listen_port);
                assert(dup_port_at(sv, i as int));
                return Some(ConfigError::DuplicatePort);
            }
            j = j + 1;
        }
        assert(!dup_port_at(sv, i as int));
        i = i + 1;
    }
    None
}

// ------------------------------------------------------------------
// The operations
// ------------------------------------------------------------------
/// Reads the current snapshot: always the whole snapshot, never a mixture.
pub fn get_all(config: &AppConfig) -> (r: &AppConfig)
    ensures
        r@ == config@,
{
    config
}

/// Validates a submitted snapshot and, where it is acceptable, builds the
/// complete replacement, carrying upstream liveness over by route id and
/// endpoint. A rejected payload changes nothing and names its error.
pub fn replace_all(config: &AppConfig, payload: Vec<ApiService>) -> (r: Result<
    AppConfig,
    ConfigError,
>)
    ensures
        match r {
            Ok(c2) => spec_validate(services_view(payload@)) is None && c2@ == spec_replace_all(
                config@,
                services_view(payload@),
            ),
            Err(e) => spec_validate(services_view(payload@)) == Some(e),
        },
{
    if let Some(e) = validate_exec(&payload) {
        return Err(e);
    }
    let ghost orig = payload@;
    let ghost cv = config@;
    let ghost target = services_view(orig).map_values(|s: ApiServiceV| install_service(s, cv));
    let mut rest = payload;
    let mut out: Vec<ApiService> = Vec::new();
    let ghost mut i: int = 0;
    while rest.len() > 0
        invariant
            0 <= i <= orig.len(),
            rest@ =~= orig.skip(i),
            cv == config@,
            target == services_view(orig).map_values(|s: ApiServiceV| install_service(s, cv)),
            services_view(out@) =~= target.take(i),
            out@.len() == i,
        decreases rest@.len(),
    {
        let svc = rest.remove(0);
        proof {
            assert(svc@ == services_view(orig)[i]);
        }
        let inst = install_service_exec(svc, config);
        out.push(inst);
        proof {
            assert(rest@ =~= orig.skip(i + 1));
            assert(services_view(out@) =~= target.take(i + 1));
        }
        proof {
            i = i + 1;
        }
    }
    proof {
        assert(target.take(orig.len() as int) =~= target);
        assert(AppConfigV { services: services_view(out@) } =~= spec_replace_all(
            cv,
            services_view(orig),
        ));
    }
    Ok(AppConfig { api_service_config: out })
}

/// Replaces the route carrying the submission's id, keeping the liveness of
/// upstreams whose endpoint survives the edit. Fails without any change
/// where no route carries the id or the submission is invalid.
pub fn update_route(config: &mut AppConfig, route: Route) -> (r: Result<(), ConfigError>)
    ensures
        match r {
            Ok(()) => spec_update_err(old(config)@, route@) is None && final(config)@
                == spec_update_route(old(config)@, route@),
            Err(e) => spec_update_err(old(config)@, route@) == Some(e) && final(config)@ == old(
                config,
            )@,
        },
{
    let ghost cv = config@;
    let (si, ri) = match locate_route(&config.api_service_config, &route.route_id) {
        Some(loc) => loc,
        None => {
            return Err(ConfigError::RouteNotFound);
        },
    };
    if let Some(e) = route_valid_exec(&route) {
        return Err(e);
    }
    let mut svc = config.api_service_config.remove(si);
    let old_route = svc.service_config.routes.remove(ri);
    let inst = install_route_exec(route, Some(&old_route));
    svc.service_config.routes.insert(ri, inst);
    config.api_service_config.insert(si, svc);
    proof {
        assert(find_route(cv, route@.route_id) == Some(
            cv.services[si as int].service_config.routes[ri as int],
        ));
        assert(config@.services[si as int].service_config.routes =~= cv.services[
            si as int
        ].service_config.routes.update(
            ri as int,
            install_route(route@, Some(cv.services[si as int].service_config.routes[ri as int])),
        ));
        assert(config@.services[si as int] =~= spec_update_route(cv, route@).services[si as int]);
        assert(config@.services =~= spec_update_route(cv, route@).services);
        assert(config@ =~= spec_update_route(cv, route@));
    }
    Ok(())
}

/// Removes every route carrying the id; a service left without routes goes
/// with them. A missing id changes nothing; deletion never fails.
pub fn delete_route(config: &mut AppConfig, route_id: &String)
    ensures
        final(config)@ == spec_delete(old(config)@, route_id@),
{
    let ghost vorig = old(config)@.services;
    let ghost target = spec_delete_services(vorig, route_id@);
    let mut out: Vec<ApiService> = Vec::new();
    let ghost mut i: int = 0;
    proof {
        assert(vorig.skip(0) =~= vorig);
        assert(services_view(out@) + spec_delete_services(vorig.skip(0), route_id@) =~= target);
    }
    while config.api_service_config.len() > 0
        invariant
            0 <= i <= vorig.len(),
            services_view(config.api_service_config@) =~= vorig.skip(i),
            target == spec_delete_services(vorig, route_id@),
            services_view(out@) + spec_delete_services(vorig.skip(i), route_id@) =~= target,
        decreases config.api_service_config@.len(),
    {
        let ghost prev = config.api_service_config@;
        let svc = config.api_service_config.remove(0);
        proof {
            assert(services_view(prev) =~= vorig.skip(i));
            assert(svc@ == services_view(prev)[0]);
            assert(vorig.skip(i)[0] == vorig[i]);
            assert(config.api_service_config@ =~= prev.drop_first());
            assert forall|k: int| 0 <= k < config.api_service_config@.len() implies
                services_view(config.api_service_config@)[k] == vorig.skip(i + 1)[k] by {
                assert(config.api_service_config@[k] == prev[k + 1]);
                assert(services_view(prev)[k + 1] == vorig.skip(i)[k + 1]);
            }
            assert(services_view(config.api_service_config@) =~= vorig.skip(i + 1));
            assert(vorig.skip(i).drop_first() =~= vorig.skip(i + 1));
        }
        let ApiService { api_service_id, listen_port, service_config } = svc;
        let ServiceConfig { server_type, cert_str, key_str, routes } = service_config;
        let ghost rorig = routes_view(routes@);
        let mut kept: Vec<Route> = Vec::new();
        let mut rrest = routes;
        let ghost mut j: int = 0;
        proof {
            assert(rorig.skip(0) =~= rorig);
            assert(routes_view(kept@) + strip_route(rorig.skip(0), route_id@) =~= strip_route(
                rorig,
                route_id@,
            ));
        }
        while rrest.len() > 0
            invariant
                0 <= j <= rorig.len(),
                routes_view(rrest@) =~= rorig.skip(j),
                routes_view(kept@) + strip_route(rorig.skip(j), route_id@) =~= strip_route(
                    rorig,
                    route_id@,
                ),
            decreases rrest@.len(),
        {
            let ghost prevr = rrest@;
            let rt = rrest.remove(0);
            proof {
                assert(routes_view(prevr) =~= rorig.skip(j));
                assert(rt@ == routes_view(prevr)[0]);
                assert(rorig.skip(j)[0] == rorig[j]);
                assert(rrest@ =~= prevr.drop_first());
                assert forall|k: int| 0 <= k < rrest@.len() implies
                    routes_view(rrest@)[k] == rorig.skip(j + 1)[k] by {
                    assert(rrest@[k] == prevr[k + 1]);
                    assert(routes_view(prevr)[k + 1] == rorig.skip(j)[k + 1]);
                }
                assert(routes_view(rrest@) =~= rorig.skip(j + 1));
                assert(rorig.skip(j).drop_first() =~= rorig.skip(j + 1));
            }
            if !(rt.route_id == *route_id) {
                kept.push(rt);
            }
            proof {
                assert(routes_view(kept@) + strip_route(rorig.skip(j + 1), route_id@)
                    =~= strip_route(rorig, route_id@));
                j = j + 1;
            }
        }
        proof {
            assert(rorig.skip(rorig.len() as int) =~= Seq::<RouteV>::empty());
            assert(routes_view(kept@) =~= strip_route(rorig, route_id@));
        }
        if kept.len() > 0 {
            out.push(
                ApiService {
                    api_service_id,
                    listen_port,
                    service_config: ServiceConfig { server_type, cert_str, key_str, routes: kept },
                },
            );
        }
        proof {
            assert(services_view(out@) + spec_delete_services(vorig.skip(i + 1), route_id@)
                =~= target);
            i = i + 1;
        }
    }
    proof {
        assert(vorig.skip(vorig.len() as int) =~= Seq::<ApiServiceV>::empty());
        assert(services_view(out@) =~= target);
    }
    config.api_service_config = out;
    proof {
        assert(config@ =~= spec_delete(old(config)@, route_id@));
    }
}

} // verus!
