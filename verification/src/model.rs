//! Data model of the proxy configuration: listeners, routes, upstreams and
//! their liveness state, together with the mathematical view of each type and
//! the well-formedness conditions that every active snapshot satisfies.
use vstd::prelude::*;

verus! {

/// Protocol spoken by a listener.
#[derive(Clone, Copy, PartialEq, Eq, Structural, Debug)]
pub enum ServiceType {
    Http,
    Https,
    Tcp,
}

/// Liveness of one upstream: not yet probed by traffic, believed available,
/// or temporarily ejected by the outlier detector.
#[derive(Clone, Copy, PartialEq, Eq, Structural, Debug)]
pub enum AliveState {
    Unknown,
    Live,
    Ejected,
}

/// Rolling count of consecutive upstream failures.
#[derive(Clone, Copy, PartialEq, Eq, Structural, Debug)]
pub struct AnomalyDetectionStatus {
    pub consecutive_5xx: u64,
}

/// Passive outlier-detection policy: ejection threshold and how long an
/// ejected upstream stays out.
#[derive(Clone, Copy, PartialEq, Eq, Structural, Debug)]
pub struct AnomalyDetection {
    pub consecutive_5xx: u64,
    pub ejection_second: u64,
}

/// Lower bound on the number of available upstreams that ejection must keep.
#[derive(Clone, Copy, PartialEq, Eq, Structural, Debug)]
pub struct LivenessConfig {
    pub min_liveness_count: u64,
}

/// Number of upstreams of a route currently considered available.
#[derive(Clone, Copy, PartialEq, Eq, Structural, Debug)]
pub struct LivenessStatus {
    pub current_liveness_count: u64,
}

/// One concrete upstream endpoint with its mutable liveness state.
#[derive(Clone, Debug)]
pub struct BaseRoute {
    pub endpoint: String,
    pub try_file: Option<String>,
    pub is_alive: AliveState,
    pub anomaly_detection_status: AnomalyDetectionStatus,
}

/// Mathematical view of a [`BaseRoute`].
#[verifier::ext_equal]
pub ghost struct BaseRouteV {
    pub endpoint: Seq<char>,
    pub try_file: Option<Seq<char>>,
    pub is_alive: AliveState,
    pub consecutive_5xx: u64,
}

impl View for BaseRoute {
    type V = BaseRouteV;

    open spec fn view(&self) -> BaseRouteV {
        BaseRouteV {
            endpoint: self.endpoint@,
            try_file: match self.try_file {
                Some(ref t) => Some(t@),
                None => None,
            },
            is_alive: self.is_alive,
            consecutive_5xx: self.anomaly_detection_status.consecutive_5xx,
        }
    }
}

/// Path-prefix matcher with an optional rewrite target.
#[derive(Clone, Debug)]
pub struct Matcher {
    pub prefix: String,
    pub prefix_rewrite: Option<String>,
}

/// Mathematical view of a [`Matcher`].
#[verifier::ext_equal]
pub ghost struct MatcherV {
    pub prefix: Seq<char>,
    pub prefix_rewrite: Option<Seq<char>>,
}

impl View for Matcher {
    type V = MatcherV;

    open spec fn view(&self) -> MatcherV {
        MatcherV {
            prefix: self.prefix@,
            prefix_rewrite: match self.prefix_rewrite {
                Some(ref t) => Some(t@),
                None => None,
            },
        }
    }
}

/// Outcome class of one allow/deny rule.
#[derive(Clone, Copy, PartialEq, Eq, Structural, Debug)]
pub enum AllowType {
    AllowAll,
    DenyAll,
    Allow,
    Deny,
}

/// One ordered access rule, evaluated first-match-wins against the client IP.
#[derive(Clone, Debug)]
pub struct AllowDenyObject {
    pub limit_type: AllowType,
    pub value: Option<String>,
}

/// Mathematical view of an [`AllowDenyObject`].
#[verifier::ext_equal]
pub ghost struct AllowDenyV {
    pub limit_type: AllowType,
    pub value: Option<Seq<char>>,
}

impl View for AllowDenyObject {
    type V = AllowDenyV;

    open spec fn view(&self) -> AllowDenyV {
        AllowDenyV {
            limit_type: self.limit_type,
            value: match self.value {
                Some(ref t) => Some(t@),
                None => None,
            },
        }
    }
}

/// Authentication demanded of matched requests.
#[derive(Clone, Debug)]
pub enum Authentication {
    Basic { username: String, password: String },
    ApiKey { header_name: String, expected: String },
}

/// Mathematical view of an [`Authentication`].
#[verifier::ext_equal]
pub ghost enum AuthenticationV {
    Basic { username: Seq<char>, password: Seq<char> },
    ApiKey { header_name: Seq<char>, expected: Seq<char> },
}

impl View for Authentication {
    type V = AuthenticationV;

    open spec fn view(&self) -> AuthenticationV {
        match self {
            Authentication::Basic { username, password } => AuthenticationV::Basic {
                username: username@,
                password: password@,
            },
            Authentication::ApiKey { header_name, expected } => AuthenticationV::ApiKey {
                header_name: header_name@,
                expected: expected@,
            },
        }
    }
}

/// Load-balancing strategy together with its mutable selection state.
#[derive(Clone, Debug)]
pub enum LoadbalancerStrategy {
    Random,
    WeightedRandom { weights: Vec<u32>, budgets: Vec<u32> },
    RoundRobin { index: usize },
    HeaderHash { header_name: String },
    IpHash,
    Poll { index: usize },
}

/// Mathematical view of a [`LoadbalancerStrategy`].
#[verifier::ext_equal]
pub ghost enum StrategyV {
    Random,
    WeightedRandom { weights: Seq<u32>, budgets: Seq<u32> },
    RoundRobin { index: usize },
    HeaderHash { header_name: Seq<char> },
    IpHash,
    Poll { index: usize },
}

impl View for LoadbalancerStrategy {
    type V = StrategyV;

    open spec fn view(&self) -> StrategyV {
        match self {
            LoadbalancerStrategy::Random => StrategyV::Random,
            LoadbalancerStrategy::WeightedRandom { weights, budgets } =>
                StrategyV::WeightedRandom { weights: weights@, budgets: budgets@ },
            LoadbalancerStrategy::RoundRobin { index } => StrategyV::RoundRobin { index: *index },
            LoadbalancerStrategy::HeaderHash { header_name } =>
                StrategyV::HeaderHash { header_name: header_name@ },
            LoadbalancerStrategy::IpHash => StrategyV::IpHash,
            LoadbalancerStrategy::Poll { index } => StrategyV::Poll { index: *index },
        }
    }
}

/// The cluster of upstreams managed by one strategy.
#[derive(Clone, Debug)]
pub struct Cluster {
    pub routes: Vec<BaseRoute>,
    pub strategy: LoadbalancerStrategy,
}

/// Mathematical view of a [`Cluster`].
#[verifier::ext_equal]
pub ghost struct ClusterV {
    pub routes: Seq<BaseRouteV>,
    pub strategy: StrategyV,
}

impl View for Cluster {
    type V = ClusterV;

    open spec fn view(&self) -> ClusterV {
        ClusterV {
            routes: self.routes@.map_values(|b: BaseRoute| b@),
            strategy: self.strategy@,
        }
    }
}

/// A route: matcher, policies, and the cluster requests are forwarded to.
#[derive(Clone, Debug)]
pub struct Route {
    pub route_id: String,
    pub host_name: Option<String>,
    pub matcher: Matcher,
    pub allow_deny_list: Option<Vec<AllowDenyObject>>,
    pub authentication: Option<Authentication>,
    pub anomaly_detection: Option<AnomalyDetection>,
    pub liveness_config: Option<LivenessConfig>,
    pub liveness_status: LivenessStatus,
    pub route_cluster: Cluster,
}

/// Mathematical view of a [`Route`].
#[verifier::ext_equal]
pub ghost struct RouteV {
    pub route_id: Seq<char>,
    pub host_name: Option<Seq<char>>,
    pub matcher: MatcherV,
    pub allow_deny_list: Option<Seq<AllowDenyV>>,
    pub authentication: Option<AuthenticationV>,
    pub anomaly_detection: Option<AnomalyDetection>,
    pub liveness_config: Option<LivenessConfig>,
    pub liveness_status: LivenessStatus,
    pub cluster: ClusterV,
}

impl View for Route {
    type V = RouteV;

    open spec fn view(&self) -> RouteV {
        RouteV {
            route_id: self.route_id@,
            host_name: match self.host_name {
                Some(ref t) => Some(t@),
                None => None,
            },
            matcher: self.matcher@,
            allow_deny_list: match self.allow_deny_list {
                Some(ref l) => Some(l@.map_values(|a: AllowDenyObject| a@)),
                None => None,
            },
            authentication: match self.authentication {
                Some(ref a) => Some(a@),
                None => None,
            },
            anomaly_detection: self.anomaly_detection,
            liveness_config: self.liveness_config,
            liveness_status: self.liveness_status,
            cluster: self.route_cluster@,
        }
    }
}

/// Listener configuration: protocol, TLS material, and the ordered routes.
#[derive(Clone, Debug)]
pub struct ServiceConfig {
    pub server_type: ServiceType,
    pub cert_str: Option<String>,
    pub key_str: Option<String>,
    pub routes: Vec<Route>,
}

/// Mathematical view of a [`ServiceConfig`].
#[verifier::ext_equal]
pub ghost struct ServiceConfigV {
    pub server_type: ServiceType,
    pub cert_str: Option<Seq<char>>,
    pub key_str: Option<Seq<char>>,
    pub routes: Seq<RouteV>,
}

impl View for ServiceConfig {
    type V = ServiceConfigV;

    open spec fn view(&self) -> ServiceConfigV {
        ServiceConfigV {
            server_type: self.server_type,
            cert_str: match self.cert_str {
                Some(ref t) => Some(t@),
                None => None,
            },
            key_str: match self.key_str {
                Some(ref t) => Some(t@),
                None => None,
            },
            routes: self.routes@.map_values(|r: Route| r@),
        }
    }
}

/// A listener-bound collection of routes.
#[derive(Clone, Debug)]
pub struct ApiService {
    pub api_service_id: String,
    pub listen_port: u16,
    pub service_config: ServiceConfig,
}

/// Mathematical view of an [`ApiService`].
#[verifier::ext_equal]
pub ghost struct ApiServiceV {
    pub api_service_id: Seq<char>,
    pub listen_port: u16,
    pub service_config: ServiceConfigV,
}

impl View for ApiService {
    type V = ApiServiceV;

    open spec fn view(&self) -> ApiServiceV {
        ApiServiceV {
            api_service_id: self.api_service_id@,
            listen_port: self.listen_port,
            service_config: self.service_config@,
        }
    }
}

/// The complete, self-consistent configuration snapshot.
#[derive(Clone, Debug)]
pub struct AppConfig {
    pub api_service_config: Vec<ApiService>,
}

/// Mathematical view of an [`AppConfig`].
#[verifier::ext_equal]
pub ghost struct AppConfigV {
    pub services: Seq<ApiServiceV>,
}

impl View for AppConfig {
    type V = AppConfigV;

    open spec fn view(&self) -> AppConfigV {
        AppConfigV { services: self.api_service_config@.map_values(|s: ApiService| s@) }
    }
}

/// View of a sequence of upstreams.
pub open spec fn base_routes_view(s: Seq<BaseRoute>) -> Seq<BaseRouteV> {
    s.map_values(|b: BaseRoute| b@)
}

/// View of a sequence of routes.
pub open spec fn routes_view(s: Seq<Route>) -> Seq<RouteV> {
    s.map_values(|r: Route| r@)
}

/// View of a sequence of services.
pub open spec fn services_view(s: Seq<ApiService>) -> Seq<ApiServiceV> {
    s.map_values(|x: ApiService| x@)
}

/// Whether an upstream may still receive traffic (everything but ejected).
pub open spec fn is_available(b: BaseRouteV) -> bool {
    b.is_alive != AliveState::Ejected
}

/// How many upstreams of a cluster may still receive traffic.
pub open spec fn count_available(s: Seq<BaseRouteV>) -> nat
    decreases s.len(),
{
    if s.len() == 0 {
        0
    } else {
        count_available(s.drop_last()) + if is_available(s.last()) {
            1nat
        } else {
            0nat
        }
    }
}

/// The available count never exceeds the cluster size.
pub proof fn lemma_count_available_le_len(s: Seq<BaseRouteV>)
    ensures
        count_available(s) <= s.len(),
    decreases s.len(),
{
    if s.len() > 0 {
        lemma_count_available_le_len(s.drop_last());
    }
}

/// Sum of declared selection weights.
pub open spec fn sum_weights(s: Seq<u32>) -> nat
    decreases s.len(),
{
    if s.len() == 0 {
        0
    } else {
        sum_weights(s.drop_last()) + s.last() as nat
    }
}

/// Consistency of a strategy's internal state with its cluster.
pub open spec fn strategy_wf(st: StrategyV, n: nat) -> bool {
    match st {
        StrategyV::WeightedRandom { weights, budgets } => {
            &&& weights.len() == n
            &&& budgets.len() == n
            &&& sum_weights(weights) > 0
            &&& forall|i: int| 0 <= i < n ==> budgets[i] <= weights[i]
        },
        _ => true,
    }
}

/// A cluster is well formed when it is non-empty, small enough for the
/// liveness counters, and its strategy state matches its size.
pub open spec fn cluster_wf(c: ClusterV) -> bool {
    &&& c.routes.len() > 0
    &&& c.routes.len() < 0x1_0000_0000
    &&& strategy_wf(c.strategy, c.routes.len())
}

/// A route is well formed when its cluster is and its liveness status is
/// exactly the number of available upstreams.
pub open spec fn route_wf(r: RouteV) -> bool {
    &&& cluster_wf(r.cluster)
    &&& r.liveness_status.current_liveness_count == count_available(r.cluster.routes)
}

/// A snapshot is well formed: every port at most once, every service
/// non-empty, every route well formed.
pub open spec fn snapshot_wf(c: AppConfigV) -> bool {
    &&& forall|i: int, j: int|
        0 <= i < c.services.len() && 0 <= j < c.services.len() && i != j
            ==> c.services[i].listen_port != c.services[j].listen_port
    &&& forall|i: int|
        0 <= i < c.services.len() ==> (#[trigger] c.services[i]).service_config.routes.len() > 0
    &&& forall|i: int, j: int|
        0 <= i < c.services.len() && 0 <= j < c.services[i].service_config.routes.len()
            ==> route_wf(#[trigger] c.services[i].service_config.routes[j])
}

} // verus!
