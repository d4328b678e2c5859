//! The per-request pipeline: match the route, apply the access filter and
//! authentication, hand websocket upgrades off, pick an upstream and name
//! the exact target to forward to — or the file to serve where the endpoint
//! is no URL. Matching never reads the request method: an unmatched path is
//! a 404 whatever the method was.
use vstd::prelude::*;
use vstd::string::StringExecFns;
use crate::access::auth_ok;
use crate::access::check_auth;
use crate::access::check_ip;
use crate::access::find_header;
use crate::access::header_lookup;
use crate::access::headers_view;
use crate::access::ip_allowed;
use crate::access::rule_applies;
use crate::access::rule_passes;
use crate::access::filter_from;
use crate::balancer::select_upstream;
use crate::balancer::spec_select;
use crate::matcher::find_match;
use crate::matcher::match_route;
use crate::matcher::rewrite_path;
use crate::matcher::route_matches;
use crate::matcher::spec_rewritten;
use crate::model::AllowDenyV;
use crate::model::AllowType;
use crate::model::ApiService;
use crate::model::ClusterV;
use crate::model::RouteV;
use crate::model::ServiceConfigV;
use crate::model::ApiServiceV;
use crate::model::route_wf;
use crate::strutil::has_prefix;
use crate::strutil::join_endpoint;
use crate::strutil::spec_join;

verus! {

/// One parsed inbound request, as the dispatcher reads it.
pub struct RequestInfo {
    pub path: String,
    pub host: Option<String>,
    pub client_ip: String,
    pub headers: Vec<(String, String)>,
}

/// Mathematical view of a [`RequestInfo`].
#[verifier::ext_equal]
pub ghost struct RequestInfoV {
    pub path: Seq<char>,
    pub host: Option<Seq<char>>,
    pub client_ip: Seq<char>,
    pub headers: Seq<(Seq<char>, Seq<char>)>,
}

impl View for RequestInfo {
    type V = RequestInfoV;

    open spec fn view(&self) -> RequestInfoV {
        RequestInfoV {
            path: self.path@,
            host: match self.host {
                Some(ref h) => Some(h@),
                None => None,
            },
            client_ip: self.client_ip@,
            headers: headers_view(self.headers@),
        }
    }
}

/// What the dispatcher decides to do with one request.
pub enum DispatchPlan {
    /// No route matched: a 404 with the fixed body.
    NotFound,
    /// The access filter rejected the client: a 403 with the fixed deny body.
    Forbidden,
    /// Authentication failed: a 401.
    Unauthorized,
    /// Both websocket markers are present: hand off to the upgrade handler.
    WebsocketUpgrade { route_index: usize },
    /// Forward to this upstream URL, over TLS where it says so.
    Forward { route_index: usize, upstream_index: usize, target: String, https: bool },
    /// The endpoint is a filesystem root: serve the rewritten path from it.
    ServeFile {
        route_index: usize,
        upstream_index: usize,
        endpoint: String,
        try_file: Option<String>,
        rewritten_path: String,
    },
}

/// Mathematical view of a [`DispatchPlan`].
#[verifier::ext_equal]
pub ghost enum PlanV {
    NotFound,
    Forbidden,
    Unauthorized,
    WebsocketUpgrade { route_index: int },
    Forward { route_index: int, upstream_index: int, target: Seq<char>, https: bool },
    ServeFile {
        route_index: int,
        upstream_index: int,
        endpoint: Seq<char>,
        try_file: Option<Seq<char>>,
        rewritten_path: Seq<char>,
    },
}

impl View for DispatchPlan {
    type V = PlanV;

    open spec fn view(&self) -> PlanV {
        match self {
            DispatchPlan::NotFound => PlanV::NotFound,
            DispatchPlan::Forbidden => PlanV::Forbidden,
            DispatchPlan::Unauthorized => PlanV::Unauthorized,
            DispatchPlan::WebsocketUpgrade { route_index } => PlanV::WebsocketUpgrade {
                route_index: *route_index as int,
            },
            DispatchPlan::Forward { route_index, upstream_index, target, https } =>
                PlanV::Forward {
                route_index: *route_index as int,
                upstream_index: *upstream_index as int,
                target: target@,
                https: *https,
            },
            DispatchPlan::ServeFile {
                route_index,
                upstream_index,
                endpoint,
                try_file,
                rewritten_path,
            } => PlanV::ServeFile {
                route_index: *route_index as int,
                upstream_index: *upstream_index as int,
                endpoint: endpoint@,
                try_file: match try_file {
                    Some(t) => Some(t@),
                    None => None,
                },
                rewritten_path: rewritten_path@,
            },
        }
    }
}

/// Whether the request announces a websocket upgrade: both the `connection`
/// and the `sec-websocket-key` headers are present.
pub open spec fn is_websocket(hs: Seq<(Seq<char>, Seq<char>)>) -> bool {
    header_lookup(hs, "connection"@) is Some && header_lookup(hs, "sec-websocket-key"@) is Some
}

/// Whether an endpoint is an HTTP or HTTPS URL rather than a file root.
pub open spec fn is_url(e: Seq<char>) -> bool {
    "http://"@.is_prefix_of(e) || "https://"@.is_prefix_of(e)
}

/// Whether an endpoint asks for TLS.
pub open spec fn is_https_url(e: Seq<char>) -> bool {
    "https://"@.is_prefix_of(e)
}

/// The decision the pipeline takes on this request.
pub open spec fn spec_plan(rv: Seq<RouteV>, req: RequestInfoV, entropy: u64) -> PlanV {
    match find_match(rv, req.path, req.host) {
        None => PlanV::NotFound,
        Some(i) => {
            let rt = rv[i];
            if !ip_allowed(rt.allow_deny_list, req.client_ip) {
                PlanV::Forbidden
            } else if !auth_ok(rt.authentication, req.headers) {
                PlanV::Unauthorized
            } else if is_websocket(req.headers) {
                PlanV::WebsocketUpgrade { route_index: i }
            } else {
                let choice = spec_select(rt.cluster, entropy, req.headers, req.client_ip).0;
                let b = rt.cluster.routes[choice];
                let newpath = spec_rewritten(rt.matcher, req.path);
                if is_url(b.endpoint) {
                    PlanV::Forward {
                        route_index: i,
                        upstream_index: choice,
                        target: spec_join(b.endpoint, newpath),
                        https: is_https_url(b.endpoint),
                    }
                } else {
                    PlanV::ServeFile {
                        route_index: i,
                        upstream_index: choice,
                        endpoint: b.endpoint,
                        try_file: b.try_file,
                        rewritten_path: newpath,
                    }
                }
            }
        },
    }
}

/// The routes after the pipeline ran: only the matched route's selection
/// state may advance, and only where an upstream was selected.
pub open spec fn spec_plan_routes(rv: Seq<RouteV>, req: RequestInfoV, entropy: u64) -> Seq<
    RouteV,
> {
    match find_match(rv, req.path, req.host) {
        None => rv,
        Some(i) => {
            let rt = rv[i];
            if !ip_allowed(rt.allow_deny_list, req.client_ip) || !auth_ok(
                rt.authentication,
                req.headers,
            ) || is_websocket(req.headers) {
                rv
            } else {
                let st = spec_select(rt.cluster, entropy, req.headers, req.client_ip).1;
                rv.update(
                    i,
                    RouteV { cluster: ClusterV { strategy: st, ..rt.cluster }, ..rt },
                )
            }
        },
    }
}

/// A matched index names a route that matches.
proof fn lemma_match_at(rv: Seq<RouteV>, path: Seq<char>, host: Option<Seq<char>>, i: int, k: int)
    requires
        crate::matcher::match_from(rv, path, host, i) == Some(k),
    ensures
        i <= k < rv.len(),
        route_matches(rv[k], path, host),
    decreases rv.len() - i,
{
    if !(i < 0 || i >= rv.len()) {
        if route_matches(rv[i], path, host) {
        } else {
            lemma_match_at(rv, path, host, i + 1, k);
        }
    }
}

/// Runs the decision pipeline on one request against one service's routes.
/// Everything but the matched route's selection state stays as it was.
pub fn plan_request(service: &mut ApiService, req: &RequestInfo, entropy: u64) -> (r:
    DispatchPlan)
    requires
        forall|j: int|
            0 <= j < old(service)@.service_config.routes.len() ==> route_wf(
                #[trigger] old(service)@.service_config.routes[j],
            ),
    ensures
        r@ == spec_plan(old(service)@.service_config.routes, req@, entropy),
        final(service)@ == (ApiServiceV {
            service_config: ServiceConfigV {
                routes: spec_plan_routes(old(service)@.service_config.routes, req@, entropy),
                ..old(service)@.service_config
            },
            ..old(service)@
        }),
{
    let ghost rv = service@.service_config.routes;
    let idx = match match_route(&service.service_config.routes, &req.path, &req.host) {
        Some(i) => i,
        None => {
            proof {
                assert(service@ =~= (ApiServiceV {
                    service_config: ServiceConfigV {
                        routes: spec_plan_routes(rv, req@, entropy),
                        ..service@.service_config
                    },
                    ..service@
                }));
            }
            return DispatchPlan::NotFound;
        },
    };
    proof {
        lemma_match_at(rv, req@.path, req@.host, 0, idx as int);
    }
    let route = &service.service_config.routes[idx];
    let ghost unchanged = (ApiServiceV {
        service_config: ServiceConfigV {
            routes: spec_plan_routes(rv, req@, entropy),
            ..service@.service_config
        },
        ..service@
    });
    if !check_ip(&route.allow_deny_list, &req.client_ip) {
        proof {
            assert(service@ =~= unchanged);
        }
        return DispatchPlan::Forbidden;
    }
    if !check_auth(&route.authentication, &req.headers) {
        proof {
            assert(service@ =~= unchanged);
        }
        return DispatchPlan::Unauthorized;
    }
    let ws = match find_header(&req.headers, "connection") {
        Some(_) => match find_header(&req.headers, "sec-websocket-key") {
            Some(_) => true,
            None => false,
        },
        None => false,
    };
    if ws {
        proof {
            assert(service@ =~= unchanged);
        }
        return DispatchPlan::WebsocketUpgrade { route_index: idx };
    }
    let newpath = rewrite_path(&service.service_config.routes[idx].matcher, &req.path);
    assert(route_wf(rv[idx as int]));
    let rt = &mut service.service_config.routes[idx];
    let choice = select_upstream(&mut rt.route_cluster, entropy, &req.headers, &req.client_ip);
    proof {
        assert(service@.service_config.routes =~= spec_plan_routes(rv, req@, entropy));
        assert(service@ =~= (ApiServiceV {
            service_config: ServiceConfigV {
                routes: spec_plan_routes(rv, req@, entropy),
                ..service@.service_config
            },
            ..service@
        }));
    }
    let b = &service.service_config.routes[idx].route_cluster.routes[choice];
    let endpoint = b.endpoint.clone();
    let try_file = match &b.try_file {
        Some(t) => Some(t.clone()),
        None => None,
    };
    let http = has_prefix(endpoint.as_str(), "http://");
    let https = has_prefix(endpoint.as_str(), "https://");
    if http || https {
        let target = join_endpoint(endpoint.as_str(), newpath.as_str());
        DispatchPlan::Forward { route_index: idx, upstream_index: choice, target, https }
    } else {
        DispatchPlan::ServeFile {
            route_index: idx,
            upstream_index: choice,
            endpoint,
            try_file,
            rewritten_path: newpath,
        }
    }
}

/// Fixed body sent with a 403 produced by the access filter.
pub fn deny_body() -> (r: String)
    ensures
        r@ == "Forbidden.\n"@,
{
    String::from_str("Forbidden.\n")
}

/// The fixed body of a 404 for an unmatched path.
pub fn not_found_body() -> (r: String)
    ensures
        r@ == "The request path is not found!"@,
{
    String::from_str("The request path is not found!")
}

/// An unmatched path is a 404, whatever the request method was: the decision
/// never reads the method.
pub proof fn lemma_no_match_is_not_found(rv: Seq<RouteV>, req: RequestInfoV, entropy: u64)
    requires
        find_match(rv, req.path, req.host) is None,
    ensures
        spec_plan(rv, req, entropy) == PlanV::NotFound,
        spec_plan_routes(rv, req, entropy) == rv,
{
}

/// The pipeline keeps every route well formed: it only advances the matched
/// route's selection state, which neither changes the cluster nor its
/// available count.
pub proof fn lemma_plan_preserves_wf(rv: Seq<RouteV>, req: RequestInfoV, entropy: u64)
    requires
        forall|j: int| 0 <= j < rv.len() ==> route_wf(#[trigger] rv[j]),
    ensures
        spec_plan_routes(rv, req, entropy).len() == rv.len(),
        forall|j: int|
            0 <= j < rv.len() ==> route_wf(#[trigger] spec_plan_routes(rv, req, entropy)[j]),
{
    let out = spec_plan_routes(rv, req, entropy);
    match find_match(rv, req.path, req.host) {
        None => {},
        Some(i) => {
            lemma_match_at(rv, req.path, req.host, 0, i);
            let rt = rv[i];
            if !ip_allowed(rt.allow_deny_list, req.client_ip) || !auth_ok(
                rt.authentication,
                req.headers,
            ) || is_websocket(req.headers) {
            } else {
                crate::balancer::lemma_select_preserves_wf(
                    rt.cluster,
                    entropy,
                    req.headers,
                    req.client_ip,
                );
            }
        },
    }
}

proof fn lemma_filter_from_skip(rules: Seq<AllowDenyV>, ip: Seq<char>, i: int, k: int)
    requires
        0 <= i <= k < rules.len(),
        forall|l: int| i <= l < k ==> !rule_applies(#[trigger] rules[l], ip),
    ensures
        filter_from(rules, ip, i) == filter_from(rules, ip, k),
    decreases k - i,
{
    if i < k {
        lemma_filter_from_skip(rules, ip, i + 1, k);
    }
}

/// A client whose IP a `Deny` rule names, with no applying rule before it,
/// is turned away with the 403 plan, whatever else the route offers.
pub proof fn lemma_deny_is_forbidden(
    rv: Seq<RouteV>,
    req: RequestInfoV,
    entropy: u64,
    i: int,
    k: int,
)
    requires
        find_match(rv, req.path, req.host) == Some(i),
        0 <= i < rv.len(),
        rv[i].allow_deny_list is Some,
        0 <= k < rv[i].allow_deny_list->Some_0.len(),
        rv[i].allow_deny_list->Some_0[k].limit_type == AllowType::Deny,
        rv[i].allow_deny_list->Some_0[k].value == Some(req.client_ip),
        forall|l: int| 0 <= l < k ==> !rule_applies(#[trigger] rv[i].allow_deny_list->Some_0[l], req.client_ip),
    ensures
        spec_plan(rv, req, entropy) == PlanV::Forbidden,
        spec_plan_routes(rv, req, entropy) == rv,
{
    let rules = rv[i].allow_deny_list->Some_0;
    lemma_filter_from_skip(rules, req.client_ip, 0, k);
    assert(rule_applies(rules[k], req.client_ip));
    assert(!rule_passes(rules[k]));
}

} // verus!
