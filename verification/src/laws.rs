//! The laws the configuration operations obey: a validated snapshot is well
//! formed and stays so under every edit; replacing with the same payload
//! twice changes nothing the second time; reads give back what was posted,
//! liveness aside; and an update of an unknown route followed by its
//! deletion leaves the snapshot as it was.
use vstd::prelude::*;
use crate::model::AliveState;
use crate::model::ApiServiceV;
use crate::model::AppConfigV;
use crate::model::BaseRouteV;
use crate::model::ClusterV;
use crate::model::LivenessStatus;
use crate::model::RouteV;
use crate::model::ServiceConfigV;
use crate::model::lemma_count_available_le_len;
use crate::model::route_wf;
use crate::model::snapshot_wf;
use crate::store::adopt_base;
use crate::store::dup_port_at;
use crate::store::find_route;
use crate::store::install_route;
use crate::store::install_service;
use crate::store::last_match;
use crate::store::reset_strategy;
use crate::store::route_idx_from;
use crate::store::route_valid;
use crate::store::routes_valid_from;
use crate::store::service_idx_from;
use crate::store::service_valid;
use crate::store::spec_delete;
use crate::store::spec_delete_services;
use crate::store::spec_replace_all;
use crate::store::spec_update_err;
use crate::store::spec_update_route;
use crate::store::spec_validate;
use crate::store::strip_route;
use crate::store::validate_from;
use crate::errors::ConfigError;

verus! {

// ------------------------------------------------------------------
// Validation reaches every service and every route
// ------------------------------------------------------------------
/// A snapshot that validates has no failing service and no duplicated port
/// anywhere.
pub proof fn lemma_validate_all(ss: Seq<ApiServiceV>, k: int)
    requires
        validate_from(ss, 0) is None,
        0 <= k < ss.len(),
    ensures
        service_valid(ss[k]) is None,
        !dup_port_at(ss, k),
{
    lemma_validate_from_none(ss, 0, k);
}

proof fn lemma_validate_from_none(ss: Seq<ApiServiceV>, i: int, k: int)
    requires
        validate_from(ss, i) is None,
        0 <= i <= k < ss.len(),
    ensures
        service_valid(ss[k]) is None,
        !dup_port_at(ss, k),
    decreases k - i,
{
    if k > i {
        lemma_validate_from_none(ss, i + 1, k);
    }
}

/// A service that validates has no failing route.
pub proof fn lemma_routes_valid_all(rs: Seq<RouteV>, k: int)
    requires
        routes_valid_from(rs, 0) is None,
        0 <= k < rs.len(),
    ensures
        route_valid(rs[k]) is None,
{
    lemma_routes_valid_from_none(rs, 0, k);
}

proof fn lemma_routes_valid_from_none(rs: Seq<RouteV>, i: int, k: int)
    requires
        routes_valid_from(rs, i) is None,
        0 <= i <= k < rs.len(),
    ensures
        route_valid(rs[k]) is None,
    decreases k - i,
{
    if k > i {
        lemma_routes_valid_from_none(rs, i + 1, k);
    }
}

// ------------------------------------------------------------------
// Installed routes are well formed
// ------------------------------------------------------------------
/// Installing a valid route yields a well-formed route: a non-empty cluster
/// and a liveness count that is exactly the number of available upstreams.
pub proof fn lemma_install_route_wf(r: RouteV, prior: Option<RouteV>)
    requires
        route_valid(r) is None,
    ensures
        route_wf(install_route(r, prior)),
{
    let inst = install_route(r, prior);
    lemma_count_available_le_len(inst.cluster.routes);
}

// ------------------------------------------------------------------
// A validated replacement gives a well-formed snapshot (covers the port
// uniqueness and the non-empty clusters of every active snapshot)
// ------------------------------------------------------------------
/// A payload that validates installs as a well-formed snapshot: every listen
/// port at most once, every service non-empty, every route's cluster
/// non-empty with a truthful live count.
pub proof fn lemma_validated_replace_wf(c: AppConfigV, p: Seq<ApiServiceV>)
    requires
        spec_validate(p) is None,
    ensures
        snapshot_wf(spec_replace_all(c, p)),
{
    let out = spec_replace_all(c, p);
    assert forall|i: int, j: int|
        0 <= i < out.services.len() && 0 <= j < out.services.len() && i != j implies out.services[
        i
    ].listen_port != out.services[j].listen_port by {
        if i < j {
            lemma_validate_all(p, i);
            assert(p[j].listen_port != p[i].listen_port);
        } else {
            lemma_validate_all(p, j);
            assert(p[i].listen_port != p[j].listen_port);
        }
    }
    assert forall|i: int| 0 <= i < out.services.len() implies (
    #[trigger] out.services[i]).service_config.routes.len() > 0 by {
        lemma_validate_all(p, i);
    }
    assert forall|i: int, j: int|
        0 <= i < out.services.len() && 0 <= j
            < out.services[i].service_config.routes.len() implies route_wf(
        #[trigger] out.services[i].service_config.routes[j],
    ) by {
        lemma_validate_all(p, i);
        let rs = p[i].service_config.routes;
        lemma_routes_valid_all(rs, j);
        lemma_install_route_wf(rs[j], find_route(c, rs[j].route_id));
    }
}

// ------------------------------------------------------------------
// An accepted update keeps the snapshot well formed
// ------------------------------------------------------------------
/// Updating a route with a valid submission keeps the snapshot well formed:
/// ports and service shapes stay, the new route enters well formed.
pub proof fn lemma_update_preserves_wf(c: AppConfigV, r: RouteV)
    requires
        snapshot_wf(c),
        spec_update_err(c, r) is None,
    ensures
        snapshot_wf(spec_update_route(c, r)),
{
    let out = spec_update_route(c, r);
    match service_idx_from(c.services, r.route_id, 0) {
        None => {},
        Some(si) => {
            let rs = c.services[si].service_config.routes;
            let ri = route_idx_from(rs, r.route_id, 0)->Some_0;
            lemma_service_idx_in_range(c.services, r.route_id, 0, si);
            lemma_route_idx_in_range(rs, r.route_id, 0, ri);
            lemma_install_route_wf(r, Some(rs[ri]));
            assert forall|i: int, j: int|
                0 <= i < out.services.len() && 0 <= j
                    < out.services[i].service_config.routes.len() implies route_wf(
                #[trigger] out.services[i].service_config.routes[j],
            ) by {
                if i == si && j == ri {
                } else {
                    assert(route_wf(c.services[i].service_config.routes[j]));
                }
            }
        },
    }
}

/// The index a successful service search returns is in range.
pub proof fn lemma_service_idx_in_range(ss: Seq<ApiServiceV>, id: Seq<char>, i: int, si: int)
    requires
        service_idx_from(ss, id, i) == Some(si),
    ensures
        i <= si < ss.len(),
        route_idx_from(ss[si].service_config.routes, id, 0) is Some,
    decreases ss.len() - i,
{
    if !(i < 0 || i >= ss.len()) {
        if route_idx_from(ss[i].service_config.routes, id, 0) is Some {
        } else {
            lemma_service_idx_in_range(ss, id, i + 1, si);
        }
    }
}

/// The index a successful route search returns is in range and hits the id.
pub proof fn lemma_route_idx_in_range(rs: Seq<RouteV>, id: Seq<char>, i: int, ri: int)
    requires
        route_idx_from(rs, id, i) == Some(ri),
    ensures
        i <= ri < rs.len(),
        rs[ri].route_id == id,
    decreases rs.len() - i,
{
    if !(i < 0 || i >= rs.len()) {
        if rs[i].route_id == id {
        } else {
            lemma_route_idx_in_range(rs, id, i + 1, ri);
        }
    }
}

// ------------------------------------------------------------------
// Deletion keeps the snapshot well formed
// ------------------------------------------------------------------
/// Every route a deletion keeps was already in the list.
proof fn lemma_strip_route_sub(rs: Seq<RouteV>, id: Seq<char>)
    ensures
        forall|k: int|
            0 <= k < strip_route(rs, id).len() ==> rs.contains(#[trigger] strip_route(rs, id)[k]),
    decreases rs.len(),
{
    if rs.len() > 0 {
        lemma_strip_route_sub(rs.drop_first(), id);
        assert forall|k: int| 0 <= k < strip_route(rs, id).len() implies rs.contains(
            #[trigger] strip_route(rs, id)[k],
        ) by {
            let head: Seq<RouteV> = if rs[0].route_id == id {
                Seq::empty()
            } else {
                seq![rs[0]]
            };
            if k < head.len() {
                assert(rs[0] == strip_route(rs, id)[k]);
            } else {
                let x = strip_route(rs.drop_first(), id)[k - head.len()];
                assert(rs.drop_first().contains(x));
                let w = choose|w: int| 0 <= w < rs.drop_first().len() && rs.drop_first()[w] == x;
                assert(rs[w + 1] == x);
            }
        }
    }
}

/// Every port a deletion keeps was already claimed, and at most once.
proof fn lemma_delete_services_shape(ss: Seq<ApiServiceV>, id: Seq<char>)
    ensures
        forall|k: int|
            0 <= k < spec_delete_services(ss, id).len() ==> exists|i: int|
                0 <= i < ss.len() && (#[trigger] spec_delete_services(ss, id)[k]).listen_port
                    == ss[i].listen_port && spec_delete_services(ss, id)[k].service_config.routes
                    =~= strip_route(ss[i].service_config.routes, id)
                    && spec_delete_services(ss, id)[k].service_config.routes.len() > 0,
    decreases ss.len(),
{
    if ss.len() > 0 {
        lemma_delete_services_shape(ss.drop_first(), id);
        let out = spec_delete_services(ss, id);
        let s2 = ApiServiceV {
            service_config: ServiceConfigV {
                routes: strip_route(ss[0].service_config.routes, id),
                ..ss[0].service_config
            },
            ..ss[0]
        };
        let head: Seq<ApiServiceV> = if s2.service_config.routes.len() > 0 {
            seq![s2]
        } else {
            Seq::empty()
        };
        assert forall|k: int| 0 <= k < out.len() implies exists|i: int|
            0 <= i < ss.len() && (#[trigger] out[k]).listen_port == ss[i].listen_port && out[
            k
        ].service_config.routes =~= strip_route(ss[i].service_config.routes, id) && out[
        k
        ].service_config.routes.len() > 0 by {
            if k < head.len() {
                assert(0 <= 0 < ss.len() && out[k].listen_port == ss[0].listen_port && out[
                k
                ].service_config.routes =~= strip_route(ss[0].service_config.routes, id) && out[
                k
                ].service_config.routes.len() > 0);
            } else {
                let rest = spec_delete_services(ss.drop_first(), id);
                let x = rest[k - head.len()];
                let i = choose|i: int|
                    0 <= i < ss.drop_first().len() && x.listen_port == ss.drop_first()[i].listen_port && x.service_config.routes =~= strip_route(
                        ss.drop_first()[i].service_config.routes,
                        id,
                    ) && x.service_config.routes.len() > 0;
                assert(ss[i + 1] == ss.drop_first()[i]);
            }
        }
    }
}

// ------------------------------------------------------------------
// Reads give back what was posted, liveness aside
// ------------------------------------------------------------------
/// An upstream with its mutable liveness state blanked.
pub open spec fn erase_base(b: BaseRouteV) -> BaseRouteV {
    BaseRouteV { is_alive: AliveState::Unknown, consecutive_5xx: 0, ..b }
}

/// A route with liveness state and selection state blanked.
pub open spec fn erase_route(r: RouteV) -> RouteV {
    RouteV {
        cluster: ClusterV {
            routes: r.cluster.routes.map_values(|b: BaseRouteV| erase_base(b)),
            strategy: reset_strategy(r.cluster.strategy),
        },
        liveness_status: LivenessStatus { current_liveness_count: 0 },
        ..r
    }
}

/// A service with every route blanked.
pub open spec fn erase_service(s: ApiServiceV) -> ApiServiceV {
    ApiServiceV {
        service_config: ServiceConfigV {
            routes: s.service_config.routes.map_values(|r: RouteV| erase_route(r)),
            ..s.service_config
        },
        ..s
    }
}

/// A snapshot with every mutable state blanked.
pub open spec fn erase_snapshot(c: AppConfigV) -> AppConfigV {
    AppConfigV { services: c.services.map_values(|s: ApiServiceV| erase_service(s)) }
}

/// What a replacement installs is the payload itself, mutable liveness and
/// selection state aside: reading the snapshot back gives the posted
/// configuration.
pub proof fn lemma_replace_all_reads_back(c: AppConfigV, p: Seq<ApiServiceV>)
    ensures
        erase_snapshot(spec_replace_all(c, p)) == erase_snapshot(AppConfigV { services: p }),
{
    let lhs = erase_snapshot(spec_replace_all(c, p));
    let rhs = erase_snapshot(AppConfigV { services: p });
    assert forall|i: int| 0 <= i < p.len() implies lhs.services[i] == rhs.services[i] by {
        let s = p[i];
        let inst = install_service(s, c);
        assert forall|j: int|
            0 <= j < s.service_config.routes.len() implies erase_service(
            inst,
        ).service_config.routes[j] == erase_service(s).service_config.routes[j] by {
            let r = s.service_config.routes[j];
            let ir = install_route(r, find_route(c, r.route_id));
            assert(erase_route(ir).cluster.routes =~= erase_route(r).cluster.routes);
            assert(erase_route(ir) =~= erase_route(r));
        }
        assert(erase_service(inst).service_config.routes =~= erase_service(
            s,
        ).service_config.routes);
        assert(erase_service(inst) =~= erase_service(s));
    }
    assert(lhs.services =~= rhs.services);
    assert(lhs =~= rhs);
}

// ------------------------------------------------------------------
// An update of an unknown route, then its deletion, changes nothing
// ------------------------------------------------------------------
/// No search from any position finds an id that no route carries.
proof fn lemma_route_idx_none(rs: Seq<RouteV>, id: Seq<char>, i: int, k: int)
    requires
        route_idx_from(rs, id, i) is None,
        0 <= i <= k < rs.len(),
    ensures
        rs[k].route_id != id,
    decreases k - i,
{
    if k > i {
        lemma_route_idx_none(rs, id, i + 1, k);
    }
}

proof fn lemma_service_idx_none(ss: Seq<ApiServiceV>, id: Seq<char>, i: int, k: int)
    requires
        service_idx_from(ss, id, i) is None,
        0 <= i <= k < ss.len(),
    ensures
        route_idx_from(ss[k].service_config.routes, id, 0) is None,
    decreases k - i,
{
    if k > i {
        lemma_service_idx_none(ss, id, i + 1, k);
    }
}

/// Stripping an id no route carries keeps the list.
proof fn lemma_strip_absent(rs: Seq<RouteV>, id: Seq<char>)
    requires
        forall|k: int| 0 <= k < rs.len() ==> (#[trigger] rs[k]).route_id != id,
    ensures
        strip_route(rs, id) == rs,
    decreases rs.len(),
{
    if rs.len() > 0 {
        lemma_strip_absent(rs.drop_first(), id);
        assert(strip_route(rs, id) =~= rs);
    }
}

/// Deleting an id no route carries keeps every non-empty service.
proof fn lemma_delete_absent(ss: Seq<ApiServiceV>, id: Seq<char>)
    requires
        forall|k: int|
            0 <= k < ss.len() ==> route_idx_from(
                (#[trigger] ss[k]).service_config.routes,
                id,
                0,
            ) is None,
        forall|k: int| 0 <= k < ss.len() ==> (#[trigger] ss[k]).service_config.routes.len() > 0,
    ensures
        spec_delete_services(ss, id) == ss,
    decreases ss.len(),
{
    if ss.len() > 0 {
        assert forall|k: int|
            0 <= k < ss.drop_first().len() implies route_idx_from(
            (#[trigger] ss.drop_first()[k]).service_config.routes,
            id,
            0,
        ) is None && ss.drop_first()[k].service_config.routes.len() > 0 by {
            assert(ss.drop_first()[k] == ss[k + 1]);
        }
        lemma_delete_absent(ss.drop_first(), id);
        let rs = ss[0].service_config.routes;
        assert forall|k: int| 0 <= k < rs.len() implies (#[trigger] rs[k]).route_id != id by {
            lemma_route_idx_none(rs, id, 0, k);
        }
        lemma_strip_absent(rs, id);
        assert(spec_delete_services(ss, id) =~= ss);
    }
}

/// An update whose id no route carries is refused and changes nothing, and
/// the deletion that follows it changes nothing either: the set of routes,
/// and with it the set of route ids, is exactly what it was.
pub proof fn lemma_put_then_delete_restores(c: AppConfigV, r: RouteV)
    requires
        find_route(c, r.route_id) is None,
        forall|k: int|
            0 <= k < c.services.len() ==> (#[trigger] c.services[k]).service_config.routes.len()
                > 0,
    ensures
        spec_update_err(c, r) == Some(ConfigError::RouteNotFound),
        spec_delete(spec_update_route(c, r), r.route_id) == c,
{
    assert(spec_update_route(c, r) == c);
    assert forall|k: int|
        0 <= k < c.services.len() implies route_idx_from(
        (#[trigger] c.services[k]).service_config.routes,
        r.route_id,
        0,
    ) is None by {
        lemma_service_idx_none(c.services, r.route_id, 0, k);
    }
    lemma_delete_absent(c.services, r.route_id);
    assert(spec_delete(c, r.route_id) =~= c);
}

// ------------------------------------------------------------------
// Replacing twice with one payload is replacing once
// ------------------------------------------------------------------
/// No two routes of the payload share an id.
pub open spec fn unique_route_ids(ss: Seq<ApiServiceV>) -> bool {
    forall|i1: int, j1: int, i2: int, j2: int|
        0 <= i1 < ss.len() && 0 <= j1 < ss[i1].service_config.routes.len() && 0 <= i2 < ss.len()
            && 0 <= j2 < ss[i2].service_config.routes.len() && !(i1 == i2 && j1 == j2) ==> (
        #[trigger] ss[i1].service_config.routes[j1]).route_id != (
        #[trigger] ss[i2].service_config.routes[j2]).route_id
}

/// An upstream that sits in the cluster makes the endpoint search succeed.
proof fn lemma_last_match_exists(bases: Seq<BaseRouteV>, m: int)
    requires
        0 <= m < bases.len(),
    ensures
        last_match(bases, bases[m].endpoint) is Some,
        last_match(bases, bases[m].endpoint)->Some_0.endpoint == bases[m].endpoint,
    decreases bases.len(),
{
    if bases.len() > 0 {
        if bases.last().endpoint == bases[m].endpoint {
        } else {
            lemma_last_match_exists(bases.drop_last(), m);
        }
    }
}

/// The endpoint search commutes with adoption: adopting keeps endpoints, so
/// the same upstream answers, itself adopted.
proof fn lemma_last_match_adopt(bases: Seq<BaseRouteV>, prior: Seq<BaseRouteV>, e: Seq<char>)
    ensures
        last_match(bases.map_values(|b: BaseRouteV| adopt_base(b, prior)), e) == (match last_match(
            bases,
            e,
        ) {
            Some(x) => Some(adopt_base(x, prior)),
            None => None,
        }),
    decreases bases.len(),
{
    let mapped = bases.map_values(|b: BaseRouteV| adopt_base(b, prior));
    if bases.len() > 0 {
        lemma_last_match_adopt(bases.drop_last(), prior, e);
        assert(mapped.drop_last() =~= bases.drop_last().map_values(
            |b: BaseRouteV| adopt_base(b, prior),
        ));
        assert(mapped.last() == adopt_base(bases.last(), prior));
    }
}

/// Adopting from an already-adopted cluster is adopting from the prior
/// cluster itself: the carried state depends on the endpoint alone.
proof fn lemma_adopt_stable(bases: Seq<BaseRouteV>, prior: Seq<BaseRouteV>, m: int)
    requires
        0 <= m < bases.len(),
    ensures
        adopt_base(bases[m], bases.map_values(|b: BaseRouteV| adopt_base(b, prior)))
            == adopt_base(bases[m], prior),
{
    let e = bases[m].endpoint;
    lemma_last_match_exists(bases, m);
    lemma_last_match_adopt(bases, prior, e);
}

/// The first search finds the only position an id occupies.
proof fn lemma_route_idx_only(rs: Seq<RouteV>, id: Seq<char>, i: int, j: int)
    requires
        0 <= i <= j < rs.len(),
        rs[j].route_id == id,
        forall|l: int| i <= l < j ==> (#[trigger] rs[l]).route_id != id,
    ensures
        route_idx_from(rs, id, i) == Some(j),
    decreases j - i,
{
    if i < j {
        lemma_route_idx_only(rs, id, i + 1, j);
    }
}

proof fn lemma_route_idx_absent(rs: Seq<RouteV>, id: Seq<char>, i: int)
    requires
        0 <= i,
        forall|l: int| i <= l < rs.len() ==> (#[trigger] rs[l]).route_id != id,
    ensures
        route_idx_from(rs, id, i) is None,
    decreases rs.len() - i,
{
    if i < rs.len() {
        lemma_route_idx_absent(rs, id, i + 1);
    }
}

proof fn lemma_service_idx_only(ss: Seq<ApiServiceV>, id: Seq<char>, i: int, si: int)
    requires
        0 <= i <= si < ss.len(),
        route_idx_from(ss[si].service_config.routes, id, 0) is Some,
        forall|k: int|
            i <= k < si ==> route_idx_from(
                (#[trigger] ss[k]).service_config.routes,
                id,
                0,
            ) is None,
    ensures
        service_idx_from(ss, id, i) == Some(si),
    decreases si - i,
{
    if i < si {
        lemma_service_idx_only(ss, id, i + 1, si);
    }
}

/// Where the payload's route ids are unique, the snapshot a replacement
/// builds finds each payload route exactly where the payload put it.
proof fn lemma_find_in_installed(c: AppConfigV, p: Seq<ApiServiceV>, si: int, ri: int)
    requires
        unique_route_ids(p),
        0 <= si < p.len(),
        0 <= ri < p[si].service_config.routes.len(),
    ensures
        find_route(spec_replace_all(c, p), p[si].service_config.routes[ri].route_id) == Some(
            install_route(
                p[si].service_config.routes[ri],
                find_route(c, p[si].service_config.routes[ri].route_id),
            ),
        ),
{
    let c1 = spec_replace_all(c, p);
    let r = p[si].service_config.routes[ri];
    let id = r.route_id;
    assert(c1.services.len() == p.len());
    assert forall|k: int, l: int|
        0 <= k < p.len() && 0 <= l < p[k].service_config.routes.len() implies (
    #[trigger] c1.services[k].service_config.routes[l]).route_id == p[k].service_config.routes[
        l
    ].route_id by {
        assert(c1.services[k] == install_service(p[k], c));
    }
    let rs1 = c1.services[si as int].service_config.routes;
    assert(rs1[ri].route_id == id);
    assert forall|l: int| 0 <= l < ri implies (#[trigger] rs1[l]).route_id != id by {
        assert(p[si].service_config.routes[l].route_id != id);
    }
    lemma_route_idx_only(rs1, id, 0, ri);
    assert forall|k: int|
        0 <= k < si implies route_idx_from(
        (#[trigger] c1.services[k]).service_config.routes,
        id,
        0,
    ) is None by {
        let rsk = c1.services[k].service_config.routes;
        assert forall|l: int| 0 <= l < rsk.len() implies (#[trigger] rsk[l]).route_id != id by {
            assert(p[k].service_config.routes[l].route_id != id);
        }
        lemma_route_idx_absent(rsk, id, 0);
    }
    lemma_service_idx_only(c1.services, id, 0, si);
    assert(find_route(c1, id) == Some(rs1[ri]));
    assert(rs1[ri] == install_route(r, find_route(c, id)));
}

/// Installing a route against its own installation changes nothing more.
proof fn lemma_install_idempotent(r: RouteV, prior: Option<RouteV>)
    ensures
        install_route(r, Some(install_route(r, prior))) == install_route(r, prior),
{
    let prior_bases = match prior {
        Some(p) => p.cluster.routes,
        None => Seq::<BaseRouteV>::empty(),
    };
    let inst1 = install_route(r, prior);
    let inst2 = install_route(r, Some(inst1));
    let adopted1 = r.cluster.routes.map_values(|b: BaseRouteV| adopt_base(b, prior_bases));
    assert(inst1.cluster.routes == adopted1);
    assert forall|m: int| 0 <= m < r.cluster.routes.len() implies inst2.cluster.routes[m]
        == adopted1[m] by {
        lemma_adopt_stable(r.cluster.routes, prior_bases, m);
    }
    assert(inst2.cluster.routes =~= adopted1);
    assert(inst2 =~= inst1);
}

/// Replacing the configuration twice with one payload gives, the second
/// time, exactly the snapshot the first replacement gave: the same routes
/// and the same liveness state.
pub proof fn lemma_replace_all_idempotent(c: AppConfigV, p: Seq<ApiServiceV>)
    requires
        unique_route_ids(p),
    ensures
        spec_replace_all(spec_replace_all(c, p), p) == spec_replace_all(c, p),
{
    let c1 = spec_replace_all(c, p);
    let c2 = spec_replace_all(c1, p);
    assert forall|i: int| 0 <= i < p.len() implies c2.services[i] == c1.services[i] by {
        let s = p[i];
        assert(c1.services[i] == install_service(s, c));
        assert(c2.services[i] == install_service(s, c1));
        assert forall|j: int|
            0 <= j < s.service_config.routes.len() implies install_service(
            s,
            c1,
        ).service_config.routes[j] == install_service(s, c).service_config.routes[j] by {
            let r = s.service_config.routes[j];
            lemma_find_in_installed(c, p, i, j);
            lemma_install_idempotent(r, find_route(c, r.route_id));
        }
        assert(install_service(s, c1).service_config.routes =~= install_service(
            s,
            c,
        ).service_config.routes);
        assert(install_service(s, c1) =~= install_service(s, c));
    }
    assert(c2.services =~= c1.services);
    assert(c2 =~= c1);
}

/// Deleting keeps the snapshot well formed: surviving services keep their
/// (still unique) ports, and surviving routes are unchanged.
pub proof fn lemma_delete_preserves_wf(c: AppConfigV, id: Seq<char>)
    requires
        snapshot_wf(c),
    ensures
        snapshot_wf(spec_delete(c, id)),
{
    lemma_delete_wf_h(c.services, id);
}

proof fn lemma_delete_wf_h(ss: Seq<ApiServiceV>, id: Seq<char>)
    requires
        forall|i: int, j: int|
            0 <= i < ss.len() && 0 <= j < ss.len() && i != j ==> ss[i].listen_port != ss[j].listen_port,
        forall|i: int, j: int|
            0 <= i < ss.len() && 0 <= j < ss[i].service_config.routes.len() ==> route_wf(
                #[trigger] ss[i].service_config.routes[j],
            ),
    ensures
        snapshot_wf(AppConfigV { services: spec_delete_services(ss, id) }),
{
    let out = spec_delete_services(ss, id);
    lemma_delete_services_shape(ss, id);
    lemma_delete_services_ports_distinct(ss, id);
    assert forall|i: int, j: int|
        0 <= i < out.len() && 0 <= j < out[i].service_config.routes.len() implies route_wf(
        #[trigger] out[i].service_config.routes[j],
    ) by {
        let w = choose|w: int|
            0 <= w < ss.len() && out[i].listen_port == ss[w].listen_port && out[i].service_config.routes =~= strip_route(ss[w].service_config.routes, id) && out[i].service_config.routes.len() > 0;
        lemma_strip_route_sub(ss[w].service_config.routes, id);
        let x = out[i].service_config.routes[j];
        assert(ss[w].service_config.routes.contains(x));
        let l = choose|l: int|
            0 <= l < ss[w].service_config.routes.len() && ss[w].service_config.routes[l] == x;
        assert(route_wf(ss[w].service_config.routes[l]));
    }
    assert forall|i: int| 0 <= i < out.len() implies (
    #[trigger] out[i]).service_config.routes.len() > 0 by {}
}

/// After a deletion, ports are still pairwise distinct.
proof fn lemma_delete_services_ports_distinct(ss: Seq<ApiServiceV>, id: Seq<char>)
    requires
        forall|i: int, j: int|
            0 <= i < ss.len() && 0 <= j < ss.len() && i != j ==> ss[i].listen_port != ss[j].listen_port,
    ensures
        forall|i: int, j: int|
            0 <= i < spec_delete_services(ss, id).len() && 0 <= j < spec_delete_services(
                ss,
                id,
            ).len() && i != j ==> spec_delete_services(ss, id)[i].listen_port
                != spec_delete_services(ss, id)[j].listen_port,
    decreases ss.len(),
{
    if ss.len() > 0 {
        assert forall|i: int, j: int|
            0 <= i < ss.drop_first().len() && 0 <= j < ss.drop_first().len() && i != j implies ss
            .drop_first()[i].listen_port != ss.drop_first()[j].listen_port by {
            assert(ss.drop_first()[i] == ss[i + 1]);
            assert(ss.drop_first()[j] == ss[j + 1]);
        }
        lemma_delete_services_ports_distinct(ss.drop_first(), id);
        let out = spec_delete_services(ss, id);
        let rest = spec_delete_services(ss.drop_first(), id);
        let s2 = ApiServiceV {
            service_config: ServiceConfigV {
                routes: strip_route(ss[0].service_config.routes, id),
                ..ss[0].service_config
            },
            ..ss[0]
        };
        let head: Seq<ApiServiceV> = if s2.service_config.routes.len() > 0 {
            seq![s2]
        } else {
            Seq::empty()
        };
        assert forall|i: int, j: int|
            0 <= i < out.len() && 0 <= j < out.len() && i != j implies out[i].listen_port != out[j].listen_port by {
            if i >= head.len() && j >= head.len() {
                assert(out[i] == rest[i - head.len()]);
                assert(out[j] == rest[j - head.len()]);
            } else if i < head.len() && j >= head.len() {
                assert(out[j] == rest[j - head.len()]);
                lemma_port_in_rest(ss, id, out[j].listen_port, j - head.len());
            } else if j < head.len() && i >= head.len() {
                assert(out[i] == rest[i - head.len()]);
                lemma_port_in_rest(ss, id, out[i].listen_port, i - head.len());
            }
        }
}
}

/// A port that survives into the tail's deletion came from the tail.
proof fn lemma_port_in_rest(ss: Seq<ApiServiceV>, id: Seq<char>, p: u16, k: int)
    requires
        ss.len() > 0,
        0 <= k < spec_delete_services(ss.drop_first(), id).len(),
        spec_delete_services(ss.drop_first(), id)[k].listen_port == p,
        forall|i: int, j: int|
            0 <= i < ss.len() && 0 <= j < ss.len() && i != j ==> ss[i].listen_port != ss[j].listen_port,
    ensures
        p != ss[0].listen_port,
{
    lemma_delete_services_shape(ss.drop_first(), id);
    let rest = spec_delete_services(ss.drop_first(), id);
    let w = choose|w: int|
        0 <= w < ss.drop_first().len() && (#[trigger] rest[k]).listen_port == ss.drop_first()[w].listen_port && rest[k].service_config.routes =~= strip_route(
            ss.drop_first()[w].service_config.routes,
            id,
        ) && rest[k].service_config.routes.len() > 0;
    assert(ss.drop_first()[w] == ss[w + 1]);
}

} // verus!
