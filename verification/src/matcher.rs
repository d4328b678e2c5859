//! Route matching: the first route whose path prefix and optional host
//! constraint fit the request wins, in declared order, never longest-prefix.
use vstd::prelude::*;
use vstd::string::StrSliceExecFns;
use vstd::string::StringExecFns;
use crate::model::Matcher;
use crate::model::MatcherV;
use crate::model::Route;
use crate::model::RouteV;
use crate::strutil::eq_ignore_ascii_case;
use crate::strutil::has_prefix;
use crate::strutil::seq_eq_ci;
use crate::strutil::suffix_from;

verus! {

/// Whether a route's optional host constraint accepts the request's host.
pub open spec fn host_ok(required: Option<Seq<char>>, given: Option<Seq<char>>) -> bool {
    match required {
        None => true,
        Some(h) => match given {
            Some(g) => seq_eq_ci(h, g),
            None => false,
        },
    }
}

/// Whether one route matches the request path and host.
pub open spec fn route_matches(r: RouteV, path: Seq<char>, host: Option<Seq<char>>) -> bool {
    r.matcher.prefix.is_prefix_of(path) && host_ok(r.host_name, host)
}

/// Index of the first matching route at or after position `i`.
pub open spec fn match_from(
    routes: Seq<RouteV>,
    path: Seq<char>,
    host: Option<Seq<char>>,
    i: int,
) -> Option<int>
    decreases routes.len() - i,
{
    if i < 0 || i >= routes.len() {
        None
    } else if route_matches(routes[i], path, host) {
        Some(i)
    } else {
        match_from(routes, path, host, i + 1)
    }
}

/// Index of the first matching route, if any.
pub open spec fn find_match(
    routes: Seq<RouteV>,
    path: Seq<char>,
    host: Option<Seq<char>>,
) -> Option<int> {
    match_from(routes, path, host, 0)
}

/// The request path after the matched prefix is replaced by the declared
/// rewrite, or the path unchanged where no rewrite is declared.
pub open spec fn spec_rewritten(m: MatcherV, path: Seq<char>) -> Seq<char> {
    match m.prefix_rewrite {
        Some(rw) => rw + path.skip(m.prefix.len() as int),
        None => path,
    }
}

/// Returns the index of the first route that matches the request, walking the
/// declared order.
pub fn match_route(routes: &Vec<Route>, path: &String, host: &Option<String>) -> (r: Option<
    usize,
>)
    ensures
        match r {
            Some(i) => i < routes.len() && find_match(
                routes@.map_values(|x: Route| x@),
                path@,
                match host {
                    Some(h) => Some(h@),
                    None => None,
                },
            ) == Some(i as int),
            None => find_match(
                routes@.map_values(|x: Route| x@),
                path@,
                match host {
                    Some(h) => Some(h@),
                    None => None,
                },
            ) is None,
        },
{
    let ghost rv = routes@.map_values(|x: Route| x@);
    let ghost hv: Option<Seq<char>> = match host {
        Some(h) => Some(h@),
        None => None,
    };
    let mut i: usize = 0;
    while i < routes.len()
        invariant
            i <= routes.len(),
            rv == routes@.map_values(|x: Route| x@),
            hv == (match host {
                Some(h) => Some(h@),
                None => None,
            }),
            match_from(rv, path@, hv, 0) == match_from(rv, path@, hv, i as int),
        decreases routes.len() - i,
    {
        let route = &routes[i];
        let prefix_hit = has_prefix(path.as_str(), route.matcher.prefix.as_str());
        let host_hit = match &route.host_name {
            None => true,
            Some(h) => match host {
                Some(g) => eq_ignore_ascii_case(h.as_str(), g.as_str()),
                None => false,
            },
        };
        if prefix_hit && host_hit {
            assert(route_matches(rv[i as int], path@, hv));
            return Some(i);
        }
        assert(!route_matches(rv[i as int], path@, hv));
        i = i + 1;
    }
    None
}

/// Applies the matched route's rewrite to the request path.
pub fn rewrite_path(m: &Matcher, path: &String) -> (r: String)
    requires
        m@.prefix.is_prefix_of(path@),
    ensures
        r@ == spec_rewritten(m@, path@),
{
    match &m.prefix_rewrite {
        Some(rw) => {
            let plen: usize = m.prefix.as_str().unicode_len();
            let tail = suffix_from(path.as_str(), plen);
            let mut out = rw.clone();
            out.append(tail);
            out
        },
        None => path.clone(),
    }
}

} // verus!
