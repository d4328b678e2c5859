//! Upstream selection. Each strategy draws from the available upstreams and
//! falls back to the whole cluster when every upstream is ejected, preferring
//! availability over strictness. The hash strategies fold the key with
//! FNV-1a, applied to each character's code point.
use vstd::prelude::*;
use vstd::string::StrSliceExecFns;
use crate::access::header_lookup;
use crate::access::headers_view;
use crate::access::find_header;
use crate::model::AliveState;
use crate::model::BaseRoute;
use crate::model::BaseRouteV;
use crate::model::Cluster;
use crate::model::ClusterV;
use crate::model::LoadbalancerStrategy;
use crate::model::StrategyV;
use crate::model::base_routes_view;
use crate::model::cluster_wf;
use crate::model::count_available;
use crate::model::is_available;

verus! {

/// FNV-1a offset basis (64 bit).
pub const FNV_OFFSET: u64 = 0xcbf29ce484222325;

/// FNV-1a prime (64 bit).
pub const FNV_PRIME: u64 = 0x100000001b3;

/// One FNV-1a round: fold one value into the running hash.
pub open spec fn fnv1a_step(h: u64, x: u64) -> u64 {
    vstd::wrapping::u64_specs::wrapping_mul(h ^ x, FNV_PRIME)
}

/// FNV-1a over a string's characters, folding each code point.
pub open spec fn hash_chars(s: Seq<char>) -> u64
    decreases s.len(),
{
    if s.len() == 0 {
        FNV_OFFSET
    } else {
        fnv1a_step(hash_chars(s.drop_last()), (s.last() as u32) as u64)
    }
}

/// Hashes a string with FNV-1a over its characters.
pub fn hash_str(s: &str) -> (h: u64)
    ensures
        h == hash_chars(s@),
{
    let n: usize = s.unicode_len();
    let mut h: u64 = FNV_OFFSET;
    let mut i: usize = 0;
    while i < n
        invariant
            i <= n,
            n == s@.len(),
            h == hash_chars(s@.take(i as int)),
        decreases n - i,
    {
        let c = s.get_char(i);
        h = (h ^ ((c as u32) as u64)).wrapping_mul(FNV_PRIME);
        proof {
            assert(s@.take(i + 1).drop_last() =~= s@.take(i as int));
            assert(s@.take(i + 1).last() == s@[i as int]);
        }
        i = i + 1;
    }
    proof {
        assert(s@.take(n as int) =~= s@);
    }
    h
}

/// Indices of the available upstreams, in cluster order.
pub open spec fn avail_indices(routes: Seq<BaseRouteV>) -> Seq<int>
    decreases routes.len(),
{
    if routes.len() == 0 {
        Seq::empty()
    } else if is_available(routes.last()) {
        avail_indices(routes.drop_last()).push(routes.len() - 1)
    } else {
        avail_indices(routes.drop_last())
    }
}

/// The pool a strategy draws from: the available upstreams, or the whole
/// cluster when none is available.
pub open spec fn pool_of(routes: Seq<BaseRouteV>) -> Seq<int> {
    if count_available(routes) > 0 {
        avail_indices(routes)
    } else {
        Seq::new(routes.len(), |i: int| i)
    }
}

/// There are as many available indices as available upstreams.
pub proof fn lemma_avail_len(routes: Seq<BaseRouteV>)
    ensures
        avail_indices(routes).len() == count_available(routes),
    decreases routes.len(),
{
    if routes.len() > 0 {
        lemma_avail_len(routes.drop_last());
    }
}

/// Every available index is in range and names an available upstream.
pub proof fn lemma_avail_elems(routes: Seq<BaseRouteV>)
    ensures
        forall|k: int|
            0 <= k < avail_indices(routes).len() ==> {
                &&& 0 <= #[trigger] avail_indices(routes)[k] < routes.len()
                &&& is_available(routes[avail_indices(routes)[k]])
            },
    decreases routes.len(),
{
    if routes.len() > 0 {
        lemma_avail_elems(routes.drop_last());
        assert forall|k: int| 0 <= k < avail_indices(routes).len() implies {
            &&& 0 <= #[trigger] avail_indices(routes)[k] < routes.len()
            &&& is_available(routes[avail_indices(routes)[k]])
        } by {
            let prior = avail_indices(routes.drop_last());
            if k < prior.len() {
                assert(routes.drop_last()[prior[k]] == routes[prior[k]]);
            }
        }
    }
}

/// The pool of a non-empty cluster is non-empty, in range, and names only
/// available upstreams whenever any upstream is available.
pub proof fn lemma_pool_props(routes: Seq<BaseRouteV>)
    requires
        routes.len() > 0,
    ensures
        pool_of(routes).len() > 0,
        forall|k: int|
            0 <= k < pool_of(routes).len() ==> 0 <= #[trigger] pool_of(routes)[k] < routes.len(),
        count_available(routes) > 0 ==> forall|k: int|
            0 <= k < pool_of(routes).len() ==> is_available(
                routes[#[trigger] pool_of(routes)[k]],
            ),
{
    lemma_avail_len(routes);
    lemma_avail_elems(routes);
}

/// Builds the selection pool of a cluster.
fn build_pool(routes: &Vec<BaseRoute>) -> (pool: Vec<usize>)
    requires
        routes@.len() > 0,
    ensures
        pool@.map_values(|u: usize| u as int) == pool_of(base_routes_view(routes@)),
        pool@.len() > 0,
        forall|k: int| 0 <= k < pool@.len() ==> #[trigger] pool@[k] < routes@.len(),
{
    let ghost rv = base_routes_view(routes@);
    let mut avail: Vec<usize> = Vec::new();
    let mut i: usize = 0;
    while i < routes.len()
        invariant
            i <= routes.len(),
            rv == base_routes_view(routes@),
            avail@.map_values(|u: usize| u as int) == avail_indices(rv.take(i as int)),
            forall|k: int| 0 <= k < avail@.len() ==> #[trigger] avail@[k] < i,
        decreases routes.len() - i,
    {
        proof {
            assert(rv.take(i + 1).drop_last() =~= rv.take(i as int));
            assert(rv.take(i + 1).last() == rv[i as int]);
        }
        let live = match routes[i].is_alive {
            AliveState::Ejected => false,
            _ => true,
        };
        if live {
            avail.push(i);
            proof {
                assert(avail@.map_values(|u: usize| u as int) =~= avail_indices(
                    rv.take(i + 1),
                ));
            }
        }
        i = i + 1;
    }
    proof {
        assert(rv.take(routes@.len() as int) =~= rv);
        lemma_avail_len(rv);
    }
    if avail.len() > 0 {
        assert(count_available(rv) > 0);
        return avail;
    }
    assert(count_available(rv) == 0);
    let mut full: Vec<usize> = Vec::new();
    let mut j: usize = 0;
    while j < routes.len()
        invariant
            j <= routes.len(),
            full@.len() == j,
            forall|k: int| 0 <= k < j ==> #[trigger] full@[k] == k,
        decreases routes.len() - j,
    {
        full.push(j);
        j = j + 1;
    }
    proof {
        assert(full@.map_values(|u: usize| u as int) =~= Seq::new(rv.len(), |i: int| i));
    }
    full
}

/// Total budget of the pool's upstreams.
pub open spec fn sum_over(pool: Seq<int>, b: Seq<u32>) -> nat
    decreases pool.len(),
{
    if pool.len() == 0 {
        0
    } else {
        b[pool[0]] as nat + sum_over(pool.drop_first(), b)
    }
}

/// The pool's total budget is bounded by its size times the largest weight.
pub proof fn lemma_sum_over_bound(pool: Seq<int>, b: Seq<u32>)
    ensures
        sum_over(pool, b) <= pool.len() * 0xffff_ffff,
    decreases pool.len(),
{
    if pool.len() > 0 {
        lemma_sum_over_bound(pool.drop_first(), b);
    }
}

/// Weighted pick: walk the pool, consuming `t` against each budget, and take
/// the first upstream whose budget exceeds what is left.
pub open spec fn pick_weighted(pool: Seq<int>, b: Seq<u32>, t: nat) -> int
    decreases pool.len(),
{
    if pool.len() == 0 {
        -1
    } else if t < b[pool[0]] {
        pool[0]
    } else {
        pick_weighted(pool.drop_first(), b, (t - b[pool[0]]) as nat)
    }
}

/// A pick under the total budget lands in the pool, on a positive budget.
pub proof fn lemma_pick_weighted(pool: Seq<int>, b: Seq<u32>, t: nat)
    requires
        t < sum_over(pool, b),
    ensures
        pool.contains(pick_weighted(pool, b, t)),
        b[pick_weighted(pool, b, t)] > 0,
    decreases pool.len(),
{
    if pool.len() > 0 {
        if t < b[pool[0]] {
        } else {
            lemma_pick_weighted(pool.drop_first(), b, (t - b[pool[0]]) as nat);
            assert(pool.drop_first().contains(pick_weighted(pool, b, t)) ==> pool.contains(
                pick_weighted(pool, b, t),
            ));
        }
    }
}

/// First pool entry at or after `v`, used by the sequential strategy.
pub open spec fn first_at_least(pool: Seq<int>, v: int) -> Option<int>
    decreases pool.len(),
{
    if pool.len() == 0 {
        None
    } else if pool[0] >= v {
        Some(pool[0])
    } else {
        first_at_least(pool.drop_first(), v)
    }
}

/// What `first_at_least` returns is a pool entry.
pub proof fn lemma_first_at_least(pool: Seq<int>, v: int)
    ensures
        match first_at_least(pool, v) {
            Some(k) => pool.contains(k),
            None => true,
        },
    decreases pool.len(),
{
    if pool.len() > 0 && pool[0] < v {
        lemma_first_at_least(pool.drop_first(), v);
        assert(match first_at_least(pool.drop_first(), v) {
            Some(k) => pool.drop_first().contains(k) ==> pool.contains(k),
            None => true,
        });
    }
}

/// The header-hash key: the named header's value, or empty when absent.
pub open spec fn header_key(
    hs: Seq<(Seq<char>, Seq<char>)>,
    name: Seq<char>,
) -> Seq<char> {
    match header_lookup(hs, name) {
        Some(v) => v,
        None => Seq::empty(),
    }
}

/// The choice and the successor strategy state of one selection step.
pub open spec fn spec_select(
    c: ClusterV,
    entropy: u64,
    hs: Seq<(Seq<char>, Seq<char>)>,
    ip: Seq<char>,
) -> (int, StrategyV) {
    let pool = pool_of(c.routes);
    let l = pool.len() as int;
    match c.strategy {
        StrategyV::Random => (pool[entropy as int % l], StrategyV::Random),
        StrategyV::RoundRobin { index } => {
            let i0 = index as int % l;
            (pool[i0], StrategyV::RoundRobin { index: ((i0 + 1) % l) as usize })
        },
        StrategyV::HeaderHash { header_name } => (
            pool[hash_chars(header_key(hs, header_name)) as int % l],
            StrategyV::HeaderHash { header_name },
        ),
        StrategyV::IpHash => (pool[hash_chars(ip) as int % l], StrategyV::IpHash),
        StrategyV::Poll { index } => {
            let i0 = index as int % c.routes.len() as int;
            let k = if is_available(c.routes[i0]) {
                i0
            } else {
                match first_at_least(pool, i0) {
                    Some(k) => k,
                    None => pool[0],
                }
            };
            (k, StrategyV::Poll { index: k as usize })
        },
        StrategyV::WeightedRandom { weights, budgets } => {
            let b = if sum_over(Seq::new(budgets.len(), |i: int| i), budgets) == 0 {
                weights
            } else {
                budgets
            };
            let total = sum_over(pool, b);
            if total == 0 {
                (pool[entropy as int % l], StrategyV::WeightedRandom { weights, budgets: b })
            } else {
                let t = entropy as nat % total;
                let k = pick_weighted(pool, b, t);
                (
                    k,
                    StrategyV::WeightedRandom {
                        weights,
                        budgets: b.update(k, (b[k] - 1) as u32),
                    },
                )
            }
        },
    }
}

/// The hash strategies keep no mutable state, so while the cluster is
/// unchanged the same key always selects the same upstream, whatever entropy
/// the caller brings.
pub proof fn lemma_hash_selection_stable(
    c: ClusterV,
    e1: u64,
    e2: u64,
    hs: Seq<(Seq<char>, Seq<char>)>,
    ip: Seq<char>,
)
    requires
        c.strategy is HeaderHash || c.strategy is IpHash,
    ensures
        spec_select(c, e1, hs, ip) == spec_select(c, e2, hs, ip),
        spec_select(c, e1, hs, ip).1 == c.strategy,
{
}

/// Advancing a strategy's selection state keeps the cluster well formed:
/// weighted budgets only reset to the declared weights or shrink.
pub proof fn lemma_select_preserves_wf(
    c: ClusterV,
    entropy: u64,
    hs: Seq<(Seq<char>, Seq<char>)>,
    ip: Seq<char>,
)
    requires
        cluster_wf(c),
    ensures
        cluster_wf(ClusterV { routes: c.routes, strategy: spec_select(c, entropy, hs, ip).1 }),
{
    match c.strategy {
        StrategyV::WeightedRandom { weights, budgets } => {
            let pool = pool_of(c.routes);
            let b = if sum_over(Seq::new(budgets.len(), |i: int| i), budgets) == 0 {
                weights
            } else {
                budgets
            };
            assert(forall|i: int| 0 <= i < weights.len() ==> b[i] <= weights[i]);
            let total = sum_over(pool, b);
            if total > 0 {
                let t = entropy as nat % total;
                lemma_pick_weighted(pool, b, t);
                lemma_pool_props(c.routes);
                let k = pick_weighted(pool, b, t);
                let w = choose|w: int| 0 <= w < pool.len() && pool[w] == k;
                assert(0 <= k < c.routes.len());
                assert(forall|i: int|
                    0 <= i < weights.len() ==> b.update(k, (b[k] - 1) as u32)[i] <= weights[i]);
            }
        },
        _ => {},
    }
}

/// Copies a budget vector.
pub fn copy_u32_vec(v: &Vec<u32>) -> (r: Vec<u32>)
    ensures
        r@ == v@,
{
    let mut r: Vec<u32> = Vec::new();
    let mut i: usize = 0;
    while i < v.len()
        invariant
            i <= v.len(),
            r@ == v@.take(i as int),
        decreases v.len() - i,
    {
        r.push(v[i]);
        proof {
            assert(v@.take(i + 1) =~= v@.take(i as int).push(v@[i as int]));
        }
        i = i + 1;
    }
    proof {
        assert(v@.take(v@.len() as int) =~= v@);
    }
    r
}

/// Sums the budgets of the pool's upstreams.
fn sum_over_exec(pool: &Vec<usize>, b: &Vec<u32>) -> (s: u64)
    requires
        pool@.len() < 0x1_0000_0000,
        forall|k: int| 0 <= k < pool@.len() ==> #[trigger] pool@[k] < b@.len(),
    ensures
        s == sum_over(pool@.map_values(|u: usize| u as int), b@),
{
    let ghost pv = pool@.map_values(|u: usize| u as int);
    proof {
        lemma_sum_over_bound(pv, b@);
    }
    proof {
        assert(pv.skip(0) =~= pv);
    }
    let mut s: u64 = 0;
    let mut i: usize = 0;
    while i < pool.len()
        invariant
            i <= pool.len(),
            pv == pool@.map_values(|u: usize| u as int),
            forall|k: int| 0 <= k < pool@.len() ==> #[trigger] pool@[k] < b@.len(),
            s + sum_over(pv.skip(i as int), b@) == sum_over(pv, b@),
            sum_over(pv, b@) <= 0xffff_ffff_0000_0000,
        decreases pool.len() - i,
    {
        proof {
            assert(pv.skip(i as int).drop_first() =~= pv.skip(i + 1));
            assert(pv.skip(i as int)[0] == pv[i as int]);
        }
        s = s + (b[pool[i]] as u64);
        i = i + 1;
    }
    proof {
        assert(pv.skip(pv.len() as int) =~= Seq::<int>::empty());
    }
    s
}

/// Selects one upstream of the cluster and advances the strategy's internal
/// state. The set of upstreams itself never changes here. Whenever any
/// upstream is available, the selection is an available one.
pub fn select_upstream(
    cluster: &mut Cluster,
    entropy: u64,
    headers: &Vec<(String, String)>,
    client_ip: &String,
) -> (r: usize)
    requires
        cluster_wf(old(cluster)@),
    ensures
        r < final(cluster).routes@.len(),
        final(cluster)@.routes == old(cluster)@.routes,
        r as int == spec_select(old(cluster)@, entropy, headers_view(headers@), client_ip@).0,
        final(cluster)@.strategy == spec_select(
            old(cluster)@,
            entropy,
            headers_view(headers@),
            client_ip@,
        ).1,
        count_available(old(cluster)@.routes) > 0 ==> is_available(
            old(cluster)@.routes[r as int],
        ),
{
    let ghost cv = cluster@;
    let ghost poolv = pool_of(cv.routes);
    proof {
        lemma_pool_props(cv.routes);
    }
    let n = cluster.routes.len();
    let pool = build_pool(&cluster.routes);
    let l = pool.len();
    let mut choice: usize = 0;
    let mut next: Option<LoadbalancerStrategy> = None;
    match &cluster.strategy {
        LoadbalancerStrategy::Random => {
            choice = pool[(entropy % (l as u64)) as usize];
        },
        LoadbalancerStrategy::RoundRobin { index } => {
            let i0 = *index % l;
            choice = pool[i0];
            next = Some(LoadbalancerStrategy::RoundRobin { index: (i0 + 1) % l });
        },
        LoadbalancerStrategy::HeaderHash { header_name } => {
            let key: u64 = match find_header(headers, header_name.as_str()) {
                Some(v) => hash_str(v.as_str()),
                None => FNV_OFFSET,
            };
            choice = pool[(key % (l as u64)) as usize];
        },
        LoadbalancerStrategy::IpHash => {
            let key = hash_str(client_ip.as_str());
            choice = pool[(key % (l as u64)) as usize];
        },
        LoadbalancerStrategy::Poll { index } => {
            let i0 = *index % n;
            let live0 = match cluster.routes[i0].is_alive {
                AliveState::Ejected => false,
                _ => true,
            };
            if live0 {
                choice = i0;
            } else {
                proof {
                    lemma_first_at_least(poolv, i0 as int);
                    assert(poolv.skip(0) =~= poolv);
                }
                let mut j: usize = 0;
                let mut found = false;
                while j < l && !found
                    invariant
                        j <= l,
                        l == poolv.len(),
                        poolv == pool@.map_values(|u: usize| u as int),
                        forall|k: int| 0 <= k < pool@.len() ==> #[trigger] pool@[k] < n,
                        !found ==> first_at_least(poolv, i0 as int) == first_at_least(
                            poolv.skip(j as int),
                            i0 as int,
                        ),
                        found ==> j < l && poolv[j as int] >= i0 && first_at_least(
                            poolv,
                            i0 as int,
                        ) == Some(poolv[j as int]) && choice == pool@[j as int],
                    decreases l - j + if found { 0int } else { 1int },
                {
                    proof {
                        assert(poolv.skip(j as int).drop_first() =~= poolv.skip(j + 1));
                        assert(poolv.skip(j as int)[0] == poolv[j as int]);
                    }
                    if pool[j] >= i0 {
                        choice = pool[j];
                        found = true;
                    } else {
                        j = j + 1;
                    }
                }
                if !found {
                    proof {
                        assert(poolv.skip(l as int) =~= Seq::<int>::empty());
                        assert(first_at_least(poolv, i0 as int) is None);
                    }
                    choice = pool[0];
                }
            }
            next = Some(LoadbalancerStrategy::Poll { index: choice });
        },
        LoadbalancerStrategy::WeightedRandom { weights, budgets } => {
            let ghost wv = weights@;
            let ghost bv0 = budgets@;
            let mut idx: Vec<usize> = Vec::new();
            let mut k: usize = 0;
            while k < budgets.len()
                invariant
                    k <= budgets.len(),
                    idx@.len() == k,
                    forall|q: int| 0 <= q < k ==> #[trigger] idx@[q] == q,
                decreases budgets.len() - k,
            {
                idx.push(k);
                k = k + 1;
            }
            proof {
                assert(idx@.map_values(|u: usize| u as int) =~= Seq::new(
                    budgets@.len(),
                    |i: int| i,
                ));
            }
            let all = sum_over_exec(&idx, budgets);
            let b: Vec<u32> = if all == 0 {
                copy_u32_vec(weights)
            } else {
                copy_u32_vec(budgets)
            };
            proof {
                lemma_avail_len(cv.routes);
                crate::model::lemma_count_available_le_len(cv.routes);
                assert(pool@.len() < 0x1_0000_0000);
            }
            let total = sum_over_exec(&pool, &b);
            if total == 0 {
                choice = pool[(entropy % (l as u64)) as usize];
                next = Some(
                    LoadbalancerStrategy::WeightedRandom { weights: copy_u32_vec(weights), budgets: b },
                );
            } else {
                let mut t: u64 = entropy % total;
                proof {
                    lemma_pick_weighted(poolv, b@, t as nat);
                    assert(poolv.skip(0) =~= poolv);
                }
                let mut j: usize = 0;
                let mut found = false;
                while j < l && !found
                    invariant
                        j <= l,
                        l == poolv.len(),
                        poolv == pool@.map_values(|u: usize| u as int),
                        forall|q: int| 0 <= q < pool@.len() ==> #[trigger] pool@[q] < b@.len(),
                        !found ==> {
                            &&& pick_weighted(poolv, b@, (entropy % total) as nat)
                                == pick_weighted(poolv.skip(j as int), b@, t as nat)
                            &&& t < sum_over(poolv.skip(j as int), b@)
                        },
                        found ==> j < l && choice == pool@[j as int] && choice as int
                            == pick_weighted(poolv, b@, (entropy % total) as nat),
                        total == sum_over(poolv, b@),
                    decreases l - j + if found { 0int } else { 1int },
                {
                    proof {
                        assert(poolv.skip(j as int).drop_first() =~= poolv.skip(j + 1));
                        assert(poolv.skip(j as int)[0] == poolv[j as int]);
                    }
                    if t < (b[pool[j]] as u64) {
                        choice = pool[j];
                        found = true;
                    } else {
                        t = t - (b[pool[j]] as u64);
                        j = j + 1;
                    }
                }
                proof {
                    if !found {
                        assert(poolv.skip(l as int) =~= Seq::<int>::empty());
                        assert(false);
                    }
                }
                let mut b2 = b;
                let picked = b2[choice];
                b2[choice] = picked - 1;
                next = Some(
                    LoadbalancerStrategy::WeightedRandom {
                        weights: copy_u32_vec(weights),
                        budgets: b2,
                    },
                );
            }
        },
    }
    if let Some(st) = next {
        cluster.strategy = st;
    }
    choice
}

} // verus!
