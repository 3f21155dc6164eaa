use vstd::prelude::*;

use crate::provider::{all_weights_positive, eligible, ProviderState};
use crate::text::str_equals;

verus! {

/// How a method name is routed.
#[derive(Clone, Copy, Debug, PartialEq, Eq, Structural)]
pub enum RouteClass {
    /// Write or chain-tip methods: every healthy provider.
    AllHealthy,
    /// Latency-sensitive reads: the eligible provider with the lowest latency.
    Fastest,
    /// Everything else: the eligible provider with the lowest score.
    BestScore,
}

pub open spec fn spec_route_class(method: Seq<char>) -> RouteClass {
    if method == "getLatestBlockhash"@ || method == "sendTransaction"@ {
        RouteClass::AllHealthy
    } else if method == "getAccountInfo"@ {
        RouteClass::Fastest
    } else {
        RouteClass::BestScore
    }
}

pub open spec fn none_eligible(ps: Seq<ProviderState>) -> bool {
    forall|j: int| 0 <= j < ps.len() ==> !eligible(#[trigger] ps[j])
}

/// Position `i` holds the first eligible state of lowest score.
pub open spec fn is_first_min_score(ps: Seq<ProviderState>, i: int) -> bool {
    &&& 0 <= i < ps.len()
    &&& eligible(ps[i])
    &&& forall|j: int|
        0 <= j < ps.len() && eligible(#[trigger] ps[j]) ==> ps[i].spec_score() <= ps[j].spec_score()
    &&& forall|j: int|
        0 <= j < i && eligible(#[trigger] ps[j]) ==> ps[i].spec_score() < ps[j].spec_score()
}

/// Position `i` holds the first eligible state of lowest average latency.
pub open spec fn is_first_min_latency(ps: Seq<ProviderState>, i: int) -> bool {
    &&& 0 <= i < ps.len()
    &&& eligible(ps[i])
    &&& forall|j: int|
        0 <= j < ps.len() && eligible(#[trigger] ps[j]) ==> ps[i].average_latency
            <= ps[j].average_latency
    &&& forall|j: int|
        0 <= j < i && eligible(#[trigger] ps[j]) ==> ps[i].average_latency
            < ps[j].average_latency
}

/// The URLs of the healthy states, in snapshot order.
pub open spec fn healthy_urls(ps: Seq<ProviderState>) -> Seq<Seq<char>>
    decreases ps.len(),
{
    if ps.len() == 0 {
        Seq::empty()
    } else if ps.last().healthy {
        healthy_urls(ps.drop_last()).push(ps.last().url@)
    } else {
        healthy_urls(ps.drop_last())
    }
}

pub open spec fn urls_view(v: Seq<String>) -> Seq<Seq<char>> {
    v.map_values(|s: String| s@)
}

pub open spec fn opt_view(r: Option<String>) -> Option<Seq<char>> {
    match r {
        Some(s) => Some(s@),
        None => None,
    }
}

/// `r` is the URL of the first eligible state of lowest score, or none if no
/// state is eligible.
pub open spec fn best_score_url(ps: Seq<ProviderState>, r: Option<Seq<char>>) -> bool {
    &&& (r is None <==> none_eligible(ps))
    &&& (r is Some ==> exists|i: int| is_first_min_score(ps, i) && r->0 == ps[i].url@)
}

/// `r` is the URL of the first eligible state of lowest latency, or none if no
/// state is eligible.
pub open spec fn fastest_url(ps: Seq<ProviderState>, r: Option<Seq<char>>) -> bool {
    &&& (r is None <==> none_eligible(ps))
    &&& (r is Some ==> exists|i: int| is_first_min_latency(ps, i) && r->0 == ps[i].url@)
}

/// Position of the first eligible state of lowest score.
fn best_score_index(providers: &[ProviderState]) -> (r: Option<usize>)
    requires
        all_weights_positive(providers@),
    ensures
        r is None <==> none_eligible(providers@),
        r is Some ==> is_first_min_score(providers@, r->0 as int),
{
    let mut best: Option<usize> = None;
    let mut i: usize = 0;
    while i < providers.len()
        invariant
            i <= providers@.len(),
            all_weights_positive(providers@),
            best is None ==> forall|j: int| 0 <= j < i ==> !eligible(#[trigger] providers@[j]),
            best is Some ==> {
                let b = best->0 as int;
                &&& b < i
                &&& eligible(providers@[b])
                &&& forall|j: int|
                    0 <= j < i && eligible(#[trigger] providers@[j])
                        ==> providers@[b].spec_score() <= providers@[j].spec_score()
                &&& forall|j: int|
                    0 <= j < b && eligible(#[trigger] providers@[j])
                        ==> providers@[b].spec_score() < providers@[j].spec_score()
            },
        decreases providers@.len() - i,
    {
        let p = &providers[i];
        if p.healthy && !p.cool_off {
            match best {
                None => {
                    best = Some(i);
                },
                Some(b) => {
                    if p.score() < providers[b].score() {
                        best = Some(i);
                    }
                },
            }
        }
        i = i + 1;
    }
    best
}

/// Position of the first eligible state of lowest average latency.
fn fastest_index(providers: &[ProviderState]) -> (r: Option<usize>)
    ensures
        r is None <==> none_eligible(providers@),
        r is Some ==> is_first_min_latency(providers@, r->0 as int),
{
    let mut best: Option<usize> = None;
    let mut i: usize = 0;
    while i < providers.len()
        invariant
            i <= providers@.len(),
            best is None ==> forall|j: int| 0 <= j < i ==> !eligible(#[trigger] providers@[j]),
            best is Some ==> {
                let b = best->0 as int;
                &&& b < i
                &&& eligible(providers@[b])
                &&& forall|j: int|
                    0 <= j < i && eligible(#[trigger] providers@[j])
                        ==> providers@[b].average_latency <= providers@[j].average_latency
                &&& forall|j: int|
                    0 <= j < b && eligible(#[trigger] providers@[j])
                        ==> providers@[b].average_latency < providers@[j].average_latency
            },
        decreases providers@.len() - i,
    {
        let p = &providers[i];
        if p.healthy && !p.cool_off {
            match best {
                None => {
                    best = Some(i);
                },
                Some(b) => {
                    if p.average_latency < providers[b].average_latency {
                        best = Some(i);
                    }
                },
            }
        }
        i = i + 1;
    }
    best
}

/// The URL of the first eligible provider with the lowest score.
pub fn select_provider(providers: &[ProviderState]) -> (r: Option<String>)
    requires
        all_weights_positive(providers@),
    ensures
        best_score_url(providers@, opt_view(r)),
{
    match best_score_index(providers) {
        Some(i) => {
            let url = providers[i].url.clone();
            assert(url@ == providers@[i as int].url@);
            Some(url)
        },
        None => None,
    }
}

/// The URLs of all healthy providers, in snapshot order.
pub fn get_all_healthy(providers: &[ProviderState]) -> (r: Vec<String>)
    ensures
        urls_view(r@) == healthy_urls(providers@),
{
    let mut out: Vec<String> = Vec::new();
    let mut i: usize = 0;
    while i < providers.len()
        invariant
            i <= providers@.len(),
            urls_view(out@) == healthy_urls(providers@.subrange(0, i as int)),
        decreases providers@.len() - i,
    {
        assert(providers@.subrange(0, i + 1).drop_last() =~= providers@.subrange(0, i as int));
        if providers[i].healthy {
            out.push(providers[i].url.clone());
            assert(urls_view(out@) =~= urls_view(out@.drop_last()).push(out@.last()@));
        }
        i = i + 1;
    }
    assert(providers@.subrange(0, providers@.len() as int) =~= providers@);
    out
}

/// The URL of the first eligible provider with the lowest average latency.
pub fn get_fastest(providers: &[ProviderState]) -> (r: Option<String>)
    ensures
        fastest_url(providers@, opt_view(r)),
{
    match fastest_index(providers) {
        Some(i) => {
            let url = providers[i].url.clone();
            assert(url@ == providers@[i as int].url@);
            Some(url)
        },
        None => None,
    }
}

/// The routing class of a method name (exact, case-sensitive match).
pub fn route_class(method: &str) -> (r: RouteClass)
    ensures
        r == spec_route_class(method@),
{
    if str_equals(method, "getLatestBlockhash") || str_equals(method, "sendTransaction") {
        RouteClass::AllHealthy
    } else if str_equals(method, "getAccountInfo") {
        RouteClass::Fastest
    } else {
        RouteClass::BestScore
    }
}

/// The candidate URLs for a method: every healthy provider for write and
/// chain-tip methods, otherwise at most one eligible provider chosen by the
/// method's policy. Empty when no provider qualifies.
pub fn route(providers: &[ProviderState], method: &str) -> (r: Vec<String>)
    requires
        all_weights_positive(providers@),
    ensures
        match spec_route_class(method@) {
            RouteClass::AllHealthy => urls_view(r@) == healthy_urls(providers@),
            RouteClass::Fastest => r@.len() <= 1 && fastest_url(
                providers@,
                if r@.len() == 0 { None } else { Some(r@[0]@) },
            ),
            RouteClass::BestScore => r@.len() <= 1 && best_score_url(
                providers@,
                if r@.len() == 0 { None } else { Some(r@[0]@) },
            ),
        },
{
    let single = match route_class(method) {
        RouteClass::AllHealthy => {
            return get_all_healthy(providers);
        },
        RouteClass::Fastest => get_fastest(providers),
        RouteClass::BestScore => select_provider(providers),
    };
    match single {
        Some(url) => vec![url],
        None => Vec::new(),
    }
}

} // verus!
