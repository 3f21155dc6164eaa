use std::sync::Arc;

use dashmap::DashMap;
use vstd::prelude::*;

use crate::config::Provider;

verus! {

/// The live health record of one provider.
#[derive(Debug, Clone)]
pub struct ProviderState {
    pub name: String,
    pub url: String,
    pub weight: u64,
    pub healthy: bool,
    /// Smoothed latency in milliseconds; zero means never measured.
    pub average_latency: u128,
    /// Consecutive failed probes since the last success.
    pub error_count: i64,
    pub cool_off: bool,
}

/// Latency normalised by weight; an unmeasured provider gets the worst score.
pub open spec fn score_of(average_latency: u128, weight: u64) -> u128 {
    if average_latency == 0 {
        u128::MAX
    } else {
        (average_latency / (weight as u128)) as u128
    }
}

/// A provider may take traffic from the single-target policies.
pub open spec fn eligible(p: ProviderState) -> bool {
    p.healthy && !p.cool_off
}

impl ProviderState {
    pub open spec fn spec_score(&self) -> u128 {
        score_of(self.average_latency, self.weight)
    }

    /// A positive weight, a non-negative error count, and cool-off (out of
    /// service) whenever the count has reached the threshold.
    pub open spec fn wf(&self) -> bool {
        &&& self.weight > 0
        &&& self.error_count >= 0
        &&& self.error_count >= 3 ==> !self.healthy && self.cool_off
    }

    /// The initial state of a configured provider: healthy, unmeasured, no errors.
    pub fn new(provider: &Provider) -> (r: Self)
        ensures
            r.name@ == provider.name@,
            r.url@ == provider.url@,
            r.weight == provider.weight,
            r.healthy,
            r.average_latency == 0,
            r.error_count == 0,
            !r.cool_off,
            provider.weight > 0 ==> r.wf(),
    {
        ProviderState {
            name: provider.name.clone(),
            url: provider.url.clone(),
            weight: provider.weight,
            healthy: true,
            average_latency: 0,
            error_count: 0,
            cool_off: false,
        }
    }

    /// Latency divided by weight, or the largest value when unmeasured.
    pub fn score(&self) -> (r: u128)
        requires
            self.weight > 0,
        ensures
            r == self.spec_score(),
    {
        if self.average_latency == 0 {
            return u128::MAX;
        }
        self.average_latency / self.weight as u128
    }
}

/// For a fixed weight, a measured provider's score does not decrease as its
/// latency grows.
pub proof fn lemma_score_monotone_in_latency(lower: u128, higher: u128, weight: u64)
    requires
        0 < lower <= higher,
        weight > 0,
    ensures
        score_of(lower, weight) <= score_of(higher, weight),
{
    let w = weight as int;
    assert((lower as int) / w <= (higher as int) / w) by (nonlinear_arith)
        requires
            0 < lower <= higher,
            w > 0,
    ;
}

/// For a fixed latency, the score does not increase as the weight grows.
pub proof fn lemma_score_antitone_in_weight(latency: u128, lighter: u64, heavier: u64)
    requires
        0 < lighter <= heavier,
    ensures
        score_of(latency, heavier) <= score_of(latency, lighter),
{
    if latency > 0 {
        let l = latency as int;
        assert(l / (heavier as int) <= l / (lighter as int)) by (nonlinear_arith)
            requires
                l > 0,
                0 < lighter <= heavier,
        ;
    }
}

/// An unmeasured provider never scores better than any other provider,
/// whatever the weights.
pub proof fn lemma_unmeasured_scores_last(weight: u64, other_latency: u128, other_weight: u64)
    ensures
        score_of(0, weight) >= score_of(other_latency, other_weight),
{
}

/// The registry shared between the prober and the request handlers:
/// provider name to its live state.
pub type ProviderMap = Arc<DashMap<String, ProviderState>>;

#[verifier::external_type_specification]
#[verifier::external_body]
#[verifier::reject_recursive_types(K)]
#[verifier::reject_recursive_types(V)]
#[verifier::reject_recursive_types(S)]
pub struct ExDashMap<K, V, S>(DashMap<K, V, S>);

/// What a registry holds, by provider name.
pub uninterp spec fn registry_entries(m: DashMap<String, ProviderState>) -> Map<Seq<char>, ProviderState>;

/// Relies on DashMap::new: a new map holds no entry.
#[verifier::external_body]
fn empty_registry() -> (r: DashMap<String, ProviderState>)
    ensures
        registry_entries(r).dom() == Set::<Seq<char>>::empty(),
{
    DashMap::new()
}

/// Relies on DashMap::insert: afterwards the key maps to the value and every
/// other key keeps its entry.
#[verifier::external_body]
fn registry_insert(m: &mut DashMap<String, ProviderState>, key: String, value: ProviderState)
    ensures
        registry_entries(*final(m)) == registry_entries(*old(m)).insert(key@, value),
{
    m.insert(key, value);
}

/// Relies on DashMap::iter: visits every entry once, in an order that follows
/// the hasher; yields the keys and, at the same positions, copies of their
/// states.
#[verifier::external_body]
fn registry_pairs(m: &DashMap<String, ProviderState>) -> (r: (Vec<String>, Vec<ProviderState>))
    ensures
        r.0@.len() == registry_entries(*m).dom().len(),
        r.1@.len() == r.0@.len(),
        forall|i: int| 0 <= i < r.0@.len() ==> registry_entries(*m).contains_key(#[trigger] r.0@[i]@),
        forall|i: int, j: int| 0 <= i < j < r.0@.len() ==> #[trigger] r.0@[i]@ != #[trigger] r.0@[j]@,
        forall|i: int| 0 <= i < r.1@.len() ==> #[trigger] r.1@[i] == registry_entries(*m)[r.0@[i]@],
{
    m.iter().map(|e| (e.key().clone(), e.value().clone())).unzip()
}

/// `s` is the initial state of the provider at position `i` of `ps`, the last
/// one there named `key`.
pub open spec fn initial_entry(ps: Seq<Provider>, key: Seq<char>, s: ProviderState, i: int) -> bool {
    &&& 0 <= i < ps.len()
    &&& ps[i].name@ == key
    &&& forall|j: int| i < j < ps.len() ==> (#[trigger] ps[j]).name@ != key
    &&& s.name@ == key
    &&& s.url@ == ps[i].url@
    &&& s.weight == ps[i].weight
    &&& s.healthy && !s.cool_off
    &&& s.average_latency == 0 && s.error_count == 0
}

/// Builds the shared registry with the initial state of every provider.
pub fn create_provider_map(providers: &[Provider]) -> (r: DashMap<String, ProviderState>)
    ensures
        registry_entries(r).dom() == providers@.map_values(|p: Provider| p.name@).to_set(),
        forall|k: Seq<char>| #[trigger]
            registry_entries(r).contains_key(k) ==> exists|i: int|
                initial_entry(providers@, k, registry_entries(r)[k], i),
{
    let mut map = empty_registry();
    let mut i: usize = 0;
    while i < providers.len()
        invariant
            i <= providers@.len(),
            registry_entries(map).dom() == providers@.subrange(0, i as int).map_values(
                |p: Provider| p.name@,
            ).to_set(),
            forall|k: Seq<char>| #[trigger]
                registry_entries(map).contains_key(k) ==> exists|m: int|
                    initial_entry(providers@.subrange(0, i as int), k, registry_entries(map)[k], m),
        decreases providers@.len() - i,
    {
        let state = ProviderState::new(&providers[i]);
        let ghost before = registry_entries(map);
        registry_insert(&mut map, providers[i].name.clone(), state);
        proof {
            let pre = providers@.subrange(0, i as int);
            let post = providers@.subrange(0, i + 1);
            assert forall|k: Seq<char>| #[trigger]
                registry_entries(map).contains_key(k) implies exists|m: int|
                    initial_entry(post, k, registry_entries(map)[k], m) by {
                if k == providers@[i as int].name@ {
                    assert(initial_entry(post, k, registry_entries(map)[k], i as int));
                } else {
                    assert(before.contains_key(k));
                    let m = choose|m: int| initial_entry(pre, k, before[k], m);
                    assert(initial_entry(post, k, registry_entries(map)[k], m));
                }
            }
            let names_before = providers@.subrange(0, i as int).map_values(|p: Provider| p.name@);
            let names_after = providers@.subrange(0, i + 1).map_values(|p: Provider| p.name@);
            assert(names_after =~= names_before.push(providers@[i as int].name@));
            assert(names_after.to_set() =~= names_before.to_set().insert(providers@[i as int].name@))
                by {
                names_before.lemma_push_to_set_commute(providers@[i as int].name@);
            }
        }
        i = i + 1;
    }
    assert(providers@.subrange(0, providers@.len() as int) =~= providers@);
    map
}

/// A copy of every provider's state: the registry's state under each of its
/// keys, each key once, in an order of the map's own.
pub fn snapshot(providers: &DashMap<String, ProviderState>) -> (r: Vec<ProviderState>)
    ensures
        r@.len() == registry_entries(*providers).dom().len(),
        exists|keys: Seq<Seq<char>>|
            {
                &&& keys.len() == r@.len()
                &&& #[trigger] keys.no_duplicates()
                &&& forall|i: int|
                    0 <= i < keys.len() ==> registry_entries(*providers).contains_key(
                        #[trigger] keys[i],
                    ) && r@[i] == registry_entries(*providers)[keys[i]]
            },
{
    let (names, states) = registry_pairs(providers);
    let ghost keys = names@.map_values(|k: String| k@);
    proof {
        assert(keys.no_duplicates()) by {
            assert forall|a: int, b: int| 0 <= a < keys.len() && 0 <= b < keys.len() && a != b
                implies keys[a] != keys[b] by {
                if a < b {
                    assert(names@[a]@ != names@[b]@);
                } else {
                    assert(names@[b]@ != names@[a]@);
                }
            }
        }
        assert forall|i: int| 0 <= i < keys.len() implies registry_entries(*providers).contains_key(
            #[trigger] keys[i],
        ) && states@[i] == registry_entries(*providers)[keys[i]] by {
            assert(keys[i] == names@[i]@);
            assert(states@[i] == registry_entries(*providers)[names@[i]@]);
        }
    }
    states
}

/// One provider's line in the stats report.
pub struct ProviderStats {
    pub name: String,
    pub healthy: bool,
    pub average_latency: u128,
    pub error_count: i64,
    pub cool_off: bool,
    pub weight: u64,
    pub score: u128,
}

impl ProviderStats {
    /// The score shown in the health summary: zero for an unmeasured provider.
    pub fn health_score(&self) -> (r: u128)
        ensures
            r == if self.average_latency == 0 {
                0
            } else {
                self.score
            },
    {
        if self.average_latency == 0 {
            0
        } else {
            self.score
        }
    }
}

/// Every state in a snapshot has a positive weight.
pub open spec fn all_weights_positive(ps: Seq<ProviderState>) -> bool {
    forall|i: int| 0 <= i < ps.len() ==> #[trigger] ps[i].weight > 0
}

/// Whether every state in the snapshot has a positive weight.
pub fn weights_positive(providers: &[ProviderState]) -> (r: bool)
    ensures
        r == all_weights_positive(providers@),
{
    let mut i: usize = 0;
    while i < providers.len()
        invariant
            i <= providers@.len(),
            forall|k: int| 0 <= k < i ==> #[trigger] providers@[k].weight > 0,
        decreases providers@.len() - i,
    {
        if providers[i].weight == 0 {
            return false;
        }
        i = i + 1;
    }
    true
}

/// The stats report of a snapshot, one line per provider in snapshot order.
pub fn provider_stats(providers: &[ProviderState]) -> (r: Vec<ProviderStats>)
    requires
        all_weights_positive(providers@),
    ensures
        r@.len() == providers@.len(),
        forall|i: int|
            0 <= i < r@.len() ==> {
                let p = providers@[i];
                let s = #[trigger] r@[i];
                &&& s.name@ == p.name@
                &&& s.healthy == p.healthy
                &&& s.average_latency == p.average_latency
                &&& s.error_count == p.error_count
                &&& s.cool_off == p.cool_off
                &&& s.weight == p.weight
                &&& s.score == p.spec_score()
            },
{
    let mut out: Vec<ProviderStats> = Vec::new();
    let mut i: usize = 0;
    while i < providers.len()
        invariant
            i <= providers@.len(),
            all_weights_positive(providers@),
            out@.len() == i,
            forall|k: int|
                0 <= k < i ==> {
                    let p = providers@[k];
                    let s = #[trigger] out@[k];
                    &&& s.name@ == p.name@
                    &&& s.healthy == p.healthy
                    &&& s.average_latency == p.average_latency
                    &&& s.error_count == p.error_count
                    &&& s.cool_off == p.cool_off
                    &&& s.weight == p.weight
                    &&& s.score == p.spec_score()
                },
        decreases providers@.len() - i,
    {
        let p = &providers[i];
        out.push(
            ProviderStats {
                name: p.name.clone(),
                healthy: p.healthy,
                average_latency: p.average_latency,
                error_count: p.error_count,
                cool_off: p.cool_off,
                weight: p.weight,
                score: p.score(),
            },
        );
        i = i + 1;
    }
    out
}

} // verus!
