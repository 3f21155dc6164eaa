use rpc_router::provider::{provider_stats, weights_positive, ProviderState};
use rpc_router::router::{get_all_healthy, get_fastest, route, route_class, select_provider, RouteClass};
use rpc_router::dispatch::failover_order;

fn state(name: &str, healthy: bool, latency: u128, weight: u64) -> ProviderState {
    ProviderState {
        name: name.to_string(),
        url: format!("http://{}", name),
        weight,
        healthy,
        average_latency: latency,
        error_count: if healthy { 0 } else { 3 },
        cool_off: !healthy,
    }
}

fn abc() -> Vec<ProviderState> {
    vec![state("A", true, 50, 1), state("B", true, 20, 1), state("C", false, 0, 1)]
}

#[test]
fn latency_sensitive_method_picks_fastest() {
    assert_eq!(route(&abc(), "getAccountInfo"), vec!["http://B".to_string()]);
}

#[test]
fn default_method_picks_best_score() {
    assert_eq!(route(&abc(), "getBalance"), vec!["http://B".to_string()]);
}

#[test]
fn broadcast_method_takes_all_healthy() {
    let mut urls = route(&abc(), "sendTransaction");
    urls.sort();
    assert_eq!(urls, vec!["http://A".to_string(), "http://B".to_string()]);
    let mut urls = route(&abc(), "getLatestBlockhash");
    urls.sort();
    assert_eq!(urls, vec!["http://A".to_string(), "http://B".to_string()]);
}

#[test]
fn method_names_match_exactly() {
    assert_eq!(route_class("getAccountInfo"), RouteClass::Fastest);
    assert_eq!(route_class("getaccountinfo"), RouteClass::BestScore);
    assert_eq!(route_class("sendTransaction"), RouteClass::AllHealthy);
    assert_eq!(route_class("getLatestBlockhash"), RouteClass::AllHealthy);
    assert_eq!(route_class(""), RouteClass::BestScore);
}

#[test]
fn empty_when_no_provider_qualifies() {
    let ps = vec![state("C", false, 10, 1)];
    assert!(route(&ps, "getAccountInfo").is_empty());
    assert!(route(&ps, "getBalance").is_empty());
    assert!(route(&ps, "sendTransaction").is_empty());
    assert!(route(&[], "getBalance").is_empty());
}

#[test]
fn score_uses_weight_and_ties_go_to_the_first() {
    let ps = vec![state("A", true, 100, 1), state("B", true, 100, 4), state("D", true, 50, 2)];
    assert_eq!(select_provider(&ps), Some("http://B".to_string()));
    let ps = vec![state("A", true, 40, 2), state("B", true, 20, 1)];
    assert_eq!(select_provider(&ps), Some("http://A".to_string()));
    assert_eq!(get_fastest(&ps), Some("http://B".to_string()));
}

#[test]
fn unmeasured_provider_sorts_last() {
    let ps = vec![state("U", true, 0, 100), state("M", true, 5000, 1)];
    assert_eq!(select_provider(&ps), Some("http://M".to_string()));
    assert_eq!(failover_order(&ps), vec![1, 0]);
}

#[test]
fn cool_off_excludes_single_target_but_not_broadcast() {
    let mut b = state("B", true, 10, 1);
    b.cool_off = true;
    let ps = vec![state("A", true, 50, 1), b];
    assert_eq!(get_fastest(&ps), Some("http://A".to_string()));
    assert_eq!(select_provider(&ps), Some("http://A".to_string()));
    assert_eq!(get_all_healthy(&ps), vec!["http://A".to_string(), "http://B".to_string()]);
}

#[test]
fn failover_orders_by_score_then_position() {
    let ps = vec![
        state("A", true, 90, 1),
        state("B", true, 30, 1),
        state("C", false, 10, 1),
        state("D", true, 60, 2),
        state("E", true, 0, 1),
    ];
    assert_eq!(failover_order(&ps), vec![1, 3, 0, 4]);
    assert!(failover_order(&[]).is_empty());
}

#[test]
fn stats_report_every_provider() {
    let ps = abc();
    assert!(weights_positive(&ps));
    let stats = provider_stats(&ps);
    assert_eq!(stats.len(), 3);
    assert_eq!(stats[0].name, "A");
    assert_eq!(stats[0].score, 50);
    assert_eq!(stats[2].score, u128::MAX);
    assert_eq!(stats[2].health_score(), 0);
    assert_eq!(stats[0].health_score(), 50);
    assert!(!stats[2].healthy && stats[2].cool_off);
    assert_eq!(stats[2].error_count, 3);
    assert!(!weights_positive(&[state("Z", true, 1, 0)]));
}
