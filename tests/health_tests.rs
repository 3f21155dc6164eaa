use rpc_router::config::Provider;
use rpc_router::health::{mask_url, update_provider, ProbeOutcome};
use rpc_router::provider::{create_provider_map, snapshot, ProviderState};

fn fresh(name: &str, url: &str, weight: u64) -> ProviderState {
    ProviderState::new(&Provider { name: name.to_string(), url: url.to_string(), weight })
}

#[test]
fn new_state_is_healthy_and_unmeasured() {
    let s = fresh("a", "http://a", 2);
    assert_eq!(s.name, "a");
    assert_eq!(s.url, "http://a");
    assert_eq!(s.weight, 2);
    assert!(s.healthy);
    assert!(!s.cool_off);
    assert_eq!(s.average_latency, 0);
    assert_eq!(s.error_count, 0);
}

#[test]
fn three_failures_enter_cool_off_and_one_success_clears() {
    let mut s = fresh("a", "http://a", 1);
    s.record_failure();
    assert!(s.healthy && !s.cool_off);
    assert_eq!(s.error_count, 1);
    s.record_failure();
    assert!(s.healthy && !s.cool_off);
    assert_eq!(s.error_count, 2);
    s.record_failure();
    assert!(!s.healthy);
    assert!(s.cool_off);
    assert_eq!(s.error_count, 3);
    s.record_failure();
    assert!(!s.healthy && s.cool_off);
    assert_eq!(s.error_count, 4);
    s.record_success(40);
    assert!(s.healthy);
    assert!(!s.cool_off);
    assert_eq!(s.error_count, 0);
}

#[test]
fn error_count_saturates_at_its_largest_value() {
    let mut s = fresh("a", "http://a", 1);
    s.error_count = i64::MAX;
    s.record_failure();
    assert_eq!(s.error_count, i64::MAX);
    assert!(!s.healthy && s.cool_off);
}

#[test]
fn first_sample_is_taken_exactly() {
    let mut s = fresh("a", "http://a", 1);
    s.record_success(123);
    assert_eq!(s.average_latency, 123);
}

#[test]
fn moving_average_weighs_old_four_to_one() {
    let mut s = fresh("a", "http://a", 1);
    s.record_success(100);
    s.record_success(50);
    assert_eq!(s.average_latency, 90);
    s.record_success(0);
    assert_eq!(s.average_latency, 72);
}

#[test]
fn repeated_sample_is_a_fixed_point() {
    let mut s = fresh("a", "http://a", 1);
    for _ in 0..5 {
        s.record_success(77);
        assert_eq!(s.average_latency, 77);
    }
}

#[test]
fn repeated_lower_sample_converges() {
    let mut s = fresh("a", "http://a", 1);
    s.record_success(1000);
    let mut prev = s.average_latency;
    for _ in 0..100 {
        s.record_success(10);
        assert!(s.average_latency >= 10);
        assert!(s.average_latency <= prev);
        prev = s.average_latency;
    }
    assert_eq!(s.average_latency, 10);
}

#[test]
fn moving_average_at_the_top_of_the_range() {
    let mut s = fresh("a", "http://a", 1);
    s.record_success(u128::MAX);
    s.record_success(u128::MAX);
    assert_eq!(s.average_latency, u128::MAX);
    s.record_success(u128::MAX - 4);
    assert_eq!(s.average_latency, u128::MAX - 1);
}

#[test]
fn observed_matches_the_recorders() {
    let s = fresh("a", "http://a", 1);
    let s = s.observed(ProbeOutcome::Healthy { latency_ms: 30 });
    assert_eq!(s.average_latency, 30);
    let s = s.observed(ProbeOutcome::Unhealthy);
    assert_eq!(s.error_count, 1);
    assert!(s.healthy);
}

#[test]
fn score_divides_latency_by_weight() {
    let mut s = fresh("a", "http://a", 4);
    assert_eq!(s.score(), u128::MAX);
    s.average_latency = 100;
    assert_eq!(s.score(), 25);
    s.average_latency = 103;
    assert_eq!(s.score(), 25);
}

#[test]
fn score_grows_with_latency_and_shrinks_with_weight() {
    let mut s = fresh("a", "http://a", 3);
    s.average_latency = 30;
    let low = s.score();
    s.average_latency = 60;
    assert!(s.score() >= low);
    let w3 = s.score();
    s.weight = 6;
    assert!(s.score() <= w3);
    assert_eq!(s.score(), 10);
}

#[test]
fn masks_api_key_query_value() {
    assert_eq!(
        mask_url("https://rpc.example.com/?foo=1&api-key=SECRET"),
        "https://rpc.example.com/?foo=1&api-key=***"
    );
}

#[test]
fn masks_provider_path_credential() {
    assert_eq!(
        mask_url("https://name.solana-mainnet.quiknode.pro/abc123token/"),
        "https://name.solana-mainnet.quiknode.pro/***/"
    );
}

#[test]
fn leaves_plain_url_alone() {
    assert_eq!(mask_url("https://api.mainnet-beta.solana.com"), "https://api.mainnet-beta.solana.com");
    assert_eq!(mask_url(""), "");
}

#[test]
fn registry_starts_with_initial_states_and_takes_updates() {
    let providers = vec![
        Provider { name: "a".to_string(), url: "http://a".to_string(), weight: 1 },
        Provider { name: "b".to_string(), url: "http://b".to_string(), weight: 2 },
    ];
    let mut map = create_provider_map(&providers);
    let mut snap = snapshot(&map);
    snap.sort_by(|x, y| x.name.cmp(&y.name));
    assert_eq!(snap.len(), 2);
    assert_eq!(snap[0].name, "a");
    assert_eq!(snap[1].weight, 2);
    assert!(snap.iter().all(|p| p.healthy && !p.cool_off && p.average_latency == 0 && p.error_count == 0));

    update_provider(&mut map, &"a".to_string(), ProbeOutcome::Healthy { latency_ms: 15 });
    for _ in 0..3 {
        update_provider(&mut map, &"b".to_string(), ProbeOutcome::Unhealthy);
    }
    update_provider(&mut map, &"missing".to_string(), ProbeOutcome::Unhealthy);
    let mut snap = snapshot(&map);
    snap.sort_by(|x, y| x.name.cmp(&y.name));
    assert_eq!(snap.len(), 2);
    assert_eq!(snap[0].average_latency, 15);
    assert_eq!(snap[0].url, "http://a");
    assert_eq!(snap[1].url, "http://b");
    assert!(!snap[1].healthy && snap[1].cool_off);
    assert_eq!(snap[1].error_count, 3);
}

#[test]
fn repeated_higher_sample_rises_but_may_stop_short() {
    let mut s = fresh("a", "http://a", 1);
    s.record_success(9);
    for _ in 0..10 {
        s.record_success(10);
        assert_eq!(s.average_latency, 9);
    }
    let mut t = fresh("b", "http://b", 1);
    t.record_success(10);
    t.record_success(100);
    assert_eq!(t.average_latency, 28);
}
