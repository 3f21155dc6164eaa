use rpc_router::cli::best_benchmark;
use rpc_router::config::{Config, Provider, Settings};
use rpc_router::dispatch::{
    after_attempt, broadcast_outcome, broadcast_winner, pick_by_slot, race_step, reply_usable, request_method, run_race,
    run_sequence, served_by, start_failover, start_race, start_sequence, DispatchError, Progress, RaceProgress,
};
use rpc_router::provider::ProviderState;

fn ok_body(slot: Option<u64>) -> Option<Vec<u8>> {
    let text = match slot {
        Some(s) => format!("{{\"jsonrpc\":\"2.0\",\"result\":{{\"context\":{{\"slot\":{}}},\"value\":1}},\"id\":1}}", s),
        None => "{\"jsonrpc\":\"2.0\",\"result\":\"ok\",\"id\":1}".to_string(),
    };
    Some(text.into_bytes())
}

fn garbage() -> Option<Vec<u8>> {
    Some(b"<html>bad gateway".to_vec())
}

#[test]
fn retry_falls_back_to_second_candidate() {
    let replies = vec![None, ok_body(None)];
    assert_eq!(run_sequence(&replies), Progress::Served(1));
    let ps = vec![
        ProviderState { name: "X".to_string(), url: "http://x".to_string(), weight: 1, healthy: true,
            average_latency: 5, error_count: 0, cool_off: false },
        ProviderState { name: "Y".to_string(), url: "http://y".to_string(), weight: 1, healthy: true,
            average_latency: 9, error_count: 0, cool_off: false },
    ];
    assert_eq!(served_by(&ps, &"http://y".to_string()), "Y");
}

#[test]
fn retry_reports_all_failed() {
    assert_eq!(run_sequence(&[None, garbage()]), Progress::Failed(DispatchError::AllProvidersFailed));
    assert_eq!(run_sequence(&[]), Progress::Failed(DispatchError::NoHealthyProviders));
}

#[test]
fn sequence_steps() {
    assert_eq!(start_sequence(0), Progress::Failed(DispatchError::NoHealthyProviders));
    assert_eq!(start_sequence(2), Progress::Attempt(0));
    assert_eq!(start_failover(0), Progress::Failed(DispatchError::AllProvidersFailed));
    assert_eq!(start_failover(3), Progress::Attempt(0));
    assert_eq!(after_attempt(2, 0, &None), Progress::Attempt(1));
    assert_eq!(after_attempt(2, 1, &garbage()), Progress::Failed(DispatchError::AllProvidersFailed));
    assert_eq!(after_attempt(2, 1, &ok_body(Some(3))), Progress::Served(1));
}

#[test]
fn attribution_falls_back_to_url() {
    assert_eq!(served_by(&[], &"http://z".to_string()), "http://z");
}

#[test]
fn usable_needs_success_and_json() {
    assert!(reply_usable(&ok_body(None)));
    assert!(!reply_usable(&garbage()));
    assert!(!reply_usable(&None));
}

#[test]
fn broadcast_prefers_highest_slot() {
    assert_eq!(pick_by_slot(&[Some(10), Some(20)]), Some(1));
    assert_eq!(broadcast_winner(&[ok_body(Some(10)), ok_body(Some(20))]), Some(1));
}

#[test]
fn broadcast_takes_zero_slot_at_once() {
    assert_eq!(pick_by_slot(&[Some(0), Some(5)]), Some(0));
    assert_eq!(pick_by_slot(&[Some(7), Some(0), Some(9)]), Some(1));
    assert_eq!(broadcast_winner(&[ok_body(None), ok_body(Some(5))]), Some(0));
}

#[test]
fn broadcast_ties_and_failures() {
    assert_eq!(pick_by_slot(&[None, Some(4), Some(4)]), Some(1));
    assert_eq!(pick_by_slot(&[None, None]), None);
    assert_eq!(pick_by_slot(&[]), None);
    assert_eq!(broadcast_winner(&[None, garbage()]), None);
    assert_eq!(broadcast_winner(&[garbage(), ok_body(Some(8))]), Some(1));
}

#[test]
fn race_returns_the_only_success_wherever_it_is() {
    for k in 0..3 {
        let mut replies = vec![None, garbage(), None];
        replies[k] = ok_body(Some(1));
        assert_eq!(run_race(&replies), Ok(k));
    }
    assert_eq!(run_race(&[None, None, garbage()]), Err(DispatchError::AllProvidersFailed));
}

#[test]
fn race_steps() {
    assert_eq!(start_race(0), RaceProgress::Failed(DispatchError::NoHealthyProviders));
    assert_eq!(run_race(&[]), Err(DispatchError::NoHealthyProviders));
    assert_eq!(start_race(3), RaceProgress::Waiting(3));
    assert_eq!(race_step(3, &None), RaceProgress::Waiting(2));
    assert_eq!(race_step(1, &garbage()), RaceProgress::Failed(DispatchError::AllProvidersFailed));
    assert_eq!(race_step(2, &ok_body(None)), RaceProgress::Won);
}

#[test]
fn error_messages_differ() {
    assert_eq!(DispatchError::NoHealthyProviders.message(), "no healthy providers");
    assert_eq!(DispatchError::AllProvidersFailed.message(), "all providers failed");
}

#[test]
fn method_is_read_from_the_request() {
    let body = br#"{"jsonrpc":"2.0","method":"getAccountInfo","params":[],"id":1}"#;
    assert_eq!(request_method(body), "getAccountInfo");
    assert_eq!(request_method(b"not json"), "");
    assert_eq!(request_method(br#"{"method":5}"#), "");
}

#[test]
fn benchmark_picks_first_fastest_healthy() {
    assert_eq!(best_benchmark(&[None, Some(30), Some(12), Some(12)]), Some(2));
    assert_eq!(best_benchmark(&[None, None]), None);
}

#[test]
fn config_rejects_zero_weight() {
    let mut c = Config {
        settings: Settings { port: 8080 },
        providers: vec![Provider { name: "a".to_string(), url: "http://a".to_string(), weight: 1 }],
    };
    assert!(c.has_positive_weights());
    c.providers.push(Provider { name: "b".to_string(), url: "http://b".to_string(), weight: 0 });
    assert!(!c.has_positive_weights());
}

#[test]
fn broadcast_outcome_tells_empty_from_all_failed() {
    assert_eq!(broadcast_outcome(&[]), Err(DispatchError::NoHealthyProviders));
    assert_eq!(broadcast_outcome(&[None, garbage()]), Err(DispatchError::AllProvidersFailed));
    assert_eq!(broadcast_outcome(&[ok_body(Some(10)), ok_body(Some(20))]), Ok(1));
}
