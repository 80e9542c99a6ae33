use apimimic_cli::ping::{
    status_is_success, EndpointConfig, EndpointManager, PingOutcome, PingResponse, FRESH_MILLIS,
    PING_PERIOD_SECS,
};

fn entry(path: &str, time: u64, proxied: bool) -> (String, EndpointConfig) {
    (path.to_string(), EndpointConfig { time, proxied })
}

#[test]
fn new_cache_finds_nothing() {
    let cache = EndpointManager::new();
    assert_eq!(cache.get_endpoint_info("orders/5", 0), None);
    assert_eq!(cache.get_endpoint_info("", u64::MAX), None);
}

#[test]
fn the_fresh_span_and_the_period_are_twenty_and_ten_seconds() {
    assert_eq!(FRESH_MILLIS, 20_000);
    assert_eq!(PING_PERIOD_SECS, 10);
}

#[test]
fn fresh_entry_is_found_until_twenty_seconds_inclusive() {
    let mut cache = EndpointManager::new();
    cache.replace(vec![entry("orders/5", 250, true)], 1_000);
    assert_eq!(cache.get_endpoint_info("orders/5", 1_000), Some((250, true)));
    assert_eq!(cache.get_endpoint_info("orders/5", 12_345), Some((250, true)));
    assert_eq!(cache.get_endpoint_info("orders/5", 21_000), Some((250, true)));
}

#[test]
fn entry_older_than_twenty_seconds_reads_as_absent() {
    let mut cache = EndpointManager::new();
    cache.replace(vec![entry("orders/5", 250, true)], 1_000);
    assert_eq!(cache.get_endpoint_info("orders/5", 21_001), None);
    assert_eq!(cache.get_endpoint_info("orders/5", u64::MAX), None);
    assert_eq!(
        cache.get_endpoint_info("orders/5", 21_001),
        EndpointManager::new().get_endpoint_info("orders/5", 21_001)
    );
}

#[test]
fn clock_that_reads_before_the_stamp_finds_the_entry() {
    let mut cache = EndpointManager::new();
    cache.replace(vec![entry("a", 7, false)], 5_000);
    assert_eq!(cache.get_endpoint_info("a", 0), Some((7, false)));
}

#[test]
fn lookup_is_by_the_exact_path() {
    let mut cache = EndpointManager::new();
    cache.replace(vec![entry("orders/5", 250, true)], 0);
    assert_eq!(cache.get_endpoint_info("orders/6", 0), None);
    assert_eq!(cache.get_endpoint_info("/orders/5", 0), None);
    assert_eq!(cache.get_endpoint_info("Orders/5", 0), None);
}

#[test]
fn replace_discards_previous_entries() {
    let mut cache = EndpointManager::new();
    cache.replace(vec![entry("old", 1, true), entry("kept", 2, false)], 0);
    cache.replace(vec![entry("kept", 3, true), entry("new", 4, false)], 100);
    assert_eq!(cache.get_endpoint_info("old", 100), None);
    assert_eq!(cache.get_endpoint_info("kept", 100), Some((3, true)));
    assert_eq!(cache.get_endpoint_info("new", 100), Some((4, false)));
}

#[test]
fn replace_stamps_every_entry_with_the_given_time() {
    let mut cache = EndpointManager::new();
    cache.replace(vec![entry("a", 1, true), entry("b", 2, true)], 50_000);
    assert_eq!(cache.get_endpoint_info("a", 70_000), Some((1, true)));
    assert_eq!(cache.get_endpoint_info("b", 70_000), Some((2, true)));
    assert_eq!(cache.get_endpoint_info("a", 70_001), None);
    assert_eq!(cache.get_endpoint_info("b", 70_001), None);
}

#[test]
fn replace_with_nothing_empties_the_cache() {
    let mut cache = EndpointManager::new();
    cache.replace(vec![entry("a", 1, true)], 0);
    cache.replace(Vec::new(), 1);
    assert_eq!(cache.get_endpoint_info("a", 1), None);
}

#[test]
fn later_entry_of_a_path_stands() {
    let mut cache = EndpointManager::new();
    cache.replace(vec![entry("a", 1, true), entry("b", 9, true), entry("a", 2, false)], 0);
    assert_eq!(cache.get_endpoint_info("a", 0), Some((2, false)));
    assert_eq!(cache.get_endpoint_info("b", 0), Some((9, true)));
}

#[test]
fn status_of_success_is_two_hundred_to_two_ninety_nine() {
    assert!(!status_is_success(0));
    assert!(!status_is_success(199));
    assert!(status_is_success(200));
    assert!(status_is_success(204));
    assert!(status_is_success(299));
    assert!(!status_is_success(300));
    assert!(!status_is_success(404));
    assert!(!status_is_success(u16::MAX));
}

#[test]
fn heartbeat_out_of_reach_keeps_the_cache() {
    let mut cache = EndpointManager::new();
    cache.replace(vec![entry("orders/5", 250, true)], 0);
    let refreshed = cache.apply_ping(PingOutcome::Unreachable("connection refused".to_string()), 5_000);
    assert!(!refreshed);
    assert_eq!(cache.get_endpoint_info("orders/5", 5_000), Some((250, true)));
    assert_eq!(cache.get_endpoint_info("orders/5", 20_000), Some((250, true)));
    assert_eq!(cache.get_endpoint_info("orders/5", 20_001), None);
}

#[test]
fn heartbeat_refused_keeps_the_cache_even_with_a_body() {
    let mut cache = EndpointManager::new();
    cache.replace(vec![entry("orders/5", 250, true)], 0);
    let body = PingResponse { message: "no".to_string(), endpoints: vec![entry("x", 1, false)] };
    let refreshed =
        cache.apply_ping(PingOutcome::Answered { status: 500, body: Some(body) }, 5_000);
    assert!(!refreshed);
    assert_eq!(cache.get_endpoint_info("orders/5", 5_000), Some((250, true)));
    assert_eq!(cache.get_endpoint_info("x", 5_000), None);
    assert_eq!(cache.get_endpoint_info("orders/5", 20_001), None);
}

#[test]
fn heartbeat_with_unreadable_body_keeps_the_cache() {
    let mut cache = EndpointManager::new();
    cache.replace(vec![entry("orders/5", 250, true)], 0);
    let refreshed = cache.apply_ping(PingOutcome::Answered { status: 200, body: None }, 5_000);
    assert!(!refreshed);
    assert_eq!(cache.get_endpoint_info("orders/5", 5_000), Some((250, true)));
}

#[test]
fn heartbeat_success_replaces_the_cache() {
    let mut cache = EndpointManager::new();
    cache.replace(vec![entry("orders/5", 250, true), entry("gone", 1, true)], 0);
    let body = PingResponse {
        message: "ok".to_string(),
        endpoints: vec![entry("orders/5", 300, false), entry("users", 0, true)],
    };
    let refreshed =
        cache.apply_ping(PingOutcome::Answered { status: 200, body: Some(body) }, 5_000);
    assert!(refreshed);
    assert_eq!(cache.get_endpoint_info("gone", 5_000), None);
    assert_eq!(cache.get_endpoint_info("orders/5", 5_000), Some((300, false)));
    assert_eq!(cache.get_endpoint_info("users", 25_000), Some((0, true)));
    assert_eq!(cache.get_endpoint_info("users", 25_001), None);
}

#[test]
fn heartbeat_success_with_no_endpoints_empties_the_cache() {
    let mut cache = EndpointManager::new();
    cache.replace(vec![entry("orders/5", 250, true)], 0);
    let body = PingResponse { message: String::new(), endpoints: Vec::new() };
    assert!(cache.apply_ping(PingOutcome::Answered { status: 299, body: Some(body) }, 1));
    assert_eq!(cache.get_endpoint_info("orders/5", 1), None);
}
