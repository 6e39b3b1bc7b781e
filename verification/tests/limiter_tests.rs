use klamer_dev::limiter::RateLimiter;

#[test]
fn burst_admits_then_rejects() {
    let mut lim = RateLimiter::new(3, 200, 60_000);
    let client = 42u64;
    assert!(lim.check_admit(client, 1_000));
    assert!(lim.check_admit(client, 1_001));
    assert!(lim.check_admit(client, 1_002));
    assert!(!lim.check_admit(client, 1_003));
    let bucket = lim.bucket_of(client).unwrap();
    assert_eq!(bucket.tokens, 0);
}

#[test]
fn tokens_never_exceed_burst() {
    let mut lim = RateLimiter::new(2, 100, 60_000);
    let client = 7u64;
    assert!(lim.check_admit(client, 0));
    // A long quiet stretch earns many refill intervals, but the
    // count stays capped at the burst size.
    assert!(lim.check_admit(client, 1_000_000));
    let bucket = lim.bucket_of(client).unwrap();
    assert!(bucket.tokens <= 2);
    assert_eq!(bucket.tokens, 1);
}

#[test]
fn one_token_returns_per_refill_interval() {
    let mut lim = RateLimiter::new(1, 200, 60_000);
    let client = 5u64;
    assert!(lim.check_admit(client, 0));
    assert!(!lim.check_admit(client, 100));
    assert!(lim.check_admit(client, 200));
    assert!(!lim.check_admit(client, 399));
    assert!(lim.check_admit(client, 400));
}

#[test]
fn distinct_clients_have_distinct_buckets() {
    let mut lim = RateLimiter::new(1, 200, 60_000);
    assert!(lim.check_admit(1, 0));
    assert!(!lim.check_admit(1, 1));
    assert!(lim.check_admit(2, 1));
    assert_eq!(lim.tracked_clients(), 2);
}

#[test]
fn sweep_evicts_stale_and_keeps_recent() {
    let mut lim = RateLimiter::new(10, 200, 1_000);
    lim.check_admit(1, 0);
    lim.check_admit(2, 5_000);
    lim.sweep(5_500);
    // Client 1 was last seen 5500 ms ago, beyond the 1000 ms
    // retention window; client 2 was seen 500 ms ago.
    assert!(lim.bucket_of(1).is_none());
    let kept = lim.bucket_of(2).unwrap();
    assert_eq!(kept.last_seen, 5_000);
    assert_eq!(lim.tracked_clients(), 1);
}

#[test]
fn sweep_keeps_bucket_exactly_at_window_edge() {
    let mut lim = RateLimiter::new(10, 200, 1_000);
    lim.check_admit(1, 0);
    lim.sweep(1_000);
    assert!(lim.bucket_of(1).is_some());
    lim.sweep(1_001);
    assert!(lim.bucket_of(1).is_none());
}

#[test]
fn rejection_still_touches_the_bucket() {
    let mut lim = RateLimiter::new(1, 1_000_000, 1_000);
    assert!(lim.check_admit(1, 0));
    assert!(!lim.check_admit(1, 900));
    // The rejected request at 900 still counts as contact, so the
    // bucket survives a sweep at 1500.
    lim.sweep(1_500);
    assert!(lim.bucket_of(1).is_some());
}

#[test]
fn zero_burst_rejects_everything() {
    let mut lim = RateLimiter::new(0, 200, 60_000);
    assert!(!lim.check_admit(1, 0));
    assert!(!lim.check_admit(1, 1_000_000));
}
