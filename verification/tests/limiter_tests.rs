use rhb::limiter::{Acquire, TokenBucket};

#[test]
fn unlimited_bucket_always_proceeds() {
    let mut b = TokenBucket::new(0);
    assert!(b.is_unlimited());
    for t in 0..1000 {
        assert_eq!(b.acquire_at(t), Acquire::Proceed);
    }
}

#[test]
fn burst_then_rate() {
    // 100 qps: capacity 50 tokens, refilled at one token per 10 ms.
    let mut b = TokenBucket::new(100);
    assert!(!b.is_unlimited());
    for _ in 0..50 {
        assert_eq!(b.acquire_at(0), Acquire::Proceed);
    }
    assert_eq!(b.acquire_at(0), Acquire::Wait(10_000_000));
    assert_eq!(b.acquire_at(4_000_000), Acquire::Wait(6_000_000));
    assert_eq!(b.acquire_at(10_000_000), Acquire::Proceed);
}

#[test]
fn two_hundred_tokens_at_one_hundred_qps_take_about_one_and_a_half_seconds() {
    let mut b = TokenBucket::new(100);
    let mut now: u64 = 0;
    let mut granted = 0;
    while granted < 200 {
        match b.acquire_at(now) {
            Acquire::Proceed => granted += 1,
            Acquire::Wait(d) => now += d,
        }
    }
    assert!(now >= 1_000_000_000);
    assert!(now < 5_000_000_000);
    assert_eq!(now, 1_500_000_000);
}

#[test]
fn small_rate_has_one_token_capacity() {
    let mut b = TokenBucket::new(1);
    assert_eq!(b.acquire_at(0), Acquire::Proceed);
    assert_eq!(b.acquire_at(0), Acquire::Wait(1_000_000_000));
    // The refill never exceeds the capacity of one token.
    assert_eq!(b.acquire_at(10_000_000_000), Acquire::Proceed);
    assert_eq!(b.acquire_at(10_000_000_000), Acquire::Wait(1_000_000_000));
}

#[test]
fn clock_going_back_adds_nothing() {
    let mut b = TokenBucket::new(2);
    assert_eq!(b.acquire_at(5_000_000_000), Acquire::Proceed);
    assert_eq!(b.acquire_at(1), Acquire::Wait(500_000_000));
}
