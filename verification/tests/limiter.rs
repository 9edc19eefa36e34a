use iresearch_spider_rs::limiter::ConcurrencyLimiter;

#[test]
fn bound_of_one_admits_one_fetch_at_a_time() {
    let mut limiter = ConcurrencyLimiter::new(1);
    assert!(limiter.try_acquire());
    // a second fetch is refused while the first is in flight
    assert!(!limiter.try_acquire());
    assert!(!limiter.try_acquire());
    limiter.release();
    assert!(limiter.try_acquire());
    assert_eq!(limiter.in_flight, 1);
}

#[test]
fn bound_of_k_admits_at_most_k_fetches() {
    let mut limiter = ConcurrencyLimiter::new(3);
    let mut granted = 0;
    for _ in 0..10 {
        if limiter.try_acquire() {
            granted += 1;
        }
    }
    assert_eq!(granted, 3);
    assert_eq!(limiter.in_flight, 3);
    limiter.release();
    assert!(limiter.try_acquire());
    assert!(!limiter.try_acquire());
}

#[test]
fn released_slots_admit_every_queued_task() {
    // ten tasks through a bound of two: each completion frees a slot
    let mut limiter = ConcurrencyLimiter::new(2);
    let mut completed = 0;
    let mut running = 0;
    let mut submitted = 0;
    while completed < 10 {
        while submitted < 10 && limiter.try_acquire() {
            running += 1;
            submitted += 1;
            assert!(limiter.in_flight <= limiter.bound);
        }
        limiter.release();
        running -= 1;
        completed += 1;
        assert!(running >= 0);
    }
    assert_eq!(completed, 10);
}
