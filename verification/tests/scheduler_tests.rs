use arch_repo_builder::builder::BUILD_WORKERS;
use arch_repo_builder::scheduler::{sweep, FanOut, POLL_MILLIS};
use arch_repo_builder::seqs::reversed;

#[test]
fn fan_out_admits_up_to_the_cap() {
    let mut pool = FanOut::new(BUILD_WORKERS);
    assert_eq!(pool.limit(), 5);
    for expected in 1..=5 {
        assert!(!pool.too_busy());
        assert!(pool.try_spawn());
        assert_eq!(pool.running(), expected);
    }
    assert!(pool.too_busy());
    assert!(!pool.try_spawn());
    assert_eq!(pool.running(), 5);
}

#[test]
fn joined_workers_make_room() {
    let mut pool = FanOut::new(2);
    assert!(pool.try_spawn());
    assert!(pool.try_spawn());
    assert!(!pool.try_spawn());
    pool.joined(1);
    assert_eq!(pool.running(), 1);
    assert!(pool.try_spawn());
    pool.joined(7);
    assert_eq!(pool.running(), 0);
}

#[test]
fn fan_out_without_room_admits_nobody() {
    let mut pool = FanOut::new(0);
    assert!(pool.too_busy());
    assert!(!pool.try_spawn());
    assert_eq!(pool.running(), 0);
}

#[test]
fn in_flight_never_exceeds_the_cap() {
    let mut pool = FanOut::new(3);
    let mut seed: u32 = 12345;
    for _ in 0..1000 {
        seed = seed.wrapping_mul(1664525).wrapping_add(1013904223);
        if seed % 3 == 0 {
            pool.joined(((seed >> 8) % 3) as usize);
        } else {
            pool.try_spawn();
        }
        assert!(pool.running() <= pool.limit());
    }
}

#[test]
fn sweep_tells_finished_from_running() {
    let (running, done) = sweep(vec!["a", "b", "c", "d"], &vec![false, true, true, false]);
    assert_eq!(running, vec!["a", "d"]);
    assert_eq!(done, vec!["b", "c"]);
}

#[test]
fn sweep_counts_unasked_workers_as_running() {
    let (running, done) = sweep(vec![1, 2, 3], &vec![true]);
    assert_eq!(running, vec![2, 3]);
    assert_eq!(done, vec![1]);
    let (running, done) = sweep(Vec::<u8>::new(), &vec![true, false]);
    assert!(running.is_empty() && done.is_empty());
}

#[test]
fn sweeps_pause_ten_milliseconds() {
    assert_eq!(POLL_MILLIS, 10);
}

#[test]
fn reversed_turns_the_order_round() {
    assert_eq!(reversed(vec![1, 2, 3]), vec![3, 2, 1]);
    assert_eq!(reversed(Vec::<u8>::new()), Vec::<u8>::new());
    assert_eq!(reversed(vec!["x"]), vec!["x"]);
}
