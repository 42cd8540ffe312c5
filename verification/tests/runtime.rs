use ped::entropy::{
    credit_bits, credit_step, fill_from_words, CreditStep, BYTES_PER_ROUND, MAINTAIN_ENTROPY_BITS,
    RNDADDENTROPY, RNDGETENTCNT, STARTUP_MAX_ROUNDS, TARGET_ENTROPY_BITS,
};
use ped::runtime::{RefreshStats, RuntimeFlags, State};
use std::time::Instant;

#[test]
fn state_names_are_stable() {
    assert_eq!(State::Refreshing.as_str(), "refreshing");
}

#[test]
fn all_state_names() {
    assert_eq!(State::Starting.as_str(), "starting");
    assert_eq!(State::Running.as_str(), "running");
    assert_eq!(State::Stopping.as_str(), "stopping");
    assert_eq!(State::Recovering.as_str(), "recovering");
    assert_eq!(State::Stopped.as_str(), "stopped");
}

#[test]
fn refresh_stats_count() {
    let mut stats = RefreshStats::default();
    assert_eq!((stats.sequence, stats.successful, stats.failed), (0, 0, 0));
    let now = Instant::now();
    stats.record_success(3, (1, 2, 3, 4), now);
    stats.record_failure();
    assert_eq!((stats.sequence, stats.successful, stats.failed), (3, 1, 1));
    assert_eq!(stats.last_region, Some((1, 2, 3, 4)));
    assert_eq!(stats.last_refresh, Some(now));
}

#[test]
fn flags_follow_the_display_settings() {
    let display = ped::config::DisplayConfig::default();
    let flags = RuntimeFlags::from_display(&display);
    assert_eq!(
        flags,
        RuntimeFlags { wait_for_complete: false, periodic_full_refresh: true, full_refresh_interval: 20 }
    );
}

#[test]
fn constants_match_linux_random_ioctls() {
    assert_eq!(RNDADDENTROPY, 0x4008_5203);
    assert_eq!(RNDGETENTCNT, 0x8004_5200);
}

#[test]
fn entropy_targets() {
    assert_eq!(TARGET_ENTROPY_BITS, 256);
    assert_eq!(MAINTAIN_ENTROPY_BITS, 512);
    assert_eq!(BYTES_PER_ROUND, 64);
    assert_eq!(STARTUP_MAX_ROUNDS, 64);
    assert_eq!(credit_bits(BYTES_PER_ROUND), 512);
}

#[test]
fn crediting_stops_at_the_goal_or_after_the_rounds() {
    assert!(matches!(credit_step(100, 512, 0, 64), CreditStep::AddBlock));
    assert!(matches!(credit_step(600, 512, 3, 64), CreditStep::Finish(Ok(600))));
    assert!(matches!(credit_step(300, 512, 64, 64), CreditStep::Finish(Ok(300))));
    match credit_step(-1, 512, 8, 8) {
        CreditStep::Finish(Err(e)) => assert_eq!(e, "entropy_avail stayed at -1 bits (goal 512)"),
        _ => panic!("expected failure"),
    }
}

#[test]
fn jitter_words_fill_blocks_little_endian() {
    let words = vec![0x0807060504030201_u64, 0xff];
    assert_eq!(fill_from_words(&words, 10), vec![1, 2, 3, 4, 5, 6, 7, 8, 0xff, 0]);
    assert_eq!(fill_from_words(&words, 0), Vec::<u8>::new());
}
