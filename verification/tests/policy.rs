//! Spending policy.

use fortress_wallet::decoder::DecodedTransaction;
use fortress_wallet::policy::{DenialReason, PolicyConfig, PolicyDecision, PolicyEngine};
use fortress_wallet::time::{Duration, Timestamp};

fn config() -> PolicyConfig {
    PolicyConfig {
        max_single_tx_value: 1_000,
        max_value_per_window: 2_000,
        window: Duration::from_secs(3600),
        timelock_threshold: 500,
        timelock_delay: Duration::from_hours(24),
    }
}

fn tx(to: [u8; 20], value: u128) -> DecodedTransaction {
    DecodedTransaction { chain_id: 1, to, value }
}

fn some_time() -> Timestamp {
    Timestamp::from_nanos(1_700_000_000_000_000_000)
}

#[test]
fn config_enforcement_never_loosens_across_repeated_use() {
    let mut engine = PolicyEngine::new(config());
    let now = some_time();

    for i in 0..100u8 {
        let dest = [i; 20];
        let small = tx(dest, 1);
        engine.evaluate(&small, now);
        engine.record_approved(&small, now);
    }

    let over_cap = tx([0xFF; 20], config().max_single_tx_value + 1);
    assert_eq!(
        engine.evaluate(&over_cap, now),
        PolicyDecision::Denied(DenialReason::ExceedsSingleTxCap)
    );
}

#[test]
fn small_tx_to_known_destination_approved_immediately() {
    let mut engine = PolicyEngine::new(config());
    let now = some_time();
    let dest = [0xAA; 20];

    let t1 = tx(dest, 100);
    assert_eq!(
        engine.evaluate(&t1, now),
        PolicyDecision::Queued { release_at: now.after(config().timelock_delay) }
    );
    engine.record_approved(&t1, now);

    let t2 = tx(dest, 200);
    assert_eq!(engine.evaluate(&t2, now), PolicyDecision::Approved);
}

#[test]
fn tx_exceeding_single_cap_denied() {
    let engine = PolicyEngine::new(config());
    let now = some_time();
    let t = tx([0xAA; 20], 1_001);

    assert_eq!(
        engine.evaluate(&t, now),
        PolicyDecision::Denied(DenialReason::ExceedsSingleTxCap)
    );
}

#[test]
fn new_destination_requires_timelock_even_for_small_amount() {
    let engine = PolicyEngine::new(config());
    let now = some_time();
    let t = tx([0xAA; 20], 10);

    let decision = engine.evaluate(&t, now);
    assert_eq!(
        decision,
        PolicyDecision::Queued { release_at: now.after(config().timelock_delay) }
    );
}

#[test]
fn large_amount_to_known_destination_still_requires_timelock() {
    let mut engine = PolicyEngine::new(config());
    let now = some_time();
    let dest = [0xAA; 20];

    let small = tx(dest, 10);
    engine.evaluate(&small, now);
    engine.record_approved(&small, now);

    let large = tx(dest, 600);
    let decision = engine.evaluate(&large, now);
    assert_eq!(
        decision,
        PolicyDecision::Queued { release_at: now.after(config().timelock_delay) }
    );
}

#[test]
fn velocity_limit_enforced_across_multiple_approved_transactions() {
    let mut engine = PolicyEngine::new(config());
    let now = some_time();
    let dest = [0xAA; 20];

    let t1 = tx(dest, 400);
    assert_eq!(
        engine.evaluate(&t1, now),
        PolicyDecision::Queued { release_at: now.after(config().timelock_delay) }
    );
    engine.record_approved(&t1, now);

    let t2 = tx(dest, 400);
    assert_eq!(engine.evaluate(&t2, now), PolicyDecision::Approved);
    engine.record_approved(&t2, now);

    // Total so far: 800. A third 400 makes it 1200.
    let t3 = tx(dest, 400);
    assert_eq!(engine.evaluate(&t3, now), PolicyDecision::Approved);
    engine.record_approved(&t3, now);

    // Total so far: 1200. A fourth 900 would make it 2100.
    let t4 = tx(dest, 900);
    assert_eq!(
        engine.evaluate(&t4, now),
        PolicyDecision::Denied(DenialReason::ExceedsVelocityLimit)
    );
}

#[test]
fn velocity_window_expires_old_history() {
    let mut engine = PolicyEngine::new(config());
    let start = some_time();
    let dest = [0xAA; 20];

    let t1 = tx(dest, 400);
    engine.record_approved(&t1, start);

    let later = start.after(config().window).after(Duration::from_secs(1));
    let t2 = tx(dest, 900);
    let decision = engine.evaluate(&t2, later);
    assert_eq!(
        decision,
        PolicyDecision::Queued { release_at: later.after(config().timelock_delay) }
    );
}

#[test]
fn old_history_entries_are_pruned_not_retained_forever() {
    let mut engine = PolicyEngine::new(config());
    let start = some_time();
    let dest = [0xAA; 20];

    engine.record_approved(&tx(dest, 10), start);
    engine.record_approved(&tx(dest, 10), start);
    engine.record_approved(&tx(dest, 10), start);
    assert_eq!(engine.history_len(), 3);

    let later = start.after(config().window).after(Duration::from_secs(1));
    engine.record_approved(&tx(dest, 10), later);
    assert_eq!(engine.history_len(), 1);
}

#[test]
fn record_approved_is_required_for_history_to_count() {
    let engine = PolicyEngine::new(config());
    let now = some_time();
    let dest = [0xAA; 20];

    let t1 = tx(dest, 400);
    let _ = engine.evaluate(&t1, now);

    let t2 = tx(dest, 400);
    let decision = engine.evaluate(&t2, now);
    assert_ne!(decision, PolicyDecision::Denied(DenialReason::ExceedsVelocityLimit));
}

#[test]
fn near_max_value_does_not_overflow_the_velocity_check() {
    let config = PolicyConfig {
        max_single_tx_value: u128::MAX,
        max_value_per_window: 1_000,
        window: Duration::from_secs(3600),
        timelock_threshold: u128::MAX,
        timelock_delay: Duration::from_secs(1),
    };
    let engine = PolicyEngine::new(config);
    let now = some_time();
    let t = tx([0xAA; 20], u128::MAX);

    assert_eq!(
        engine.evaluate(&t, now),
        PolicyDecision::Denied(DenialReason::ExceedsVelocityLimit)
    );
}

#[test]
fn overflowing_total_is_over_any_limit() {
    let mut engine = PolicyEngine::new(PolicyConfig {
        max_single_tx_value: u128::MAX,
        max_value_per_window: u128::MAX,
        window: Duration::from_secs(3600),
        timelock_threshold: u128::MAX,
        timelock_delay: Duration::from_secs(1),
    });
    let now = some_time();
    let dest = [0xAA; 20];
    engine.record_approved(&tx(dest, u128::MAX), now);
    assert_eq!(
        engine.evaluate(&tx(dest, 1), now),
        PolicyDecision::Denied(DenialReason::ExceedsVelocityLimit)
    );
    assert_eq!(engine.evaluate(&tx(dest, 0), now), PolicyDecision::Approved);
}

#[test]
fn chains_are_kept_apart() {
    let mut engine = PolicyEngine::new(config());
    let now = some_time();
    let dest = [0xAA; 20];
    engine.record_approved(&tx(dest, 400), now);
    assert_eq!(engine.evaluate(&tx(dest, 1), now), PolicyDecision::Approved);
    // The same address on another chain is a new destination there.
    let elsewhere = DecodedTransaction { chain_id: 2, to: dest, value: 1 };
    assert_eq!(
        engine.evaluate(&elsewhere, now),
        PolicyDecision::Queued { release_at: now.after(config().timelock_delay) }
    );
    // What was spent on one chain does not count on the other.
    engine.record_approved(&tx(dest, 1_000), now);
    engine.record_approved(&tx(dest, 600), now);
    let big = DecodedTransaction { chain_id: 2, to: dest, value: 400 };
    engine.record_approved(&big, now);
    assert_eq!(engine.evaluate(&big, now), PolicyDecision::Approved);
    assert_eq!(
        engine.evaluate(&tx(dest, 1), now),
        PolicyDecision::Denied(DenialReason::ExceedsVelocityLimit)
    );
}

#[test]
fn window_edge_and_future_times() {
    let mut engine = PolicyEngine::new(config());
    let start = some_time();
    let dest = [0xAA; 20];
    engine.record_approved(&tx(dest, 1_000), start);
    engine.record_approved(&tx(dest, 1_000), start);
    // Exactly at the end of the window the spending still counts.
    let edge = start.after(config().window);
    assert_eq!(
        engine.evaluate(&tx(dest, 1), edge),
        PolicyDecision::Denied(DenialReason::ExceedsVelocityLimit)
    );
    let past = edge.after(Duration::new(0, 1));
    assert_eq!(engine.evaluate(&tx(dest, 1), past), PolicyDecision::Approved);
    // A spending that lies in the future does not count.
    let before = Timestamp::from_nanos(start.as_nanos() - 1);
    assert_eq!(engine.evaluate(&tx(dest, 1), before), PolicyDecision::Approved);
}

#[test]
fn times_before_the_epoch() {
    let mut engine = PolicyEngine::new(config());
    let start = Timestamp::from_nanos(-1_000);
    let dest = [0xAA; 20];
    engine.record_approved(&tx(dest, 1_000), start);
    engine.record_approved(&tx(dest, 1_000), start);
    let after = Timestamp::from_nanos(3_600_000_000_000 - 1_000);
    assert_eq!(
        engine.evaluate(&tx(dest, 1), after),
        PolicyDecision::Denied(DenialReason::ExceedsVelocityLimit)
    );
    let later = Timestamp::from_nanos(3_600_000_000_000 - 999);
    assert_eq!(engine.evaluate(&tx(dest, 1), later), PolicyDecision::Approved);
}

#[test]
fn spendings_recorded_out_of_order_count() {
    let mut engine = PolicyEngine::new(config());
    let start = some_time();
    let later = start.after(Duration::from_secs(10));
    let dest = [0xAA; 20];
    engine.record_approved(&tx(dest, 900), later);
    engine.record_approved(&tx(dest, 900), start);
    assert_eq!(engine.history_len(), 2);
    assert_eq!(
        engine.evaluate(&tx(dest, 400), later),
        PolicyDecision::Denied(DenialReason::ExceedsVelocityLimit)
    );
    assert_eq!(engine.evaluate(&tx(dest, 200), later), PolicyDecision::Approved);
    // The earlier one alone has left the window.
    let end = later.after(config().window);
    assert_eq!(engine.evaluate(&tx(dest, 400), end), PolicyDecision::Approved);
}
