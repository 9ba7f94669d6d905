use spacetraders_client::extraction::{
    classify_extraction_reply, next_action, ApiError, ExtractionReply, SchedulerAction,
    SchedulerEvent, TerminationReason, RETRY_BACKOFF_SECS,
};
use spacetraders_client::ships::{
    CooldownData, CooldownError, CooldownErrorDetail, Extraction, ExtractionResponse, ShipCargo,
    ShipCooldown, Yield,
};

fn cooldown(remaining: i32) -> CooldownData {
    CooldownData {
        cooldown_remaining: remaining,
        total_cooldown: 70,
        expiration: "2030-01-01T00:01:10Z".to_string(),
    }
}

fn extracted(units: i32, capacity: i32, remaining: i32) -> ExtractionResponse {
    ExtractionResponse {
        extraction: Extraction {
            ship_symbol: "MINER-1".to_string(),
            yield_data: Yield { symbol: "IRON_ORE".to_string(), units: 7 },
        },
        cargo: ShipCargo { capacity, units, inventory: Vec::new() },
        cooldown: ShipCooldown {
            ship_symbol: "MINER-1".to_string(),
            total_seconds: 70,
            remaining_seconds: remaining,
        },
    }
}

/// Feeds `events` to the loop from its first action; returns the last action
/// and how many extractions were asked for on the way.
fn drive(events: Vec<SchedulerEvent>) -> (SchedulerAction, usize) {
    let mut action = SchedulerAction::FetchCooldown;
    let mut attempts = 0;
    for e in &events {
        action = next_action(action, e);
        if action == SchedulerAction::AttemptExtraction {
            attempts += 1;
        }
    }
    (action, attempts)
}

#[test]
fn active_cooldown_stops_before_any_attempt() {
    let (end, attempts) = drive(vec![SchedulerEvent::CooldownFetched(Some(cooldown(30)))]);
    assert_eq!(end, SchedulerAction::Stop(TerminationReason::OnCooldown));
    assert_eq!(attempts, 0);
}

#[test]
fn expired_or_absent_cooldown_allows_attempt() {
    assert_eq!(
        next_action(SchedulerAction::FetchCooldown, &SchedulerEvent::CooldownFetched(None)),
        SchedulerAction::AttemptExtraction
    );
    assert_eq!(
        next_action(SchedulerAction::FetchCooldown, &SchedulerEvent::CooldownFetched(Some(cooldown(0)))),
        SchedulerAction::AttemptExtraction
    );
}

#[test]
fn full_hold_ends_loop() {
    let (end, attempts) = drive(vec![
        SchedulerEvent::CooldownFetched(None),
        SchedulerEvent::Replied(ExtractionReply::Extracted(extracted(40, 40, 70))),
        SchedulerEvent::WaitElapsed,
        SchedulerEvent::CooldownFetched(None),
        SchedulerEvent::RetryDecided(true),
    ]);
    assert_eq!(end, SchedulerAction::Stop(TerminationReason::CargoFull));
    assert_eq!(attempts, 1);
}

#[test]
fn declined_retry_aborts_after_one_attempt() {
    let rejected = ApiError { message: "Ship is not in orbit".to_string(), code: 4236 };
    let (end, attempts) = drive(vec![
        SchedulerEvent::CooldownFetched(None),
        SchedulerEvent::Replied(ExtractionReply::Rejected(rejected)),
        SchedulerEvent::RetryDecided(false),
    ]);
    assert_eq!(end, SchedulerAction::Stop(TerminationReason::UserAborted));
    assert_eq!(attempts, 1);
}

#[test]
fn success_waits_one_second_past_cooldown() {
    let next = next_action(
        SchedulerAction::AttemptExtraction,
        &SchedulerEvent::Replied(ExtractionReply::Extracted(extracted(12, 40, 30))),
    );
    assert_eq!(next, SchedulerAction::Wait(31));
    assert_eq!(next_action(next, &SchedulerEvent::WaitElapsed), SchedulerAction::FetchCooldown);
}

#[test]
fn accepted_retry_backs_off_then_rechecks() {
    let (end, attempts) = drive(vec![
        SchedulerEvent::CooldownFetched(None),
        SchedulerEvent::Replied(ExtractionReply::Unreachable("timed out".to_string())),
        SchedulerEvent::RetryDecided(true),
    ]);
    assert_eq!(end, SchedulerAction::Wait(RETRY_BACKOFF_SECS));
    assert_eq!(RETRY_BACKOFF_SECS, 5);
    assert_eq!(attempts, 1);
    let (end, attempts) = drive(vec![
        SchedulerEvent::CooldownFetched(None),
        SchedulerEvent::Replied(ExtractionReply::Unreachable("timed out".to_string())),
        SchedulerEvent::RetryDecided(true),
        SchedulerEvent::WaitElapsed,
        SchedulerEvent::CooldownFetched(None),
    ]);
    assert_eq!(end, SchedulerAction::AttemptExtraction);
    assert_eq!(attempts, 2);
}

#[test]
fn cooldown_reply_and_malformed_reply_stop() {
    assert_eq!(
        next_action(
            SchedulerAction::AttemptExtraction,
            &SchedulerEvent::Replied(ExtractionReply::OnCooldown(cooldown(12)))
        ),
        SchedulerAction::Stop(TerminationReason::OnCooldown)
    );
    assert_eq!(
        next_action(SchedulerAction::AttemptExtraction, &SchedulerEvent::Replied(ExtractionReply::Malformed)),
        SchedulerAction::Stop(TerminationReason::Malformed)
    );
}

#[test]
fn cancellation_stops_any_running_step() {
    for a in [
        SchedulerAction::FetchCooldown,
        SchedulerAction::AttemptExtraction,
        SchedulerAction::Wait(10),
        SchedulerAction::AskRetry,
    ] {
        assert_eq!(
            next_action(a, &SchedulerEvent::CancelRequested),
            SchedulerAction::Stop(TerminationReason::Cancelled)
        );
    }
    let stopped = SchedulerAction::Stop(TerminationReason::CargoFull);
    assert_eq!(next_action(stopped, &SchedulerEvent::CancelRequested), stopped);
}

#[test]
fn unanswered_attempt_is_never_resent_unchecked() {
    assert_eq!(
        next_action(SchedulerAction::AttemptExtraction, &SchedulerEvent::WaitElapsed),
        SchedulerAction::FetchCooldown
    );
}

#[test]
fn replies_are_sorted_by_shape() {
    let cd = CooldownError {
        error: CooldownErrorDetail { message: "cooling down".to_string(), code: 4000, data: cooldown(9) },
    };
    let err = ApiError { message: "no asteroid here".to_string(), code: 4205 };
    assert_eq!(
        classify_extraction_reply(false, Some(cd.clone()), Some(err.clone()), None),
        ExtractionReply::OnCooldown(cooldown(9))
    );
    assert_eq!(
        classify_extraction_reply(false, None, Some(err.clone()), Some(extracted(1, 40, 5))),
        ExtractionReply::Rejected(err.clone())
    );
    assert_eq!(
        classify_extraction_reply(true, Some(cd), Some(err), Some(extracted(1, 40, 5))),
        ExtractionReply::Extracted(extracted(1, 40, 5))
    );
    assert_eq!(classify_extraction_reply(false, None, None, None), ExtractionReply::Malformed);
    assert_eq!(classify_extraction_reply(true, None, None, None), ExtractionReply::Malformed);
}
