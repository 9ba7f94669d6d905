use vstd::prelude::*;

use crate::ships::{CooldownData, CooldownError, ExtractionResponse};

verus! {

/// A structured error the server sent back, other than a cooldown.
#[derive(Debug, Clone, PartialEq, Eq)]
pub struct ApiError {
    pub message: String,
    pub code: i32,
}

/// What one extraction attempt came back with.
#[derive(Debug, Clone, PartialEq, Eq)]
pub enum ExtractionReply {
    /// The extraction went through.
    Extracted(ExtractionResponse),
    /// The server refused because the ship is still cooling down.
    OnCooldown(CooldownData),
    /// The server refused for another reason; worth retrying.
    Rejected(ApiError),
    /// The request never got an answer; worth retrying.
    Unreachable(String),
    /// The answer matched no known shape.
    Malformed,
}

/// Why a run of the extraction loop ended.
#[derive(Debug, Clone, Copy, PartialEq, Eq, Structural)]
pub enum TerminationReason {
    /// The hold is full; selling is up to the caller.
    CargoFull,
    /// The ship is cooling down; no extraction was made for it.
    OnCooldown,
    /// The caller declined to retry after a failure.
    UserAborted,
    /// The caller asked the loop to stop.
    Cancelled,
    /// An answer could not be understood.
    Malformed,
}

/// What the loop asks its driver to do next.
#[derive(Debug, Clone, Copy, PartialEq, Eq, Structural)]
pub enum SchedulerAction {
    /// Fetch the ship's current cooldown.
    FetchCooldown,
    /// Send one extraction request.
    AttemptExtraction,
    /// Sleep this many seconds, then report back.
    Wait(u64),
    /// Ask whether to retry after a failure.
    AskRetry,
    /// The run is over.
    Stop(TerminationReason),
}

/// What the driver reports back to the loop.
#[derive(Debug, Clone, PartialEq, Eq)]
pub enum SchedulerEvent {
    /// The cooldown was fetched; `None` where the ship has none.
    CooldownFetched(Option<CooldownData>),
    /// The extraction request was answered.
    Replied(ExtractionReply),
    /// The requested wait is over.
    WaitElapsed,
    /// The caller answered the retry question.
    RetryDecided(bool),
    /// The caller asked to stop.
    CancelRequested,
}

/// Seconds to back off before retrying a failed extraction.
pub const RETRY_BACKOFF_SECS: u64 = 5;

/// Sorts the answer to an extraction request by its shape. `status_ok` says
/// whether the server reported success; the other arguments hold the body
/// where it parses as a cooldown error, as another error, or as an extraction.
/// On a failure status the error shapes are tried first, cooldown before any
/// other; otherwise, or where neither fits, the body is an extraction or
/// malformed.
pub fn classify_extraction_reply(
    status_ok: bool,
    cooldown: Option<CooldownError>,
    error: Option<ApiError>,
    extracted: Option<ExtractionResponse>,
) -> (r: ExtractionReply)
    ensures
        !status_ok && cooldown is Some ==> r == ExtractionReply::OnCooldown(
            cooldown.unwrap().error.data,
        ),
        !status_ok && cooldown is None && error is Some ==> r == ExtractionReply::Rejected(
            error.unwrap(),
        ),
        status_ok || (cooldown is None && error is None) ==> r == match extracted {
            Some(x) => ExtractionReply::Extracted(x),
            None => ExtractionReply::Malformed,
        },
{
    if !status_ok {
        if let Some(c) = cooldown {
            return ExtractionReply::OnCooldown(c.error.data);
        }
        if let Some(e) = error {
            return ExtractionReply::Rejected(e);
        }
    }
    match extracted {
        Some(x) => ExtractionReply::Extracted(x),
        None => ExtractionReply::Malformed,
    }
}

/// A fetched cooldown leaves the ship free to extract: there is none, or no
/// time is left on it.
pub open spec fn cooldown_clear(c: Option<CooldownData>) -> bool {
    match c {
        Some(d) => d.cooldown_remaining <= 0,
        None => true,
    }
}

/// Seconds to wait after an extraction whose cooldown has `remaining` seconds
/// left: one more than that, so as not to race the server's clock.
pub open spec fn wait_after(remaining: i32) -> u64 {
    if remaining > 0 {
        (remaining + 1) as u64
    } else {
        1
    }
}

/// The loop's next action once `reply` answers an extraction request.
pub open spec fn after_reply(reply: ExtractionReply) -> SchedulerAction {
    match reply {
        ExtractionReply::Extracted(x) => if x.cargo.units >= x.cargo.capacity {
            SchedulerAction::Stop(TerminationReason::CargoFull)
        } else {
            SchedulerAction::Wait(wait_after(x.cooldown.remaining_seconds))
        },
        ExtractionReply::OnCooldown(_) => SchedulerAction::Stop(TerminationReason::OnCooldown),
        ExtractionReply::Rejected(_) => SchedulerAction::AskRetry,
        ExtractionReply::Unreachable(_) => SchedulerAction::AskRetry,
        ExtractionReply::Malformed => SchedulerAction::Stop(TerminationReason::Malformed),
    }
}

/// The loop's next action when event `e` comes while action `a` is pending.
/// A stopped run stays stopped, and a cancellation stops any other. An event
/// that answers the pending action moves the loop on; any other leaves the
/// action pending, except that an extraction is never sent again without a
/// fresh cooldown check.
pub open spec fn next_spec(a: SchedulerAction, e: SchedulerEvent) -> SchedulerAction {
    match (a, e) {
        (SchedulerAction::Stop(r), _) => SchedulerAction::Stop(r),
        (_, SchedulerEvent::CancelRequested) => SchedulerAction::Stop(TerminationReason::Cancelled),
        (SchedulerAction::FetchCooldown, SchedulerEvent::CooldownFetched(c)) => if cooldown_clear(c) {
            SchedulerAction::AttemptExtraction
        } else {
            SchedulerAction::Stop(TerminationReason::OnCooldown)
        },
        (SchedulerAction::AttemptExtraction, SchedulerEvent::Replied(reply)) => after_reply(reply),
        (SchedulerAction::AttemptExtraction, _) => SchedulerAction::FetchCooldown,
        (SchedulerAction::Wait(_), SchedulerEvent::WaitElapsed) => SchedulerAction::FetchCooldown,
        (SchedulerAction::AskRetry, SchedulerEvent::RetryDecided(retry)) => if retry {
            SchedulerAction::Wait(RETRY_BACKOFF_SECS)
        } else {
            SchedulerAction::Stop(TerminationReason::UserAborted)
        },
        _ => a,
    }
}

/// Where the loop stands after the events `es`, one after another, from `a`.
pub open spec fn run_spec(a: SchedulerAction, es: Seq<SchedulerEvent>) -> SchedulerAction
    decreases es.len(),
{
    if es.len() == 0 {
        a
    } else {
        run_spec(next_spec(a, es[0]), es.drop_first())
    }
}

/// Seconds to wait after an extraction whose cooldown has `remaining` left.
fn wait_after_cooldown(remaining: i32) -> (r: u64)
    ensures
        r == wait_after(remaining),
{
    if remaining > 0 {
        remaining as u64 + 1
    } else {
        1
    }
}

/// One step of the extraction loop: the action that follows `current` once
/// `event` has come.
pub fn next_action(current: SchedulerAction, event: &SchedulerEvent) -> (r: SchedulerAction)
    ensures
        r == next_spec(current, *event),
{
    if let SchedulerAction::Stop(reason) = current {
        return SchedulerAction::Stop(reason);
    }
    match event {
        SchedulerEvent::CancelRequested => SchedulerAction::Stop(TerminationReason::Cancelled),
        SchedulerEvent::CooldownFetched(c) => match current {
            SchedulerAction::FetchCooldown => {
                let clear = match c {
                    Some(d) => d.cooldown_remaining <= 0,
                    None => true,
                };
                if clear {
                    SchedulerAction::AttemptExtraction
                } else {
                    SchedulerAction::Stop(TerminationReason::OnCooldown)
                }
            },
            SchedulerAction::AttemptExtraction => SchedulerAction::FetchCooldown,
            _ => current,
        },
        SchedulerEvent::Replied(reply) => match current {
            SchedulerAction::AttemptExtraction => match reply {
                ExtractionReply::Extracted(x) => {
                    if x.cargo.units >= x.cargo.capacity {
                        SchedulerAction::Stop(TerminationReason::CargoFull)
                    } else {
                        SchedulerAction::Wait(wait_after_cooldown(x.cooldown.remaining_seconds))
                    }
                },
                ExtractionReply::OnCooldown(_) => SchedulerAction::Stop(
                    TerminationReason::OnCooldown,
                ),
                ExtractionReply::Rejected(_) => SchedulerAction::AskRetry,
                ExtractionReply::Unreachable(_) => SchedulerAction::AskRetry,
                ExtractionReply::Malformed => SchedulerAction::Stop(TerminationReason::Malformed),
            },
            _ => current,
        },
        SchedulerEvent::WaitElapsed => match current {
            SchedulerAction::Wait(_) => SchedulerAction::FetchCooldown,
            SchedulerAction::AttemptExtraction => SchedulerAction::FetchCooldown,
            _ => current,
        },
        SchedulerEvent::RetryDecided(retry) => match current {
            SchedulerAction::AskRetry => {
                if *retry {
                    SchedulerAction::Wait(RETRY_BACKOFF_SECS)
                } else {
                    SchedulerAction::Stop(TerminationReason::UserAborted)
                }
            },
            SchedulerAction::AttemptExtraction => SchedulerAction::FetchCooldown,
            _ => current,
        },
    }
}

/// An extraction is only ever asked for right after a cooldown check that
/// found the ship free: never while a freshly fetched cooldown has time left.
pub proof fn lemma_extraction_follows_clear_cooldown(a: SchedulerAction, e: SchedulerEvent)
    ensures
        next_spec(a, e) == SchedulerAction::AttemptExtraction <==> (a
            == SchedulerAction::FetchCooldown && (e matches SchedulerEvent::CooldownFetched(c)
            && cooldown_clear(c))),
{
}

/// A stopped run stays stopped, whatever events come after.
pub proof fn lemma_stopped_run_stays_stopped(r: TerminationReason, es: Seq<SchedulerEvent>)
    ensures
        run_spec(SchedulerAction::Stop(r), es) == SchedulerAction::Stop(r),
    decreases es.len(),
{
    if es.len() > 0 {
        lemma_stopped_run_stays_stopped(r, es.drop_first());
    }
}

/// Once an extraction reports a hold at or over capacity, the run ends with
/// a full hold, and no event after that brings another extraction.
pub proof fn lemma_full_hold_ends_run(x: ExtractionResponse, later: Seq<SchedulerEvent>)
    requires
        x.cargo.units >= x.cargo.capacity,
    ensures
        next_spec(
            SchedulerAction::AttemptExtraction,
            SchedulerEvent::Replied(ExtractionReply::Extracted(x)),
        ) == SchedulerAction::Stop(TerminationReason::CargoFull),
        forall|k: int|
            0 <= k <= later.len() ==> #[trigger] run_spec(
                SchedulerAction::Stop(TerminationReason::CargoFull),
                later.take(k),
            ) == SchedulerAction::Stop(TerminationReason::CargoFull),
{
    assert forall|k: int| 0 <= k <= later.len() implies #[trigger] run_spec(
        SchedulerAction::Stop(TerminationReason::CargoFull),
        later.take(k),
    ) == SchedulerAction::Stop(TerminationReason::CargoFull) by {
        lemma_stopped_run_stays_stopped(TerminationReason::CargoFull, later.take(k));
    }
}

} // verus!
