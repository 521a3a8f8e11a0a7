//! Opening the Things database: what to do after each attempt, retrying
//! while Things holds a lock (during a sync).

use vstd::prelude::*;

verus! {

/// How many times opening is attempted while the database is locked: the
/// first attempt and up to three retries.
pub const OPEN_ATTEMPTS: u32 = 4;

/// How one attempt to open (and probe) the database went.
pub enum OpenOutcome {
    /// Opened, and a first query ran.
    Ready,
    /// SQLite reported the database busy or locked.
    Locked,
    /// Any other failure.
    Failed,
}

/// What to do next.
pub enum OpenAction {
    /// Use the connection.
    Use,
    /// Wait 100 ms and try again.
    Retry,
    /// Give up: the database stayed locked.
    GiveUpLocked,
    /// Give up with the failure itself.
    Fail,
}

pub open spec fn open_action_spec(attempt: u32, outcome: OpenOutcome) -> OpenAction {
    match outcome {
        OpenOutcome::Ready => OpenAction::Use,
        OpenOutcome::Locked => if attempt + 1 < OPEN_ATTEMPTS {
            OpenAction::Retry
        } else {
            OpenAction::GiveUpLocked
        },
        OpenOutcome::Failed => OpenAction::Fail,
    }
}

/// The decision after attempt number `attempt` (counted from 0).
pub fn open_action(attempt: u32, outcome: OpenOutcome) -> (r: OpenAction)
    requires
        attempt < OPEN_ATTEMPTS,
    ensures
        r == open_action_spec(attempt, outcome),
{
    match outcome {
        OpenOutcome::Ready => OpenAction::Use,
        OpenOutcome::Locked => {
            if attempt + 1 < OPEN_ATTEMPTS {
                OpenAction::Retry
            } else {
                OpenAction::GiveUpLocked
            }
        },
        OpenOutcome::Failed => OpenAction::Fail,
    }
}

/// Law: opening retries only while the database is locked, up to three
/// times after the first attempt (four attempts in all), and gives up as
/// locked when the fourth attempt finds it locked too.
pub proof fn lemma_open_retries(outcome: OpenOutcome, attempt: u32)
    requires
        attempt < OPEN_ATTEMPTS,
    ensures
        open_action_spec(attempt, outcome) is Retry <==> (outcome is Locked && attempt < 3),
        attempt == 3 && outcome is Locked ==> open_action_spec(attempt, outcome) is GiveUpLocked,
        outcome is Ready ==> open_action_spec(attempt, outcome) is Use,
        outcome is Failed ==> open_action_spec(attempt, outcome) is Fail,
{
}

} // verus!
