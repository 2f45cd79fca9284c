//! Keeping the links to the storage nodes up.
//!
//! At start every configured node gets a row in the table of nodes and a
//! link. Each link is then watched: when it dies, the tasks that lived on it
//! are waited for, and the node is dialed again until it answers, with a
//! pause after each failure that grows by a fixed step. This module decides;
//! dialing, sleeping and swapping the link in belong to the code that drives
//! it.

use vstd::prelude::*;

verus! {

/// The seconds by which the pause between two attempts grows with each
/// failure; also the shortest pause.
pub const REDIAL_STEP_S: u64 = 5;

/// Whether a configured node still needs its row in the table of nodes,
/// given how many rows bear its name.
pub fn needs_registration(rows: u32) -> (needed: bool)
    ensures
        needed == (rows == 0),
{
    rows == 0
}

/// The pause after the `attempt`-th failed attempt in a row, in seconds.
pub open spec fn redial_delay(attempt: u32) -> u64 {
    if attempt == 0 {
        REDIAL_STEP_S
    } else {
        (REDIAL_STEP_S * attempt) as u64
    }
}

/// The pause after the `attempt`-th failed attempt in a row, in seconds.
pub fn redial_delay_s(attempt: u32) -> (seconds: u64)
    ensures
        seconds == redial_delay(attempt),
{
    if attempt == 0 {
        REDIAL_STEP_S
    } else {
        REDIAL_STEP_S * (attempt as u64)
    }
}

/// Where the watch over one link stands.
#[derive(Debug, Clone, Copy, PartialEq, Eq, Structural)]
pub enum LinkWatch {
    /// The link is up.
    Up,
    /// The link died; the tasks that lived on it are being waited for.
    Draining,
    /// The node is being dialed, for the `attempt`-th time in a row.
    Dialing { attempt: u32 },
    /// The `attempt`-th attempt failed; the pause before the next is on.
    Pausing { attempt: u32 },
}

/// What happened to a watched link.
#[derive(Debug, Clone, Copy, PartialEq, Eq, Structural)]
pub enum WatchEvent {
    /// The link signalled that it died.
    Disconnected,
    /// The tasks that lived on the dead link have finished.
    TasksFinished,
    /// The node answered; a new link stands.
    Dialed,
    /// The node did not answer.
    DialFailed,
    /// The pause is over.
    PauseOver,
}

/// What the watcher does next.
#[derive(Debug, Clone, Copy, PartialEq, Eq, Structural)]
pub enum WatchAction {
    /// Go on waiting for the next event.
    Wait,
    /// Wait for the tasks that lived on the dead link.
    AwaitTasks,
    /// Dial the node.
    Dial,
    /// Sleep for so many seconds, then report `PauseOver`.
    Pause(u64),
    /// Put the new link in the place of the old one.
    Install,
}

/// The next attempt's number: one more, and no more than a counter holds.
pub open spec fn following(attempt: u32) -> u32 {
    if attempt == u32::MAX {
        attempt
    } else {
        (attempt + 1) as u32
    }
}

/// The watch after `event`, and what to do about it. An event that does not
/// belong to the state changes nothing.
pub open spec fn watched(state: LinkWatch, event: WatchEvent) -> (LinkWatch, WatchAction) {
    match (state, event) {
        (LinkWatch::Up, WatchEvent::Disconnected) => (LinkWatch::Draining, WatchAction::AwaitTasks),
        (LinkWatch::Draining, WatchEvent::TasksFinished) => (
            LinkWatch::Dialing { attempt: 1 },
            WatchAction::Dial,
        ),
        (LinkWatch::Dialing { attempt }, WatchEvent::Dialed) => (LinkWatch::Up, WatchAction::Install),
        (LinkWatch::Dialing { attempt }, WatchEvent::DialFailed) => (
            LinkWatch::Pausing { attempt },
            WatchAction::Pause(redial_delay(attempt)),
        ),
        (LinkWatch::Pausing { attempt }, WatchEvent::PauseOver) => (
            LinkWatch::Dialing { attempt: following(attempt) },
            WatchAction::Dial,
        ),
        _ => (state, WatchAction::Wait),
    }
}

/// Takes an event on a watched link: the new state, and what to do.
pub fn watch_step(state: LinkWatch, event: WatchEvent) -> (next: (LinkWatch, WatchAction))
    ensures
        next == watched(state, event),
{
    match (state, event) {
        (LinkWatch::Up, WatchEvent::Disconnected) => (LinkWatch::Draining, WatchAction::AwaitTasks),
        (LinkWatch::Draining, WatchEvent::TasksFinished) => (
            LinkWatch::Dialing { attempt: 1 },
            WatchAction::Dial,
        ),
        (LinkWatch::Dialing { attempt: _ }, WatchEvent::Dialed) => (
            LinkWatch::Up,
            WatchAction::Install,
        ),
        (LinkWatch::Dialing { attempt }, WatchEvent::DialFailed) => (
            LinkWatch::Pausing { attempt },
            WatchAction::Pause(redial_delay_s(attempt)),
        ),
        (LinkWatch::Pausing { attempt }, WatchEvent::PauseOver) => {
            let next = if attempt == u32::MAX {
                attempt
            } else {
                attempt + 1
            };
            (LinkWatch::Dialing { attempt: next }, WatchAction::Dial)
        },
        _ => (state, WatchAction::Wait),
    }
}

/// Between two attempts lie at least five seconds, and the pause grows by
/// the same step with every failure.
pub proof fn lemma_backoff_is_linear(attempt: u32)
    ensures
        redial_delay(attempt) >= 5,
        1 <= attempt < u32::MAX ==> redial_delay((attempt + 1) as u32) == redial_delay(attempt)
            + REDIAL_STEP_S,
{
}

/// A node is dialed again only after a pause: from a failed attempt, the one
/// way back to dialing is through the pause that the failure started.
pub proof fn lemma_redial_follows_pause(state: LinkWatch, event: WatchEvent)
    requires
        watched(state, event).1 == WatchAction::Dial,
        state != LinkWatch::Draining,
    ensures
        state is Pausing,
        event == WatchEvent::PauseOver,
{
}

/// A link is installed only when the node answered a dial, and the watch is
/// then over a link that is up.
pub proof fn lemma_install_follows_dial(state: LinkWatch, event: WatchEvent)
    requires
        watched(state, event).1 == WatchAction::Install,
    ensures
        state is Dialing,
        event == WatchEvent::Dialed,
        watched(state, event).0 == LinkWatch::Up,
{
}

} // verus!
