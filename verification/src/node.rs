use vstd::prelude::*;

verus! {

/// How long a starting node waits for a relay connection, in milliseconds.
pub const RELAY_WAIT_MS: u64 = 10_000;

/// How long it sleeps between two looks at the relay connection, in milliseconds.
pub const RELAY_POLL_MS: u64 = 200;

/// The next step while a starting node waits for its relay connection.
#[derive(Debug, PartialEq, Eq, Structural)]
pub enum RelayWait {
    /// A relay is connected: stop waiting.
    Ready,
    /// The wait is over without a relay: go on, warning that addresses may be incomplete.
    TimedOut,
    /// Sleep [`RELAY_POLL_MS`] and look again.
    KeepWaiting,
}

/// Decides the relay wait after `elapsed_ms` milliseconds: a connected relay ends it,
/// and so does reaching [`RELAY_WAIT_MS`].
pub fn relay_wait_step(has_relay: bool, elapsed_ms: u64) -> (step: RelayWait)
    ensures
        has_relay ==> step == RelayWait::Ready,
        !has_relay && elapsed_ms >= RELAY_WAIT_MS ==> step == RelayWait::TimedOut,
        !has_relay && elapsed_ms < RELAY_WAIT_MS ==> step == RelayWait::KeepWaiting,
{
    if has_relay {
        RelayWait::Ready
    } else if elapsed_ms >= RELAY_WAIT_MS {
        RelayWait::TimedOut
    } else {
        RelayWait::KeepWaiting
    }
}

} // verus!
