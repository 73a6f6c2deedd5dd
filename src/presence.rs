use vstd::prelude::*;

verus! {

/// How long, in milliseconds, the service waits at most for the store to hold
/// a block that the exchange reported found.
pub const PRESENCE_TIMEOUT_MS: u64 = 1000;

/// The pause before the next look at the store, after `attempt` looks found
/// nothing: 1 ms, then 10 ms, then 100 ms from there on.
pub open spec fn backoff_ms(attempt: u64) -> u64 {
    if attempt == 0 {
        1
    } else if attempt == 1 {
        10
    } else {
        100
    }
}

/// The next step of the wait for a block to reach the store.
#[derive(Debug, Clone, Copy, PartialEq, Eq, Structural)]
pub enum PresenceStep {
    /// Stop waiting; the flag says whether the store holds the block.
    Settle(bool),
    /// Look again after this many milliseconds.
    Sleep(u64),
}

/// Decides the next step of the wait, given how many looks at the store found
/// nothing so far, how long the wait has lasted, and whether the last look
/// found the block.
pub fn presence_step(attempt: u64, waited_ms: u64, present: bool) -> (r: PresenceStep)
    ensures
        present ==> r == PresenceStep::Settle(true),
        !present && waited_ms >= PRESENCE_TIMEOUT_MS ==> r == PresenceStep::Settle(false),
        !present && waited_ms < PRESENCE_TIMEOUT_MS ==> r == PresenceStep::Sleep(
            backoff_ms(attempt),
        ),
{
    if present {
        PresenceStep::Settle(true)
    } else if waited_ms >= PRESENCE_TIMEOUT_MS {
        PresenceStep::Settle(false)
    } else if attempt == 0 {
        PresenceStep::Sleep(1)
    } else if attempt == 1 {
        PresenceStep::Sleep(10)
    } else {
        PresenceStep::Sleep(100)
    }
}

/// The pauses never shrink from one look to the next, and none is longer than
/// 100 ms.
pub proof fn lemma_backoff_monotone_and_capped(a: u64, b: u64)
    requires
        a <= b,
    ensures
        1 <= backoff_ms(a) <= backoff_ms(b) <= 100,
{
}

} // verus!
