//! Scan-session lifecycle.
//!
//! A session moves from `Idle` through the four fallible startup steps —
//! platform manager creation, adapter selection, event-stream subscription,
//! scan start — into `Scanning`, and from `Scanning` to `Stopped` when the
//! event source ends. Any startup failure aborts the whole attempt: the
//! session lands in `Aborted` with the error of the step that failed, no
//! step is retried, and no state ever returns to `Idle`. The platform
//! calls themselves happen outside the library; it decides, from the
//! outcome of each call, what the session does next.

use vstd::prelude::*;

verus! {

/// Why a startup attempt ended without scanning.
#[derive(Clone, Copy, PartialEq, Eq, Structural, Debug)]
pub enum StartError {
    /// The platform has no usable BLE stack, or permission was denied.
    ManagerInit,
    /// The platform reported zero adapters.
    NoAdapter,
    /// The platform rejected the event-stream subscription.
    EventSubscription,
    /// The platform rejected the request to begin scanning.
    ScanStart,
}

/// Where a scan session stands.
#[derive(Clone, Copy, PartialEq, Eq, Structural, Debug)]
pub enum ScanPhase {
    /// No startup attempt has begun.
    Idle,
    /// Waiting for the platform manager to come up.
    AcquiringManager,
    /// Waiting for the adapter list.
    SelectingAdapter,
    /// Waiting for the event-stream subscription.
    Subscribing,
    /// Waiting for the platform to accept the scan request.
    StartingScan,
    /// The consumption loop is running.
    Scanning,
    /// The event source ended; the session is over.
    Stopped,
    /// A startup step failed; the session never scanned.
    Aborted(StartError),
}

/// The outcome of one platform interaction, fed back into the machine.
#[derive(Clone, Copy, PartialEq, Eq, Structural, Debug)]
pub enum LifecycleEvent {
    /// The caller asked the session to start.
    StartRequested,
    /// The platform manager came up.
    ManagerReady,
    /// The platform manager could not be created.
    ManagerFailed,
    /// The platform listed its adapters; `count` of them were reported.
    AdaptersListed { count: usize },
    /// The event-stream subscription succeeded.
    Subscribed,
    /// The event-stream subscription was rejected.
    SubscribeFailed,
    /// The platform accepted the scan request.
    ScanStarted,
    /// The platform rejected the scan request.
    ScanFailed,
    /// The advertisement event source ended.
    SourceEnded,
}

/// The transition table: what phase follows `phase` when `event` arrives.
/// An event that does not belong to the current phase leaves it unchanged.
pub open spec fn spec_lifecycle_step(phase: ScanPhase, event: LifecycleEvent) -> ScanPhase {
    match (phase, event) {
        (ScanPhase::Idle, LifecycleEvent::StartRequested) => ScanPhase::AcquiringManager,
        (ScanPhase::AcquiringManager, LifecycleEvent::ManagerReady) => ScanPhase::SelectingAdapter,
        (ScanPhase::AcquiringManager, LifecycleEvent::ManagerFailed) => ScanPhase::Aborted(
            StartError::ManagerInit,
        ),
        (ScanPhase::SelectingAdapter, LifecycleEvent::AdaptersListed { count }) => if count == 0 {
            ScanPhase::Aborted(StartError::NoAdapter)
        } else {
            ScanPhase::Subscribing
        },
        (ScanPhase::Subscribing, LifecycleEvent::Subscribed) => ScanPhase::StartingScan,
        (ScanPhase::Subscribing, LifecycleEvent::SubscribeFailed) => ScanPhase::Aborted(
            StartError::EventSubscription,
        ),
        (ScanPhase::StartingScan, LifecycleEvent::ScanStarted) => ScanPhase::Scanning,
        (ScanPhase::StartingScan, LifecycleEvent::ScanFailed) => ScanPhase::Aborted(
            StartError::ScanStart,
        ),
        (ScanPhase::Scanning, LifecycleEvent::SourceEnded) => ScanPhase::Stopped,
        (_, _) => phase,
    }
}

/// Advance the session by one platform outcome.
pub fn lifecycle_step(phase: ScanPhase, event: &LifecycleEvent) -> (next: ScanPhase)
    ensures
        next == spec_lifecycle_step(phase, *event),
{
    match (phase, event) {
        (ScanPhase::Idle, LifecycleEvent::StartRequested) => ScanPhase::AcquiringManager,
        (ScanPhase::AcquiringManager, LifecycleEvent::ManagerReady) => ScanPhase::SelectingAdapter,
        (ScanPhase::AcquiringManager, LifecycleEvent::ManagerFailed) => ScanPhase::Aborted(
            StartError::ManagerInit,
        ),
        (ScanPhase::SelectingAdapter, LifecycleEvent::AdaptersListed { count }) => if *count == 0 {
            ScanPhase::Aborted(StartError::NoAdapter)
        } else {
            ScanPhase::Subscribing
        },
        (ScanPhase::Subscribing, LifecycleEvent::Subscribed) => ScanPhase::StartingScan,
        (ScanPhase::Subscribing, LifecycleEvent::SubscribeFailed) => ScanPhase::Aborted(
            StartError::EventSubscription,
        ),
        (ScanPhase::StartingScan, LifecycleEvent::ScanStarted) => ScanPhase::Scanning,
        (ScanPhase::StartingScan, LifecycleEvent::ScanFailed) => ScanPhase::Aborted(
            StartError::ScanStart,
        ),
        (ScanPhase::Scanning, LifecycleEvent::SourceEnded) => ScanPhase::Stopped,
        (_, _) => phase,
    }
}

/// The phase reached from `init` after the whole outcome sequence `events`.
pub open spec fn spec_run_lifecycle(init: ScanPhase, events: Seq<LifecycleEvent>) -> ScanPhase
    decreases events.len(),
{
    if events.len() == 0 {
        init
    } else {
        spec_lifecycle_step(spec_run_lifecycle(init, events.drop_last()), events.last())
    }
}

/// An aborted startup is terminal: no later platform outcome resumes it,
/// so a failed step is never retried and no partial session scans.
pub proof fn lemma_aborted_is_terminal(e: StartError, events: Seq<LifecycleEvent>)
    ensures
        spec_run_lifecycle(ScanPhase::Aborted(e), events) == ScanPhase::Aborted(e),
    decreases events.len(),
{
    if events.len() > 0 {
        lemma_aborted_is_terminal(e, events.drop_last());
    }
}

/// A stopped session is terminal: once the event source ends, no platform
/// outcome restarts the loop.
pub proof fn lemma_stopped_is_terminal(events: Seq<LifecycleEvent>)
    ensures
        spec_run_lifecycle(ScanPhase::Stopped, events) == ScanPhase::Stopped,
    decreases events.len(),
{
    if events.len() > 0 {
        lemma_stopped_is_terminal(events.drop_last());
    }
}

/// Each phase witnesses its history: from `Idle`, a session stands past a
/// startup step only when the matching platform outcome arrived — and so
/// it is scanning, or stopped after scanning, only when the manager came
/// up, at least one adapter was listed, and the subscription and the scan
/// request were both accepted.
pub proof fn lemma_phase_witnesses_history(events: Seq<LifecycleEvent>)
    ensures
        ({
            let p = spec_run_lifecycle(ScanPhase::Idle, events);
            &&& (p == ScanPhase::SelectingAdapter || p == ScanPhase::Subscribing
                || p == ScanPhase::StartingScan || p == ScanPhase::Scanning || p
                == ScanPhase::Stopped) ==> events.contains(LifecycleEvent::ManagerReady)
            &&& (p == ScanPhase::Subscribing || p == ScanPhase::StartingScan || p
                == ScanPhase::Scanning || p == ScanPhase::Stopped) ==> exists|count: usize|
                count > 0 && events.contains(LifecycleEvent::AdaptersListed { count })
            &&& (p == ScanPhase::StartingScan || p == ScanPhase::Scanning || p
                == ScanPhase::Stopped) ==> events.contains(LifecycleEvent::Subscribed)
            &&& (p == ScanPhase::Scanning || p == ScanPhase::Stopped) ==> events.contains(
                LifecycleEvent::ScanStarted,
            )
        }),
    decreases events.len(),
{
    if events.len() > 0 {
        let prefix = events.drop_last();
        lemma_phase_witnesses_history(prefix);
        assert forall|x: LifecycleEvent| prefix.contains(x) implies events.contains(x) by {
            let i = choose|i: int| 0 <= i < prefix.len() && prefix[i] == x;
            assert(events[i] == x);
        }
        assert(events[events.len() - 1] == events.last());
        assert(events.contains(events.last()));
        let q = spec_run_lifecycle(ScanPhase::Idle, prefix);
        if (q == ScanPhase::Subscribing || q == ScanPhase::StartingScan || q
            == ScanPhase::Scanning || q == ScanPhase::Stopped) {
            let c = choose|c: usize|
                c > 0 && prefix.contains(LifecycleEvent::AdaptersListed { count: c });
            assert(events.contains(LifecycleEvent::AdaptersListed { count: c }));
        }
        if q == ScanPhase::SelectingAdapter {
            if let LifecycleEvent::AdaptersListed { count } = events.last() {
                if count > 0 {
                    assert(events.contains(LifecycleEvent::AdaptersListed { count }));
                }
            }
        }
    }
}

/// No state returns to `Idle`: once a startup attempt has begun, the
/// session never again looks untouched.
pub proof fn lemma_no_return_to_idle(phase: ScanPhase, event: LifecycleEvent)
    ensures
        phase != ScanPhase::Idle ==> spec_lifecycle_step(phase, event) != ScanPhase::Idle,
{
}

/// Select the adapter a session uses, given how many the platform listed:
/// the first one reported, or `NoAdapter` when the list is empty.
pub fn select_adapter_index(adapter_count: usize) -> (r: Result<usize, StartError>)
    ensures
        adapter_count == 0 ==> r == Result::<usize, StartError>::Err(StartError::NoAdapter),
        adapter_count > 0 ==> r == Result::<usize, StartError>::Ok(0usize),
{
    if adapter_count == 0 {
        Err(StartError::NoAdapter)
    } else {
        Ok(0)
    }
}

} // verus!
