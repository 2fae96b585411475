//! The per-session phase machine that an unverified driver runs.
//!
//! The driver performs the outside work (reads, waiting, retrying) and
//! reports each outcome as an event; this function alone decides the next
//! phase.

use vstd::prelude::*;

verus! {

/// Where a polling session stands.
#[derive(Debug, Copy, Clone, PartialEq, Eq, Structural)]
pub enum SessionPhase {
    Uninitialized,
    Anchored,
    Populated,
    Sampling,
    Lost,
    Terminated,
}

/// What the driver last observed.
#[derive(Debug, Copy, Clone, PartialEq, Eq, Structural)]
pub enum SessionEvent {
    AnchorFound,
    EnumerationDone,
    CycleCompleted,
    DiscoveryFailed,
    ReadLost,
    Retry,
    Terminate,
}

/// The next phase: discovery advances the session step by step, any
/// unrecoverable failure moves it to `Lost`, and from `Lost` the driver
/// either retries from scratch or terminates. An event that does not apply
/// to the current phase changes nothing.
pub open spec fn advance_spec(phase: SessionPhase, event: SessionEvent) -> SessionPhase {
    match (phase, event) {
        (SessionPhase::Uninitialized, SessionEvent::AnchorFound) => SessionPhase::Anchored,
        (SessionPhase::Uninitialized, SessionEvent::DiscoveryFailed) => SessionPhase::Lost,
        (SessionPhase::Anchored, SessionEvent::EnumerationDone) => SessionPhase::Populated,
        (SessionPhase::Anchored, SessionEvent::DiscoveryFailed) => SessionPhase::Lost,
        (SessionPhase::Populated, SessionEvent::CycleCompleted) => SessionPhase::Sampling,
        (SessionPhase::Populated, SessionEvent::ReadLost) => SessionPhase::Lost,
        (SessionPhase::Sampling, SessionEvent::CycleCompleted) => SessionPhase::Sampling,
        (SessionPhase::Sampling, SessionEvent::ReadLost) => SessionPhase::Lost,
        (SessionPhase::Lost, SessionEvent::Retry) => SessionPhase::Uninitialized,
        (SessionPhase::Lost, SessionEvent::Terminate) => SessionPhase::Terminated,
        (p, _) => p,
    }
}

impl SessionPhase {
    /// Apply one observed event.
    pub fn advance(self, event: SessionEvent) -> (r: SessionPhase)
        ensures
            r == advance_spec(self, event),
    {
        match (self, event) {
            (SessionPhase::Uninitialized, SessionEvent::AnchorFound) => SessionPhase::Anchored,
            (SessionPhase::Uninitialized, SessionEvent::DiscoveryFailed) => SessionPhase::Lost,
            (SessionPhase::Anchored, SessionEvent::EnumerationDone) => SessionPhase::Populated,
            (SessionPhase::Anchored, SessionEvent::DiscoveryFailed) => SessionPhase::Lost,
            (SessionPhase::Populated, SessionEvent::CycleCompleted) => SessionPhase::Sampling,
            (SessionPhase::Populated, SessionEvent::ReadLost) => SessionPhase::Lost,
            (SessionPhase::Sampling, SessionEvent::CycleCompleted) => SessionPhase::Sampling,
            (SessionPhase::Sampling, SessionEvent::ReadLost) => SessionPhase::Lost,
            (SessionPhase::Lost, SessionEvent::Retry) => SessionPhase::Uninitialized,
            (SessionPhase::Lost, SessionEvent::Terminate) => SessionPhase::Terminated,
            (p, _) => p,
        }
    }
}

} // verus!
