//! Reconnection supervision: the state machine that decides, after each
//! connect, construction or dispatch outcome, what the process does next.
//! It never terminates on its own; a dispatch failure tears the remote
//! connection down and the loop rebuilds everything from a fresh connect.

use vstd::prelude::*;

verus! {

/// Seconds to wait after a failed connect or construction attempt.
pub const BACKOFF_SECS: u64 = 1;

/// Where the supervision loop stands.
#[derive(Clone, Copy, PartialEq, Eq, Structural, Debug)]
pub enum SupervisorState {
    /// No remote connection; the next step is a connect attempt.
    Disconnected,
    /// Connected; the next step is building a controller.
    Connecting,
    /// A controller is live; the next step is dispatching events.
    Running,
}

/// What the loop last observed.
#[derive(Clone, Copy, PartialEq, Eq, Structural, Debug)]
pub enum SupervisorEvent {
    /// A connect attempt ended, successfully or not.
    ConnectAttempt { ok: bool },
    /// Controller construction ended, successfully or not.
    SetupAttempt { ok: bool },
    /// One event was dispatched, or dispatch failed.
    Dispatch { ok: bool },
}

/// What the loop must do next.
#[derive(Clone, Copy, PartialEq, Eq, Structural, Debug)]
pub enum SupervisorAction {
    /// Attempt to connect to the remote.
    Connect,
    /// Wait the fixed backoff, then attempt to connect.
    BackoffThenConnect,
    /// Construct a controller, which resets and relights the surface.
    BuildController,
    /// Pull the next surface event and dispatch it.
    PumpEvents,
}

/// Which outcome can arrive in which state.
pub open spec fn spec_accepts(s: SupervisorState, e: SupervisorEvent) -> bool {
    match e {
        SupervisorEvent::ConnectAttempt { .. } => s is Disconnected,
        SupervisorEvent::SetupAttempt { .. } => s is Connecting,
        SupervisorEvent::Dispatch { .. } => s is Running,
    }
}

/// The transition table: a successful connect leads to construction; a
/// failed connect or construction backs off and stays disconnected; a
/// successful construction or dispatch keeps pumping events; a failed
/// dispatch reconnects at once, without backoff.
pub open spec fn spec_step(s: SupervisorState, e: SupervisorEvent) -> (
    SupervisorState,
    SupervisorAction,
) {
    match e {
        SupervisorEvent::ConnectAttempt { ok } => if ok {
            (SupervisorState::Connecting, SupervisorAction::BuildController)
        } else {
            (SupervisorState::Disconnected, SupervisorAction::BackoffThenConnect)
        },
        SupervisorEvent::SetupAttempt { ok } => if ok {
            (SupervisorState::Running, SupervisorAction::PumpEvents)
        } else {
            (SupervisorState::Disconnected, SupervisorAction::BackoffThenConnect)
        },
        SupervisorEvent::Dispatch { ok } => if ok {
            (SupervisorState::Running, SupervisorAction::PumpEvents)
        } else {
            (SupervisorState::Disconnected, SupervisorAction::Connect)
        },
    }
}

/// The supervision loop's state, driven by the outcomes the process
/// observes.
pub struct Supervisor {
    state: SupervisorState,
}

impl Supervisor {
    /// Where the loop stands.
    pub closed spec fn spec_state(&self) -> SupervisorState {
        self.state
    }

    /// A fresh supervisor: disconnected, about to attempt a connect.
    pub fn new() -> (r: Supervisor)
        ensures
            r.spec_state() == SupervisorState::Disconnected,
    {
        Supervisor { state: SupervisorState::Disconnected }
    }

    /// Where the loop stands.
    pub fn state(&self) -> (r: SupervisorState)
        ensures
            r == self.spec_state(),
    {
        self.state
    }

    /// Feed the outcome the loop observed; returns what to do next,
    /// exactly as the transition table demands. A controller is built
    /// exactly on a successful connect, so each successful connect causes
    /// exactly one construction — and with it one full LED reset.
    pub fn step(&mut self, e: SupervisorEvent) -> (r: SupervisorAction)
        requires
            spec_accepts(old(self).spec_state(), e),
        ensures
            (final(self).spec_state(), r) == spec_step(old(self).spec_state(), e),
    {
        match e {
            SupervisorEvent::ConnectAttempt { ok } => {
                if ok {
                    self.state = SupervisorState::Connecting;
                    SupervisorAction::BuildController
                } else {
                    self.state = SupervisorState::Disconnected;
                    SupervisorAction::BackoffThenConnect
                }
            },
            SupervisorEvent::SetupAttempt { ok } => {
                if ok {
                    self.state = SupervisorState::Running;
                    SupervisorAction::PumpEvents
                } else {
                    self.state = SupervisorState::Disconnected;
                    SupervisorAction::BackoffThenConnect
                }
            },
            SupervisorEvent::Dispatch { ok } => {
                if ok {
                    self.state = SupervisorState::Running;
                    SupervisorAction::PumpEvents
                } else {
                    self.state = SupervisorState::Disconnected;
                    SupervisorAction::Connect
                }
            },
        }
    }
}

} // verus!
