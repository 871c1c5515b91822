use vstd::prelude::*;

use crate::errors::WabaError;

verus! {

/// Where an operation stands. Encryption and decryption share the shape:
/// stage one is archiving (encrypt) or stream decryption (decrypt); stage two
/// is stream encryption (encrypt) or unarchiving (decrypt). Both stages write
/// through the temporary archive named by the file stem.
#[derive(Clone, Copy, Debug, PartialEq, Eq, Structural)]
pub enum Phase {
    /// Checking the signature against the claimed address; nothing on disk yet.
    Verifying,
    /// Stage one is running and may have created the temporary archive.
    StageOne,
    /// Stage two is running and may have created the output artifact.
    StageTwo,
    /// Both stages succeeded; the temporary archive is being removed.
    TempRemoval,
    /// All artifacts settled; the original input is being removed.
    InputRemoval,
    /// A stage failed; the temporary archive is being removed.
    FailTempCleanup,
    /// A stage failed; the partial output is being removed.
    FailOutputCleanup,
    /// The operation completed and the input was replaced by the artifact.
    Succeeded,
    /// The operation failed; `failure` holds the error to surface.
    Failed,
}

/// What the driver must do next.
#[derive(Clone, Copy, Debug, PartialEq, Eq, Structural)]
pub enum Action {
    /// Run stage one (archive the input, or stream-decrypt it).
    RunStageOne,
    /// Run stage two (stream-encrypt the archive, or unarchive it).
    RunStageTwo,
    /// Delete the temporary archive if it exists.
    RemoveTemp,
    /// Delete the output artifact if it exists.
    RemoveOutput,
    /// Delete the original input file or directory.
    RemoveInput,
    /// Nothing further; read the outcome off the state.
    Halt,
}

/// What the driver reports back about the action it just performed.
#[derive(Clone, Copy, Debug, PartialEq, Eq, Structural)]
pub enum Event {
    /// The action completed.
    Success,
    /// The action failed; the error describes how.
    Failure(WabaError),
}

/// The orchestrator of one encrypt or decrypt operation, tracked as a state
/// machine: the driver performs each returned `Action` and feeds the outcome
/// back through `step`. The bookkeeping fields record what the discipline
/// guarantees: `verified` that the authentication gate passed, `io_started`
/// that some stage has run, `temp_clean` that no temporary archive remains,
/// `output_pending` that a partial output may remain, and `input_removed`
/// that the original input was deleted.
#[derive(Clone, Copy, Debug)]
pub struct Pipeline {
    pub phase: Phase,
    pub failure: Option<WabaError>,
    pub verified: bool,
    pub io_started: bool,
    pub temp_clean: bool,
    pub output_pending: bool,
    pub input_removed: bool,
}

impl Pipeline {
    /// The state every operation starts from.
    pub open spec fn init() -> Pipeline {
        Pipeline {
            phase: Phase::Verifying,
            failure: None,
            verified: false,
            io_started: false,
            temp_clean: true,
            output_pending: false,
            input_removed: false,
        }
    }

    /// The cleanup discipline, stated over the bookkeeping fields. Reading it
    /// as laws: no stage runs before verification passes; success means the
    /// temporary archive is gone, no partial output remains, and the input
    /// was replaced; any failure other than `CleanupFailed` leaves no
    /// temporary archive and no partial output, and never removed the input.
    pub open spec fn inv(self) -> bool {
        &&& (self.io_started ==> self.verified)
        &&& (self.input_removed ==> self.phase == Phase::Succeeded)
        &&& (self.phase == Phase::Verifying ==> !self.io_started && self.temp_clean
            && !self.output_pending && self.failure is None)
        &&& (self.phase == Phase::Succeeded ==> self.verified && self.temp_clean
            && !self.output_pending && self.input_removed && self.failure is None)
        &&& (self.phase == Phase::Failed ==> self.failure is Some && !self.input_removed)
        &&& (self.phase == Phase::Failed && self.failure != Some(WabaError::CleanupFailed)
            ==> self.temp_clean && !self.output_pending)
        &&& (self.phase == Phase::StageOne || self.phase == Phase::StageTwo || self.phase
            == Phase::TempRemoval || self.phase == Phase::InputRemoval ==> self.verified
            && self.failure is None)
        &&& (self.phase == Phase::StageOne ==> !self.output_pending)
        &&& (self.phase == Phase::TempRemoval || self.phase == Phase::InputRemoval
            ==> !self.output_pending)
        &&& (self.phase == Phase::InputRemoval ==> self.temp_clean)
        &&& (self.phase == Phase::FailTempCleanup || self.phase == Phase::FailOutputCleanup
            ==> self.failure is Some && self.verified)
        &&& (self.phase == Phase::FailOutputCleanup && self.failure != Some(
            WabaError::CleanupFailed,
        ) ==> self.temp_clean)
    }

    /// The transition function, one entry per phase and event. Mirrors the
    /// observable order of the operation: verify, stage one, stage two, remove
    /// the temporary archive, remove the input; on any stage failure remove
    /// the temporary archive and then any partial output before halting with
    /// the original error; a failed cleanup deletion halts with
    /// `CleanupFailed` instead, shadowing the original cause.
    pub open spec fn spec_step(self, ev: Event) -> (Pipeline, Action) {
        match (self.phase, ev) {
            (Phase::Verifying, Event::Success) => (
                Pipeline { phase: Phase::StageOne, verified: true, io_started: true, temp_clean: false, ..self },
                Action::RunStageOne,
            ),
            (Phase::Verifying, Event::Failure(e)) => (
                Pipeline { phase: Phase::Failed, failure: Some(e), ..self },
                Action::Halt,
            ),
            (Phase::StageOne, Event::Success) => (
                Pipeline { phase: Phase::StageTwo, output_pending: true, ..self },
                Action::RunStageTwo,
            ),
            (Phase::StageOne, Event::Failure(e)) => (
                Pipeline { phase: Phase::FailTempCleanup, failure: Some(e), ..self },
                Action::RemoveTemp,
            ),
            (Phase::StageTwo, Event::Success) => (
                Pipeline { phase: Phase::TempRemoval, output_pending: false, ..self },
                Action::RemoveTemp,
            ),
            (Phase::StageTwo, Event::Failure(e)) => (
                Pipeline { phase: Phase::FailTempCleanup, failure: Some(e), ..self },
                Action::RemoveTemp,
            ),
            (Phase::TempRemoval, Event::Success) => (
                Pipeline { phase: Phase::InputRemoval, temp_clean: true, ..self },
                Action::RemoveInput,
            ),
            (Phase::TempRemoval, Event::Failure(_)) => (
                Pipeline {
                    phase: Phase::FailOutputCleanup,
                    failure: Some(WabaError::CleanupFailed),
                    output_pending: true,
                    ..self
                },
                Action::RemoveOutput,
            ),
            (Phase::InputRemoval, Event::Success) => (
                Pipeline { phase: Phase::Succeeded, input_removed: true, ..self },
                Action::Halt,
            ),
            (Phase::InputRemoval, Event::Failure(_)) => (
                Pipeline { phase: Phase::Failed, failure: Some(WabaError::IoError), ..self },
                Action::Halt,
            ),
            (Phase::FailTempCleanup, Event::Success) => {
                let cleaned = Pipeline { temp_clean: true, ..self };
                if self.output_pending {
                    (
                        Pipeline { phase: Phase::FailOutputCleanup, ..cleaned },
                        Action::RemoveOutput,
                    )
                } else {
                    (Pipeline { phase: Phase::Failed, ..cleaned }, Action::Halt)
                }
            },
            (Phase::FailTempCleanup, Event::Failure(_)) => (
                Pipeline { phase: Phase::Failed, failure: Some(WabaError::CleanupFailed), ..self },
                Action::Halt,
            ),
            (Phase::FailOutputCleanup, Event::Success) => (
                Pipeline { phase: Phase::Failed, output_pending: false, ..self },
                Action::Halt,
            ),
            (Phase::FailOutputCleanup, Event::Failure(_)) => (
                Pipeline { phase: Phase::Failed, failure: Some(WabaError::CleanupFailed), ..self },
                Action::Halt,
            ),
            (Phase::Succeeded, _) => (self, Action::Halt),
            (Phase::Failed, _) => (self, Action::Halt),
        }
    }

    /// Starts an operation at the authentication gate.
    pub fn new() -> (p: Pipeline)
        ensures
            p == Pipeline::init(),
            p.inv(),
    {
        Pipeline {
            phase: Phase::Verifying,
            failure: None,
            verified: false,
            io_started: false,
            temp_clean: true,
            output_pending: false,
            input_removed: false,
        }
    }

    /// Feeds the outcome of the last action in and yields the next action,
    /// exactly as `spec_step` lays down, preserving the cleanup discipline.
    pub fn step(&mut self, ev: Event) -> (a: Action)
        requires
            old(self).inv(),
        ensures
            *final(self) == old(self).spec_step(ev).0,
            a == old(self).spec_step(ev).1,
            final(self).inv(),
    {
        let next: Pipeline;
        let action: Action;
        match (self.phase, ev) {
            (Phase::Verifying, Event::Success) => {
                next = Pipeline {
                    phase: Phase::StageOne,
                    verified: true,
                    io_started: true,
                    temp_clean: false,
                    ..*self
                };
                action = Action::RunStageOne;
            },
            (Phase::Verifying, Event::Failure(e)) => {
                next = Pipeline { phase: Phase::Failed, failure: Some(e), ..*self };
                action = Action::Halt;
            },
            (Phase::StageOne, Event::Success) => {
                next = Pipeline { phase: Phase::StageTwo, output_pending: true, ..*self };
                action = Action::RunStageTwo;
            },
            (Phase::StageOne, Event::Failure(e)) => {
                next = Pipeline { phase: Phase::FailTempCleanup, failure: Some(e), ..*self };
                action = Action::RemoveTemp;
            },
            (Phase::StageTwo, Event::Success) => {
                next = Pipeline { phase: Phase::TempRemoval, output_pending: false, ..*self };
                action = Action::RemoveTemp;
            },
            (Phase::StageTwo, Event::Failure(e)) => {
                next = Pipeline { phase: Phase::FailTempCleanup, failure: Some(e), ..*self };
                action = Action::RemoveTemp;
            },
            (Phase::TempRemoval, Event::Success) => {
                next = Pipeline { phase: Phase::InputRemoval, temp_clean: true, ..*self };
                action = Action::RemoveInput;
            },
            (Phase::TempRemoval, Event::Failure(_)) => {
                next = Pipeline {
                    phase: Phase::FailOutputCleanup,
                    failure: Some(WabaError::CleanupFailed),
                    output_pending: true,
                    ..*self
                };
                action = Action::RemoveOutput;
            },
            (Phase::InputRemoval, Event::Success) => {
                next = Pipeline { phase: Phase::Succeeded, input_removed: true, ..*self };
                action = Action::Halt;
            },
            (Phase::InputRemoval, Event::Failure(_)) => {
                next = Pipeline { phase: Phase::Failed, failure: Some(WabaError::IoError), ..*self };
                action = Action::Halt;
            },
            (Phase::FailTempCleanup, Event::Success) => {
                if self.output_pending {
                    next = Pipeline {
                        phase: Phase::FailOutputCleanup,
                        temp_clean: true,
                        ..*self
                    };
                    action = Action::RemoveOutput;
                } else {
                    next = Pipeline { phase: Phase::Failed, temp_clean: true, ..*self };
                    action = Action::Halt;
                }
            },
            (Phase::FailTempCleanup, Event::Failure(_)) => {
                next = Pipeline {
                    phase: Phase::Failed,
                    failure: Some(WabaError::CleanupFailed),
                    ..*self
                };
                action = Action::Halt;
            },
            (Phase::FailOutputCleanup, Event::Success) => {
                next = Pipeline { phase: Phase::Failed, output_pending: false, ..*self };
                action = Action::Halt;
            },
            (Phase::FailOutputCleanup, Event::Failure(_)) => {
                next = Pipeline {
                    phase: Phase::Failed,
                    failure: Some(WabaError::CleanupFailed),
                    ..*self
                };
                action = Action::Halt;
            },
            (Phase::Succeeded, _) => {
                next = *self;
                action = Action::Halt;
            },
            (Phase::Failed, _) => {
                next = *self;
                action = Action::Halt;
            },
        }
        *self = next;
        action
    }

    /// Law: the starting state obeys the cleanup discipline.
    pub proof fn lemma_init_satisfies_inv()
        ensures
            Pipeline::init().inv(),
    {
    }

    /// Law: the cleanup discipline is inductive — every step from a state
    /// obeying it lands in a state obeying it. With `lemma_init_satisfies_inv`
    /// this covers every reachable state: after any failing operation whose
    /// surfaced error is not `CleanupFailed`, no temporary archive remains and
    /// no partial output remains; the input is removed only on success; and no
    /// stage ever ran without the authentication gate having passed.
    pub proof fn lemma_step_preserves_inv(p: Pipeline, ev: Event)
        requires
            p.inv(),
        ensures
            p.spec_step(ev).0.inv(),
    {
    }
}

} // verus!
