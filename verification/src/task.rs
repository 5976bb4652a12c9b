//! The course of one agent task, from submission to the advisory checkpoint.
//!
//! Running the backend and persisting results is the caller's work. The
//! orchestrator decides what is to be done next and keeps the governance
//! state; the caller performs each action and reports how it went.

use crate::detection::{detection_in, Detection};
use crate::ident::{is_random_id, new_random_id, TraceId};
use crate::json::json_text;
use crate::orchestrator::{GovernanceModel, Orchestrator};
use crate::types::GovernanceCheckpoint;
use vstd::prelude::*;

verus! {

/// Where a task stands.
#[derive(Clone, Copy, Debug, PartialEq, Eq, Structural)]
pub enum TaskPhase {
    /// The payload was scanned and the backend is running.
    Running { trace_id: TraceId },
    /// The backend returned and the raw input and output are being persisted.
    PersistingTrace { trace_id: TraceId },
    /// The checkpoint is being persisted.
    PersistingCheckpoint { trace_id: TraceId },
    /// The trace id and the backend's output go back to the caller.
    Finished { trace_id: TraceId },
    /// A collaborator failed; its error goes back to the caller unchanged.
    Failed,
}

/// How the action last asked for went.
#[derive(Clone, Copy, Debug, PartialEq, Eq, Structural)]
pub enum TaskEvent {
    /// The backend returned an output.
    RunnerReturned,
    /// The backend failed.
    RunnerFailed,
    /// The storage persisted what it was given.
    Persisted,
    /// The storage failed.
    PersistFailed,
}

/// What the caller is to do next.
#[derive(Debug)]
pub enum TaskAction {
    /// Run the backend on the task.
    Run { trace_id: TraceId },
    /// Persist the raw input and output of the trace.
    PersistTrace { trace_id: TraceId },
    /// Persist this checkpoint for the trace.
    PersistCheckpoint { trace_id: TraceId, checkpoint: GovernanceCheckpoint },
    /// Return the trace id and the backend's output.
    Return { trace_id: TraceId },
    /// Return the collaborator's error.
    Propagate,
    /// The event does not belong to the phase; nothing is to be done.
    Nothing,
}

/// The mathematical content of a [`TaskAction`].
pub enum ActionRecord {
    Run { trace_id: TraceId },
    PersistTrace { trace_id: TraceId },
    PersistCheckpoint { trace_id: TraceId, label: Seq<char>, passed: bool, details: Option<Seq<char>> },
    Return { trace_id: TraceId },
    Propagate,
    Nothing,
}

impl View for TaskAction {
    type V = ActionRecord;

    open spec fn view(&self) -> ActionRecord {
        match self {
            TaskAction::Run { trace_id } => ActionRecord::Run { trace_id: *trace_id },
            TaskAction::PersistTrace { trace_id } => ActionRecord::PersistTrace {
                trace_id: *trace_id,
            },
            TaskAction::PersistCheckpoint { trace_id, checkpoint } => ActionRecord::PersistCheckpoint {
                trace_id: *trace_id,
                label: checkpoint.label@,
                passed: checkpoint.passed,
                details: match checkpoint.details {
                    Some(text) => Some(text@),
                    None => None,
                },
            },
            TaskAction::Return { trace_id } => ActionRecord::Return { trace_id: *trace_id },
            TaskAction::Propagate => ActionRecord::Propagate,
            TaskAction::Nothing => ActionRecord::Nothing,
        }
    }
}

impl GovernanceModel {
    /// The checkpoint of a trace: whether its flags pass the policy now.
    /// A failed checkpoint is advice; it stops nothing.
    pub open spec fn checkpoint_action(self, trace_id: TraceId) -> ActionRecord {
        ActionRecord::PersistCheckpoint {
            trace_id,
            label: "governance-check"@,
            passed: self.governance_verdict(trace_id) is None,
            details: Some("Governance policy validation"@),
        }
    }

    /// The phase that follows `phase` on `event`, and the action to take.
    pub open spec fn next_step(self, phase: TaskPhase, event: TaskEvent) -> (TaskPhase, ActionRecord) {
        match (phase, event) {
            (TaskPhase::Running { trace_id }, TaskEvent::RunnerReturned) => (
                TaskPhase::PersistingTrace { trace_id },
                ActionRecord::PersistTrace { trace_id },
            ),
            (TaskPhase::Running { .. }, TaskEvent::RunnerFailed) => (
                TaskPhase::Failed,
                ActionRecord::Propagate,
            ),
            (TaskPhase::PersistingTrace { trace_id }, TaskEvent::Persisted) => (
                TaskPhase::PersistingCheckpoint { trace_id },
                self.checkpoint_action(trace_id),
            ),
            (TaskPhase::PersistingTrace { .. }, TaskEvent::PersistFailed) => (
                TaskPhase::Failed,
                ActionRecord::Propagate,
            ),
            (TaskPhase::PersistingCheckpoint { trace_id }, TaskEvent::Persisted) => (
                TaskPhase::Finished { trace_id },
                ActionRecord::Return { trace_id },
            ),
            (TaskPhase::PersistingCheckpoint { .. }, TaskEvent::PersistFailed) => (
                TaskPhase::Failed,
                ActionRecord::Propagate,
            ),
            _ => (phase, ActionRecord::Nothing),
        }
    }
}

impl Orchestrator {
    /// Accepts a task: mints its trace id and scans the task for anomalies
    /// before anything runs. What is found is flagged, never refused: the
    /// backend is to run in every case.
    pub fn run_agent_task(&mut self, task: &serde_json::Value) -> (started: (
        TaskPhase,
        TaskAction,
        Detection,
    ))
        ensures
            started.0 is Running,
            is_random_id(started.0->Running_trace_id),
            started.1@ == (ActionRecord::Run { trace_id: started.0->Running_trace_id }),
            started.2 == detection_in(json_text(*task)),
            old(self)@.scanned_into(
                final(self)@,
                started.0->Running_trace_id,
                json_text(*task),
            ),
    {
        let trace_id = new_random_id();
        let found = self.detect_anomalies(&trace_id, task);
        (TaskPhase::Running { trace_id }, TaskAction::Run { trace_id }, found)
    }

    /// Accepts a task given by its serialized payload, under a trace id of the
    /// caller's: scans the payload and asks for the backend to run.
    pub fn begin_task(&mut self, trace_id: TraceId, payload: &str) -> (started: (
        TaskPhase,
        TaskAction,
        Detection,
    ))
        ensures
            started.0 == (TaskPhase::Running { trace_id }),
            started.1@ == (ActionRecord::Run { trace_id }),
            started.2 == detection_in(payload@),
            old(self)@.scanned_into(final(self)@, trace_id, payload@),
    {
        let found = self.detect_in_payload(&trace_id, payload);
        (TaskPhase::Running { trace_id }, TaskAction::Run { trace_id }, found)
    }

    /// The checkpoint of a trace: whether its flags pass the policy now.
    pub fn governance_checkpoint(&self, trace_id: &TraceId) -> (checkpoint: GovernanceCheckpoint)
        ensures
            checkpoint.label@ == "governance-check"@,
            checkpoint.passed == (self@.governance_verdict(*trace_id) is None),
            checkpoint.details is Some,
            checkpoint.details->0@ == "Governance policy validation"@,
    {
        let passed = self.validate_trace_governance(trace_id).is_ok();
        GovernanceCheckpoint::governance_check(passed)
    }

    /// Decides how a running task goes on after `event`. The governance
    /// state is read, never changed, and no outcome of the checkpoint stops
    /// the task.
    pub fn continue_agent_task(&self, phase: TaskPhase, event: TaskEvent) -> (step: (
        TaskPhase,
        TaskAction,
    ))
        ensures
            (step.0, step.1@) == self@.next_step(phase, event),
    {
        match phase {
            TaskPhase::Running { trace_id } => match event {
                TaskEvent::RunnerReturned => (
                    TaskPhase::PersistingTrace { trace_id },
                    TaskAction::PersistTrace { trace_id },
                ),
                TaskEvent::RunnerFailed => (TaskPhase::Failed, TaskAction::Propagate),
                _ => (phase, TaskAction::Nothing),
            },
            TaskPhase::PersistingTrace { trace_id } => match event {
                TaskEvent::Persisted => {
                    let checkpoint = self.governance_checkpoint(&trace_id);
                    (
                        TaskPhase::PersistingCheckpoint { trace_id },
                        TaskAction::PersistCheckpoint { trace_id, checkpoint },
                    )
                },
                TaskEvent::PersistFailed => (TaskPhase::Failed, TaskAction::Propagate),
                _ => (phase, TaskAction::Nothing),
            },
            TaskPhase::PersistingCheckpoint { trace_id } => match event {
                TaskEvent::Persisted => (
                    TaskPhase::Finished { trace_id },
                    TaskAction::Return { trace_id },
                ),
                TaskEvent::PersistFailed => (TaskPhase::Failed, TaskAction::Propagate),
                _ => (phase, TaskAction::Nothing),
            },
            _ => (phase, TaskAction::Nothing),
        }
    }
}

/// A task whose collaborators succeed is finished after three events, with
/// the trace id it started under, whatever the checkpoint says.
pub proof fn law_checkpoint_never_stops_a_task(state: GovernanceModel, trace_id: TraceId)
    ensures
        ({
            let ran = state.next_step(TaskPhase::Running { trace_id }, TaskEvent::RunnerReturned);
            let stored = state.next_step(ran.0, TaskEvent::Persisted);
            let checked = state.next_step(stored.0, TaskEvent::Persisted);
            &&& ran.1 == ActionRecord::PersistTrace { trace_id }
            &&& stored.1 == state.checkpoint_action(trace_id)
            &&& checked == (TaskPhase::Finished { trace_id }, ActionRecord::Return { trace_id })
        }),
{
}

} // verus!
