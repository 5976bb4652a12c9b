//! Records that accompany a trace, and the session that groups traces.

use crate::ident::{is_random_id, new_random_id, SessionId};
use vstd::prelude::*;

verus! {

/// Where a piece of a trace came from and what was done to it.
#[derive(Clone, Debug)]
pub struct Provenance {
    pub source: String,
    pub operation: String,
    pub rationale: Option<String>,
}

/// The state of policy validation for a trace at one point in time.
#[derive(Clone, Debug)]
pub struct GovernanceCheckpoint {
    pub label: String,
    pub passed: bool,
    pub details: Option<String>,
}

/// The configuration of a session.
#[derive(Clone, Debug)]
pub struct SessionConfig {
    pub name: String,
    pub max_concurrency: usize,
    pub allow_network: bool,
}

/// A session: an identity and a configuration.
#[derive(Clone, Debug)]
pub struct Session {
    pub id: SessionId,
    pub cfg: SessionConfig,
}

/// The configuration of an agent.
#[derive(Clone, Debug)]
pub struct AgentConfig {
    pub name: String,
    pub objective: String,
}

impl Session {
    /// Opens a session under a new random identifier.
    pub fn new(cfg: SessionConfig) -> (session: Self)
        ensures
            session.cfg == cfg,
            is_random_id(session.id),
    {
        Session { id: new_random_id(), cfg }
    }
}

impl GovernanceCheckpoint {
    /// The checkpoint written once a task has run: it records whether the
    /// trace's flags passed the policy at that time.
    pub fn governance_check(passed: bool) -> (checkpoint: Self)
        ensures
            checkpoint.label@ == "governance-check"@,
            checkpoint.passed == passed,
            checkpoint.details is Some,
            checkpoint.details->0@ == "Governance policy validation"@,
    {
        GovernanceCheckpoint {
            label: "governance-check".to_owned(),
            passed,
            details: Some("Governance policy validation".to_owned()),
        }
    }
}

} // verus!
