//! Governance of autonomous agent traces: flags, policy gates, quarantine and
//! the merge gate.

pub mod dataset;
pub mod detection;
pub mod flags;
pub mod format;
pub mod ident;
pub mod intent;
pub mod json;
pub mod knee;
pub mod metrics;
pub mod orchestrator;
pub mod policy;
pub mod question;
pub mod runners;
pub mod safety;
pub mod stats;
pub mod storage;
pub mod task;
pub mod text;
pub mod types;

pub use detection::{jailbreak_flag, malicious_flag, scan_payload, Detection};
pub use flags::{FlagRecord, Timestamp, TraceFlag, TraceFlagInfo};
pub use ident::{SessionId, TraceId};
pub use orchestrator::{GovernanceModel, MergeError, MergeRefusal, Orchestrator};
pub use policy::{GovernancePolicy, PolicyViolation, ViolationRecord};
pub use stats::{FlagCounts, GovernanceStats};
pub use task::{ActionRecord, TaskAction, TaskEvent, TaskPhase};
pub use types::{AgentConfig, GovernanceCheckpoint, Provenance, Session, SessionConfig};
pub use intent::Intent;
pub use runners::{LargeModelRunner, LlamaRunner, PythonRunner, RunnerConfig, RunnerKind};
pub use question::{IntentKeywords, IntentMatch, ParsedQuestion, QuestionParser};
pub use knee::{knee_by_chord_distance, knee_by_curvature};
pub use dataset::{DatasetStats, IntentCount, MuISQADataset, MuISQAEntry};
pub use storage::{make_key, FileStorage};
