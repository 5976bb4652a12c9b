//! The heuristic anomaly scan of a task payload.

use crate::flags::{FlagRecord, Timestamp, TraceFlag, TraceFlagInfo};
use crate::ident::{now, TraceId};
use crate::json::{json_text, serialized};
use crate::orchestrator::{GovernanceModel, Orchestrator};
use crate::text::{chars_of, contains_in, contains_text, lowercase, to_lowercase};
use vstd::prelude::*;

verus! {

/// Severity of an automatically detected prompt-injection attempt.
pub const JAILBREAK_SEVERITY: u8 = 10;

/// Severity of an automatically detected destructive command.
pub const MALICIOUS_SEVERITY: u8 = 9;

/// What the scan found in a payload.
#[derive(Clone, Copy, Debug, PartialEq, Eq, Structural)]
pub struct Detection {
    /// A prompt-injection marker occurs.
    pub jailbreak: bool,
    /// A destructive-command marker occurs.
    pub malicious: bool,
}

/// Whether a lower-cased payload holds a prompt-injection marker.
pub open spec fn shows_jailbreak(lowered: Seq<char>) -> bool {
    contains_text(lowered, "jailbreak"@) || contains_text(lowered, "ignore previous"@)
}

/// Whether a lower-cased payload holds a destructive-command marker.
pub open spec fn shows_malice(lowered: Seq<char>) -> bool {
    contains_text(lowered, "rm -rf"@) || contains_text(lowered, "drop table"@)
}

/// The flag raised for a prompt-injection marker seen at time `seen`.
pub open spec fn jailbreak_record(seen: Timestamp) -> FlagRecord {
    FlagRecord {
        flag: TraceFlag::Jailbreak,
        reason: "Potential jailbreak attempt detected"@,
        timestamp: seen,
        severity: JAILBREAK_SEVERITY,
        auto_detected: true,
    }
}

/// The flag raised for a destructive-command marker seen at time `seen`.
pub open spec fn malicious_record(seen: Timestamp) -> FlagRecord {
    FlagRecord {
        flag: TraceFlag::Malicious,
        reason: "Potentially malicious command detected"@,
        timestamp: seen,
        severity: MALICIOUS_SEVERITY,
        auto_detected: true,
    }
}

/// What the scan finds in a payload: the markers are sought in its
/// lower-case form.
pub open spec fn detection_in(payload: Seq<char>) -> Detection {
    Detection {
        jailbreak: shows_jailbreak(lowercase(payload)),
        malicious: shows_malice(lowercase(payload)),
    }
}

impl GovernanceModel {
    /// Whether `after` is this state with `found` recorded against the
    /// trace, each flag stamped with some time.
    pub open spec fn recorded_into(
        self,
        after: GovernanceModel,
        trace_id: TraceId,
        found: Detection,
    ) -> bool {
        exists|jailbreak_seen: Timestamp, malicious_seen: Timestamp|
            after == #[trigger] self.record_detection(
                trace_id,
                found,
                jailbreak_seen,
                malicious_seen,
            )
    }

    /// Whether `after` is this state with the findings in `payload` recorded
    /// against the trace.
    pub open spec fn scanned_into(
        self,
        after: GovernanceModel,
        trace_id: TraceId,
        payload: Seq<char>,
    ) -> bool {
        self.recorded_into(after, trace_id, detection_in(payload))
    }

    /// The state after the findings of a scan were recorded against a trace:
    /// the jailbreak flag first, then the malicious one.
    pub open spec fn record_detection(
        self,
        trace_id: TraceId,
        found: Detection,
        jailbreak_seen: Timestamp,
        malicious_seen: Timestamp,
    ) -> GovernanceModel {
        let first = if found.jailbreak {
            self.flag(trace_id, jailbreak_record(jailbreak_seen))
        } else {
            self
        };
        if found.malicious {
            first.flag(trace_id, malicious_record(malicious_seen))
        } else {
            first
        }
    }
}

/// Scans a payload that is already in lower case for the two families of
/// markers.
pub fn scan_payload(lowered: &str) -> (found: Detection)
    ensures
        found.jailbreak == shows_jailbreak(lowered@),
        found.malicious == shows_malice(lowered@),
{
    let chars = chars_of(lowered);
    Detection {
        jailbreak: contains_in(&chars, "jailbreak") || contains_in(&chars, "ignore previous"),
        malicious: contains_in(&chars, "rm -rf") || contains_in(&chars, "drop table"),
    }
}

/// The flag raised for a prompt-injection marker.
pub fn jailbreak_flag(seen: Timestamp) -> (info: TraceFlagInfo)
    ensures
        info@ == jailbreak_record(seen),
        info.severity_in_scale(),
{
    TraceFlagInfo {
        flag: TraceFlag::Jailbreak,
        reason: "Potential jailbreak attempt detected".to_owned(),
        timestamp: seen,
        severity: JAILBREAK_SEVERITY,
        auto_detected: true,
    }
}

/// The flag raised for a destructive-command marker.
pub fn malicious_flag(seen: Timestamp) -> (info: TraceFlagInfo)
    ensures
        info@ == malicious_record(seen),
        info.severity_in_scale(),
{
    TraceFlagInfo {
        flag: TraceFlag::Malicious,
        reason: "Potentially malicious command detected".to_owned(),
        timestamp: seen,
        severity: MALICIOUS_SEVERITY,
        auto_detected: true,
    }
}

impl Orchestrator {
    /// Scans a task for anomalies in its serialized form, without regard to
    /// case, and records what it finds against the trace.
    pub fn detect_anomalies(&mut self, trace_id: &TraceId, task: &serde_json::Value) -> (found:
        Detection)
        ensures
            found == detection_in(json_text(*task)),
            old(self)@.scanned_into(final(self)@, *trace_id, json_text(*task)),
    {
        let payload = serialized(task);
        self.detect_in_payload(trace_id, payload.as_str())
    }

    /// Scans a serialized task payload without regard to case and records what
    /// it finds against the trace. Each flag carries the time at which it was
    /// raised.
    pub fn detect_in_payload(&mut self, trace_id: &TraceId, payload: &str) -> (found: Detection)
        ensures
            found == detection_in(payload@),
            old(self)@.scanned_into(final(self)@, *trace_id, payload@),
    {
        let lowered = to_lowercase(payload);
        let found = scan_payload(lowered.as_str());
        let ghost mut jailbreak_seen = Timestamp { secs: 0, nanos: 0 };
        let ghost mut malicious_seen = Timestamp { secs: 0, nanos: 0 };
        if found.jailbreak {
            let seen = now();
            proof {
                jailbreak_seen = seen;
            }
            self.flag_trace(*trace_id, jailbreak_flag(seen));
        }
        if found.malicious {
            let seen = now();
            proof {
                malicious_seen = seen;
            }
            self.flag_trace(*trace_id, malicious_flag(seen));
        }
        assert(self@ == old(self)@.record_detection(
            *trace_id,
            detection_in(payload@),
            jailbreak_seen,
            malicious_seen,
        ));
        found
    }
}

/// Whatever is detected is severe enough to quarantine: where the policy asks
/// for automatic quarantine, a trace with a finding is quarantined.
pub proof fn law_detection_quarantines(
    state: GovernanceModel,
    trace_id: TraceId,
    found: Detection,
    jailbreak_seen: Timestamp,
    malicious_seen: Timestamp,
)
    requires
        state.policy.auto_quarantine,
        found.jailbreak || found.malicious,
    ensures
        state.record_detection(trace_id, found, jailbreak_seen, malicious_seen).is_quarantined(
            trace_id,
        ),
{
}

/// A detected prompt-injection marker makes the merge gate refuse the trace
/// under any policy that blocks jailbreak traces.
pub proof fn law_detected_jailbreak_blocks_merge(
    state: GovernanceModel,
    trace_id: TraceId,
    found: Detection,
    jailbreak_seen: Timestamp,
    malicious_seen: Timestamp,
)
    requires
        state.policy.block_jailbreak_traces,
        found.jailbreak,
    ensures
        state.record_detection(trace_id, found, jailbreak_seen, malicious_seen).merge_verdict(
            trace_id,
        ) is Some,
{
    let after = state.record_detection(trace_id, found, jailbreak_seen, malicious_seen);
    let first = state.flag(trace_id, jailbreak_record(jailbreak_seen));
    let flags = after.flags_of(trace_id);
    let at = state.flags_of(trace_id).len() as int;
    assert(first.flags_of(trace_id)[at] == jailbreak_record(jailbreak_seen));
    assert(flags[at] == jailbreak_record(jailbreak_seen));
    assert(after.policy == state.policy);
    crate::policy::lemma_permits_iff_none_blocked(after.policy, flags);
    assert(after.policy.blocks(flags[at]));
}

} // verus!
