//! The declarative rule set and its validation of a trace's flags.

use crate::flags::{records, FlagRecord, TraceFlag, TraceFlagInfo};
use crate::format::{decimal, decimal_text};
use vstd::prelude::*;

verus! {

/// The gates that decide whether a flagged trace may be merged.
///
/// `max_anomaly_severity` bounds only the `Anomaly` check; every other flag is
/// either blocked outright or let through.
#[derive(Clone, Copy, Debug, PartialEq, Eq, Structural)]
pub struct GovernancePolicy {
    pub block_unsafe_merge: bool,
    pub require_provenance: bool,
    pub block_jailbreak_traces: bool,
    pub block_anomaly_traces: bool,
    pub max_anomaly_severity: u8,
    pub require_human_review: bool,
    pub auto_quarantine: bool,
    pub block_malicious_traces: bool,
}

/// Why a flag list was refused: the first flag that tripped a gate.
#[derive(Debug)]
pub struct PolicyViolation {
    /// The kind of the violating flag.
    pub flag: TraceFlag,
    /// The severity recorded with the flag.
    pub severity: u8,
    /// The policy's anomaly ceiling, which an `Anomaly` exceeded.
    pub threshold: u8,
    /// The reason recorded with the flag.
    pub reason: String,
}

/// The mathematical content of a [`PolicyViolation`].
pub struct ViolationRecord {
    pub flag: TraceFlag,
    pub severity: u8,
    pub threshold: u8,
    pub reason: Seq<char>,
}

impl View for PolicyViolation {
    type V = ViolationRecord;

    open spec fn view(&self) -> ViolationRecord {
        ViolationRecord {
            flag: self.flag,
            severity: self.severity,
            threshold: self.threshold,
            reason: self.reason@,
        }
    }
}

impl ViolationRecord {
    /// The violation in words: what was found, then the recorded reason.
    pub open spec fn message(self) -> Seq<char> {
        match self.flag {
            TraceFlag::Jailbreak => "Governance violation: Jailbreak detected - "@ + self.reason,
            TraceFlag::Anomaly => "Governance violation: Anomaly severity "@ + decimal_text(
                self.severity as nat,
            ) + " exceeds threshold "@ + decimal_text(self.threshold as nat) + " - "@
                + self.reason,
            TraceFlag::HighRisk | TraceFlag::Unsafe => "Governance violation: Unsafe operation - "@
                + self.reason,
            TraceFlag::Unverified => "Governance violation: Missing provenance - "@ + self.reason,
            TraceFlag::Malicious => "Governance violation: Malicious activity detected - "@
                + self.reason,
        }
    }
}

impl PolicyViolation {
    /// The violation in words.
    pub fn message(&self) -> (text: String)
        ensures
            text@ == self@.message(),
    {
        let mut text = String::new();
        match self.flag {
            TraceFlag::Jailbreak => {
                text.append("Governance violation: Jailbreak detected - ");
            },
            TraceFlag::Anomaly => {
                text.append("Governance violation: Anomaly severity ");
                text.append(decimal(self.severity).as_str());
                text.append(" exceeds threshold ");
                text.append(decimal(self.threshold).as_str());
                text.append(" - ");
            },
            TraceFlag::HighRisk | TraceFlag::Unsafe => {
                text.append("Governance violation: Unsafe operation - ");
            },
            TraceFlag::Unverified => {
                text.append("Governance violation: Missing provenance - ");
            },
            TraceFlag::Malicious => {
                text.append("Governance violation: Malicious activity detected - ");
            },
        }
        text.append(self.reason.as_str());
        assert(text@ =~= self@.message());
        text
    }
}

impl Default for GovernancePolicy {
    /// The balanced preset.
    fn default() -> (policy: Self)
        ensures
            policy == GovernancePolicy::balanced(),
    {
        GovernancePolicy {
            block_unsafe_merge: true,
            require_provenance: true,
            block_jailbreak_traces: true,
            block_anomaly_traces: true,
            max_anomaly_severity: 7,
            require_human_review: false,
            auto_quarantine: true,
            block_malicious_traces: true,
        }
    }
}

impl GovernancePolicy {
    /// The balanced preset: every gate closed, anomalies tolerated up to severity 7.
    pub open spec fn balanced() -> GovernancePolicy {
        GovernancePolicy {
            block_unsafe_merge: true,
            require_provenance: true,
            block_jailbreak_traces: true,
            block_anomaly_traces: true,
            max_anomaly_severity: 7,
            require_human_review: false,
            auto_quarantine: true,
            block_malicious_traces: true,
        }
    }

    /// The preset with every gate open.
    pub open spec fn open_gates() -> GovernancePolicy {
        GovernancePolicy {
            block_unsafe_merge: false,
            require_provenance: false,
            block_jailbreak_traces: false,
            block_anomaly_traces: false,
            max_anomaly_severity: 10,
            require_human_review: false,
            auto_quarantine: false,
            block_malicious_traces: false,
        }
    }

    /// The tight preset: anomalies tolerated up to severity 5, human review required.
    pub open spec fn tight() -> GovernancePolicy {
        GovernancePolicy {
            block_unsafe_merge: true,
            require_provenance: true,
            block_jailbreak_traces: true,
            block_anomaly_traces: true,
            max_anomaly_severity: 5,
            require_human_review: true,
            auto_quarantine: true,
            block_malicious_traces: true,
        }
    }

    /// Whether the severity ceiling lies on the severity scale.
    pub open spec fn ceiling_in_scale(self) -> bool {
        1 <= self.max_anomaly_severity <= 10
    }

    pub fn permissive() -> (policy: Self)
        ensures
            policy == GovernancePolicy::open_gates(),
            policy.ceiling_in_scale(),
    {
        GovernancePolicy {
            block_unsafe_merge: false,
            require_provenance: false,
            block_jailbreak_traces: false,
            block_anomaly_traces: false,
            max_anomaly_severity: 10,
            require_human_review: false,
            auto_quarantine: false,
            block_malicious_traces: false,
        }
    }

    pub fn strict() -> (policy: Self)
        ensures
            policy == GovernancePolicy::tight(),
            policy.ceiling_in_scale(),
    {
        GovernancePolicy {
            block_unsafe_merge: true,
            require_provenance: true,
            block_jailbreak_traces: true,
            block_anomaly_traces: true,
            max_anomaly_severity: 5,
            require_human_review: true,
            auto_quarantine: true,
            block_malicious_traces: true,
        }
    }

    /// Whether one flag trips a gate of this policy.
    pub open spec fn blocks(self, f: FlagRecord) -> bool {
        match f.flag {
            TraceFlag::Jailbreak => self.block_jailbreak_traces,
            TraceFlag::Anomaly => self.block_anomaly_traces && f.severity
                > self.max_anomaly_severity,
            TraceFlag::HighRisk | TraceFlag::Unsafe => self.block_unsafe_merge,
            TraceFlag::Unverified => self.require_provenance,
            TraceFlag::Malicious => self.block_malicious_traces,
        }
    }

    /// What is reported when `f` trips a gate.
    pub open spec fn violation_of(self, f: FlagRecord) -> ViolationRecord {
        ViolationRecord {
            flag: f.flag,
            severity: f.severity,
            threshold: self.max_anomaly_severity,
            reason: f.reason,
        }
    }

    /// The position of the first flag at or after `start` that trips a gate.
    pub open spec fn first_blocked_from(self, flags: Seq<FlagRecord>, start: int) -> Option<int>
        decreases flags.len() - start,
    {
        if start < 0 || start >= flags.len() {
            None
        } else if self.blocks(flags[start]) {
            Some(start)
        } else {
            self.first_blocked_from(flags, start + 1)
        }
    }

    /// What validation of `flags` yields: nothing, or the violation of the
    /// first flag in recording order that trips a gate.
    pub open spec fn verdict(self, flags: Seq<FlagRecord>) -> Option<ViolationRecord> {
        match self.first_blocked_from(flags, 0) {
            Some(i) => Some(self.violation_of(flags[i])),
            None => None,
        }
    }

    /// Whether `flags` passes every gate.
    pub open spec fn permits(self, flags: Seq<FlagRecord>) -> bool {
        self.verdict(flags) is None
    }

    /// Decides whether one flag trips a gate.
    pub fn is_blocked(&self, info: &TraceFlagInfo) -> (blocked: bool)
        ensures
            blocked == self.blocks(info@),
    {
        match info.flag {
            TraceFlag::Jailbreak => self.block_jailbreak_traces,
            TraceFlag::Anomaly => self.block_anomaly_traces && info.severity
                > self.max_anomaly_severity,
            TraceFlag::HighRisk | TraceFlag::Unsafe => self.block_unsafe_merge,
            TraceFlag::Unverified => self.require_provenance,
            TraceFlag::Malicious => self.block_malicious_traces,
        }
    }

    /// Validates a trace's flags in recording order and fails fast on the first
    /// one that trips a gate.
    pub fn validate_trace(&self, flags: &[TraceFlagInfo]) -> (outcome: Result<(), PolicyViolation>)
        ensures
            match outcome {
                Ok(()) => self.verdict(records(flags@)) is None,
                Err(violation) => self.verdict(records(flags@)) == Some(violation@),
            },
    {
        let ghost recs = records(flags@);
        let mut i: usize = 0;
        while i < flags.len()
            invariant
                i <= flags.len(),
                recs == records(flags@),
                self.first_blocked_from(recs, 0) == self.first_blocked_from(recs, i as int),
            decreases flags.len() - i,
        {
            let info = &flags[i];
            if self.is_blocked(info) {
                return Err(
                    PolicyViolation {
                        flag: info.flag,
                        severity: info.severity,
                        threshold: self.max_anomaly_severity,
                        reason: info.reason.clone(),
                    },
                );
            }
            i += 1;
        }
        Ok(())
    }
}

/// A flag list passes exactly when none of its flags trips a gate; otherwise
/// the flag reported is the earliest one that does.
pub proof fn lemma_first_blocked(policy: GovernancePolicy, flags: Seq<FlagRecord>, start: int)
    requires
        0 <= start,
    ensures
        match policy.first_blocked_from(flags, start) {
            None => forall|j: int| start <= j < flags.len() ==> !policy.blocks(#[trigger] flags[j]),
            Some(i) => start <= i < flags.len() && policy.blocks(flags[i]) && forall|j: int|
                start <= j < i ==> !policy.blocks(#[trigger] flags[j]),
        },
    decreases flags.len() - start,
{
    if start < flags.len() && !policy.blocks(flags[start]) {
        lemma_first_blocked(policy, flags, start + 1);
    }
}

/// A flag list passes exactly when none of its flags trips a gate.
pub proof fn lemma_permits_iff_none_blocked(policy: GovernancePolicy, flags: Seq<FlagRecord>)
    ensures
        policy.permits(flags) <==> forall|j: int|
            0 <= j < flags.len() ==> !policy.blocks(#[trigger] flags[j]),
{
    lemma_first_blocked(policy, flags, 0);
}

/// A refusal reports the earliest flag that trips a gate.
pub proof fn law_refusal_names_first_violation(policy: GovernancePolicy, flags: Seq<FlagRecord>)
    requires
        !policy.permits(flags),
    ensures
        exists|i: int|
            0 <= i < flags.len() && policy.blocks(flags[i]) && policy.verdict(flags) == Some(
                policy.violation_of(flags[i]),
            ) && forall|j: int| 0 <= j < i ==> !policy.blocks(#[trigger] flags[j]),
{
    lemma_first_blocked(policy, flags, 0);
    let i = policy.first_blocked_from(flags, 0)->0;
    assert(0 <= i < flags.len() && policy.blocks(flags[i]) && policy.verdict(flags) == Some(
        policy.violation_of(flags[i]),
    ) && forall|j: int| 0 <= j < i ==> !policy.blocks(#[trigger] flags[j]));
}

/// Any flag list that holds a `Jailbreak` flag is refused by the balanced and
/// the tight preset.
pub proof fn law_jailbreak_refused_by_closed_presets(flags: Seq<FlagRecord>, at: int)
    requires
        0 <= at < flags.len(),
        flags[at].flag == TraceFlag::Jailbreak,
    ensures
        !GovernancePolicy::balanced().permits(flags),
        !GovernancePolicy::tight().permits(flags),
{
    lemma_permits_iff_none_blocked(GovernancePolicy::balanced(), flags);
    lemma_permits_iff_none_blocked(GovernancePolicy::tight(), flags);
    assert(GovernancePolicy::balanced().blocks(flags[at]));
    assert(GovernancePolicy::tight().blocks(flags[at]));
}

/// The preset with every gate open permits every flag list, one that holds a
/// `Jailbreak` flag included.
pub proof fn law_open_gates_permit_everything(flags: Seq<FlagRecord>)
    ensures
        GovernancePolicy::open_gates().permits(flags),
{
    lemma_permits_iff_none_blocked(GovernancePolicy::open_gates(), flags);
}

/// Where the anomaly gate is closed, any flag list that holds an `Anomaly`
/// above the policy's ceiling is refused.
pub proof fn law_anomaly_above_ceiling_refused(
    policy: GovernancePolicy,
    flags: Seq<FlagRecord>,
    at: int,
)
    requires
        policy.block_anomaly_traces,
        0 <= at < flags.len(),
        flags[at].flag == TraceFlag::Anomaly,
        flags[at].severity > policy.max_anomaly_severity,
    ensures
        !policy.permits(flags),
{
    lemma_permits_iff_none_blocked(policy, flags);
    assert(policy.blocks(flags[at]));
}

/// An `Anomaly` at or below the ceiling never trips a gate: a refusal that
/// names an `Anomaly` carries a severity above the ceiling, and a list made of
/// such anomalies alone is permitted.
pub proof fn law_anomaly_within_ceiling_passes(policy: GovernancePolicy, flags: Seq<FlagRecord>)
    ensures
        forall|f: FlagRecord|
            f.flag == TraceFlag::Anomaly && f.severity <= policy.max_anomaly_severity
                ==> !#[trigger] policy.blocks(f),
        match policy.verdict(flags) {
            Some(violation) => violation.flag == TraceFlag::Anomaly ==> violation.severity
                > policy.max_anomaly_severity,
            None => true,
        },
        (forall|j: int|
            0 <= j < flags.len() ==> (#[trigger] flags[j]).flag == TraceFlag::Anomaly
                && flags[j].severity <= policy.max_anomaly_severity) ==> policy.permits(flags),
{
    lemma_first_blocked(policy, flags, 0);
    lemma_permits_iff_none_blocked(policy, flags);
}

} // verus!
