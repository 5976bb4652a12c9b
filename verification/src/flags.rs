//! Governance flags: the concerns that can be recorded against a trace.

use crate::text::same_text;
use vstd::prelude::*;

verus! {

/// The closed set of governance concerns that can be recorded against a trace.
#[derive(Clone, Copy, Debug, PartialEq, Eq, Structural, Hash)]
pub enum TraceFlag {
    Jailbreak,
    Anomaly,
    HighRisk,
    Unsafe,
    Unverified,
    Malicious,
}

/// A point in time as seconds and nanoseconds since the Unix epoch (UTC).
#[derive(Clone, Copy, Debug, PartialEq, Eq, Structural, Hash)]
pub struct Timestamp {
    pub secs: i64,
    pub nanos: u32,
}

/// One recorded concern about a trace. Never changed once recorded.
#[derive(Debug)]
pub struct TraceFlagInfo {
    pub flag: TraceFlag,
    pub reason: String,
    pub timestamp: Timestamp,
    /// Severity on a scale from 1 (lowest) to 10 (highest).
    pub severity: u8,
    pub auto_detected: bool,
}

/// The mathematical content of a [`TraceFlagInfo`].
pub struct FlagRecord {
    pub flag: TraceFlag,
    pub reason: Seq<char>,
    pub timestamp: Timestamp,
    pub severity: u8,
    pub auto_detected: bool,
}

impl View for TraceFlagInfo {
    type V = FlagRecord;

    open spec fn view(&self) -> FlagRecord {
        FlagRecord {
            flag: self.flag,
            reason: self.reason@,
            timestamp: self.timestamp,
            severity: self.severity,
            auto_detected: self.auto_detected,
        }
    }
}

impl Clone for TraceFlagInfo {
    fn clone(&self) -> (copy: Self)
        ensures
            copy == *self,
    {
        TraceFlagInfo {
            flag: self.flag,
            reason: self.reason.clone(),
            timestamp: self.timestamp,
            severity: self.severity,
            auto_detected: self.auto_detected,
        }
    }
}

/// The kind of flag that a name in a flag request stands for. A request
/// cannot name `Unverified`.
pub open spec fn flag_requested(name: Seq<char>) -> Option<TraceFlag> {
    if name == "jailbreak"@ {
        Some(TraceFlag::Jailbreak)
    } else if name == "anomaly"@ {
        Some(TraceFlag::Anomaly)
    } else if name == "high_risk"@ {
        Some(TraceFlag::HighRisk)
    } else if name == "unsafe"@ {
        Some(TraceFlag::Unsafe)
    } else if name == "malicious"@ {
        Some(TraceFlag::Malicious)
    } else {
        None
    }
}

impl TraceFlag {
    /// Reads the kind of flag from its name in a flag request.
    pub fn from_request_name(name: &str) -> (kind: Option<TraceFlag>)
        ensures
            kind == flag_requested(name@),
    {
        if same_text(name, "jailbreak") {
            Some(TraceFlag::Jailbreak)
        } else if same_text(name, "anomaly") {
            Some(TraceFlag::Anomaly)
        } else if same_text(name, "high_risk") {
            Some(TraceFlag::HighRisk)
        } else if same_text(name, "unsafe") {
            Some(TraceFlag::Unsafe)
        } else if same_text(name, "malicious") {
            Some(TraceFlag::Malicious)
        } else {
            None
        }
    }
}

impl TraceFlagInfo {
    /// The flag that a flag request asks for, raised by hand at time `seen`;
    /// none where the request names no kind of flag.
    pub fn requested(kind_name: &str, reason: String, severity: u8, seen: Timestamp) -> (info:
        Option<TraceFlagInfo>)
        ensures
            match flag_requested(kind_name@) {
                Some(kind) => info is Some && info->0 == (TraceFlagInfo {
                    flag: kind,
                    reason,
                    timestamp: seen,
                    severity,
                    auto_detected: false,
                }),
                None => info is None,
            },
    {
        match TraceFlag::from_request_name(kind_name) {
            Some(kind) => Some(
                TraceFlagInfo {
                    flag: kind,
                    reason,
                    timestamp: seen,
                    severity,
                    auto_detected: false,
                },
            ),
            None => None,
        }
    }

    /// Whether the severity lies on the documented scale.
    pub open spec fn severity_in_scale(&self) -> bool {
        1 <= self.severity <= 10
    }
}

/// The records of a list of flags, in the same order.
pub open spec fn records(flags: Seq<TraceFlagInfo>) -> Seq<FlagRecord> {
    Seq::new(flags.len(), |i: int| flags[i]@)
}

/// Appending a flag appends its record.
pub proof fn lemma_records_push(flags: Seq<TraceFlagInfo>, info: TraceFlagInfo)
    ensures
        records(flags.push(info)) == records(flags).push(info@),
{
    assert(records(flags.push(info)) =~= records(flags).push(info@));
}

/// Copies a list of flags.
pub fn clone_flags(flags: &Vec<TraceFlagInfo>) -> (copy: Vec<TraceFlagInfo>)
    ensures
        copy@ == flags@,
{
    let mut copy: Vec<TraceFlagInfo> = Vec::new();
    let mut i: usize = 0;
    while i < flags.len()
        invariant
            i <= flags.len(),
            copy@ == flags@.subrange(0, i as int),
        decreases flags.len() - i,
    {
        copy.push(flags[i].clone());
        assert(copy@ =~= flags@.subrange(0, i + 1));
        i += 1;
    }
    assert(copy@ =~= flags@);
    copy
}

} // verus!
