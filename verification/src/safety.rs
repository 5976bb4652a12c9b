//! Governance of questions by their intents: a question that asks with
//! confidence for an opinion or poses a hypothesis is flagged as a risk.

use crate::flags::{FlagRecord, Timestamp, TraceFlag, TraceFlagInfo};
use crate::ident::{now, SessionId, TraceId};
use crate::intent::Intent;
use crate::orchestrator::{GovernanceModel, MergeError, Orchestrator};
use crate::question::IntentMatch;
use vstd::prelude::*;

verus! {

/// Severity of the flag raised for a sensitive intent.
pub const SENSITIVE_INTENT_SEVERITY: u8 = 6;

/// Whether an intent was matched with confidence: more than seven in ten
/// of its keywords occur.
pub open spec fn is_confident(found: IntentMatch) -> bool {
    10 * found.matches > 7 * found.keywords
}

/// Whether a match calls for a flag: a confident match of an opinion or a
/// hypothesis.
pub open spec fn is_sensitive(found: IntentMatch) -> bool {
    is_confident(found) && (found.intent == Intent::Opinion || found.intent
        == Intent::Hypothetical)
}

/// The flag raised for a sensitive intent seen at time `seen`.
pub open spec fn sensitive_record(intent: Intent, seen: Timestamp) -> FlagRecord {
    FlagRecord {
        flag: TraceFlag::HighRisk,
        reason: "High-confidence "@ + intent.name() + " intent detected"@,
        timestamp: seen,
        severity: SENSITIVE_INTENT_SEVERITY,
        auto_detected: true,
    }
}

impl GovernanceModel {
    /// The state after every sensitive match of a question was flagged
    /// against its trace, in order, the flag for the match at position `i`
    /// stamped with `times[i]`.
    pub open spec fn flag_sensitive(
        self,
        trace_id: TraceId,
        found: Seq<IntentMatch>,
        times: Seq<Timestamp>,
    ) -> GovernanceModel
        decreases found.len(),
    {
        if found.len() == 0 {
            self
        } else {
            let earlier = self.flag_sensitive(trace_id, found.drop_last(), times.drop_last());
            if is_sensitive(found.last()) {
                earlier.flag(trace_id, sensitive_record(found.last().intent, times.last()))
            } else {
                earlier
            }
        }
    }

    /// Whether `after` is this state with the sensitive matches flagged, each
    /// flag stamped with some time.
    pub open spec fn flagged_sensitive_into(
        self,
        after: GovernanceModel,
        trace_id: TraceId,
        found: Seq<IntentMatch>,
    ) -> bool {
        exists|times: Seq<Timestamp>|
            times.len() == found.len() && after == #[trigger] self.flag_sensitive(
                trace_id,
                found,
                times,
            )
    }
}

/// Decides whether a match calls for a flag.
pub fn calls_for_flag(found: &IntentMatch) -> (sensitive: bool)
    ensures
        sensitive == is_sensitive(*found),
{
    let confident = 10 * (found.matches as u128) > 7 * (found.keywords as u128);
    confident && (found.intent == Intent::Opinion || found.intent == Intent::Hypothetical)
}

/// The flag raised for a sensitive intent.
pub fn sensitive_flag(intent: Intent, seen: Timestamp) -> (info: TraceFlagInfo)
    ensures
        info@ == sensitive_record(intent, seen),
        info.severity_in_scale(),
{
    let mut reason = "High-confidence ".to_owned();
    reason.append(intent.as_str());
    reason.append(" intent detected");
    TraceFlagInfo {
        flag: TraceFlag::HighRisk,
        reason,
        timestamp: seen,
        severity: SENSITIVE_INTENT_SEVERITY,
        auto_detected: true,
    }
}

impl Orchestrator {
    /// Flags every sensitive match of a question against its trace. Each
    /// flag carries the time at which it was raised.
    pub fn flag_sensitive_intents(&mut self, trace_id: TraceId, found: &Vec<IntentMatch>)
        ensures
            old(self)@.flagged_sensitive_into(final(self)@, trace_id, found@),
    {
        let ghost mut times: Seq<Timestamp> = Seq::empty();
        let mut i: usize = 0;
        while i < found.len()
            invariant
                i <= found.len(),
                times.len() == i,
                self@ == old(self)@.flag_sensitive(trace_id, found@.subrange(0, i as int), times),
            decreases found.len() - i,
        {
            let ghost mut stamp = Timestamp { secs: 0, nanos: 0 };
            if calls_for_flag(&found[i]) {
                let seen = now();
                proof {
                    stamp = seen;
                }
                self.flag_trace(trace_id, sensitive_flag(found[i].intent, seen));
            }
            proof {
                assert(found@.subrange(0, i + 1).drop_last() =~= found@.subrange(0, i as int));
                assert(times.push(stamp).drop_last() =~= times);
                times = times.push(stamp);
            }
            i += 1;
        }
        assert(found@.subrange(0, found.len() as int) =~= found@);
    }

    /// Flags the sensitive matches of a question and then asks the merge
    /// gate about its trace.
    pub fn check_intent_safety(
        &mut self,
        session_id: SessionId,
        trace_id: TraceId,
        found: &Vec<IntentMatch>,
    ) -> (outcome: Result<(), MergeError>)
        ensures
            old(self)@.flagged_sensitive_into(final(self)@, trace_id, found@),
            match outcome {
                Ok(()) => final(self)@.merge_verdict(trace_id) is None,
                Err(refusal) => final(self)@.merge_verdict(trace_id) == Some(refusal@),
            },
    {
        self.flag_sensitive_intents(trace_id, found);
        self.validate_merge(session_id, trace_id)
    }
}

/// Flags for sensitive intents are never severe enough to quarantine.
pub proof fn law_sensitive_flags_do_not_quarantine(
    state: GovernanceModel,
    trace_id: TraceId,
    found: Seq<IntentMatch>,
    times: Seq<Timestamp>,
)
    ensures
        state.flag_sensitive(trace_id, found, times).quarantined == state.quarantined,
        state.flag_sensitive(trace_id, found, times).policy == state.policy,
    decreases found.len(),
{
    if found.len() > 0 {
        law_sensitive_flags_do_not_quarantine(
            state,
            trace_id,
            found.drop_last(),
            times.drop_last(),
        );
    }
}

} // verus!
