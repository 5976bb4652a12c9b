//! The governance state of an orchestrator: flags per trace, quarantine, and
//! the merge gate.

use crate::flags::{
    clone_flags, lemma_records_push, records, FlagRecord, TraceFlag, TraceFlagInfo,
};
use crate::ident::{hyphenated, id_text, SessionId, TraceId};
use crate::policy::{GovernancePolicy, PolicyViolation, ViolationRecord};
use crate::stats::{
    lemma_total_by_enumeration, occurrences_in_all, saturated, total_occurrences, FlagCounts,
    GovernanceStats,
};
use std::collections::HashMap;
use vstd::prelude::*;
use vstd::std_specs::iter::IteratorSpec;

verus! {

broadcast use vstd::std_specs::hash::group_hash_axioms;

/// A flag of at least this severity quarantines its trace where the policy
/// asks for automatic quarantine.
pub const AUTO_QUARANTINE_SEVERITY: u8 = 8;

/// The governance state as mathematics: the policy, the flags recorded per
/// trace in recording order, and the quarantine reasons.
pub struct GovernanceModel {
    pub policy: GovernancePolicy,
    pub flagged: Map<TraceId, Seq<FlagRecord>>,
    pub quarantined: Map<TraceId, Seq<char>>,
}

/// Why a merge was refused.
#[derive(Debug)]
pub enum MergeError {
    /// The trace is quarantined; this veto does not depend on its flags.
    Quarantined { trace_id: TraceId, reason: String },
    /// A flag of the trace trips a gate of the policy.
    Policy(PolicyViolation),
}

/// The mathematical content of a [`MergeError`].
pub enum MergeRefusal {
    Quarantined { trace_id: TraceId, reason: Seq<char> },
    Policy(ViolationRecord),
}

impl View for MergeError {
    type V = MergeRefusal;

    open spec fn view(&self) -> MergeRefusal {
        match self {
            MergeError::Quarantined { trace_id, reason } => MergeRefusal::Quarantined {
                trace_id: *trace_id,
                reason: reason@,
            },
            MergeError::Policy(violation) => MergeRefusal::Policy(violation@),
        }
    }
}

impl MergeRefusal {
    /// The refusal in words.
    pub open spec fn message(self) -> Seq<char> {
        match self {
            MergeRefusal::Quarantined { trace_id, reason } => "Cannot merge quarantined trace "@
                + hyphenated(trace_id) + ": "@ + reason,
            MergeRefusal::Policy(violation) => violation.message(),
        }
    }
}

impl MergeError {
    /// The refusal in words.
    pub fn message(&self) -> (text: String)
        ensures
            text@ == self@.message(),
    {
        match self {
            MergeError::Quarantined { trace_id, reason } => {
                let mut text = String::new();
                text.append("Cannot merge quarantined trace ");
                text.append(id_text(*trace_id).as_str());
                text.append(": ");
                text.append(reason.as_str());
                assert(text@ =~= self@.message());
                text
            },
            MergeError::Policy(violation) => violation.message(),
        }
    }
}

impl GovernanceModel {
    /// The state before anything was flagged or quarantined.
    pub open spec fn initial(policy: GovernancePolicy) -> GovernanceModel {
        GovernanceModel { policy, flagged: Map::empty(), quarantined: Map::empty() }
    }

    /// The flags recorded for a trace, oldest first; none for an unknown trace.
    pub open spec fn flags_of(self, trace_id: TraceId) -> Seq<FlagRecord> {
        if self.flagged.contains_key(trace_id) {
            self.flagged[trace_id]
        } else {
            Seq::empty()
        }
    }

    pub open spec fn is_quarantined(self, trace_id: TraceId) -> bool {
        self.quarantined.contains_key(trace_id)
    }

    /// Quarantining records the reason; a later reason replaces an earlier one.
    pub open spec fn quarantine(self, trace_id: TraceId, reason: Seq<char>) -> GovernanceModel {
        GovernanceModel { quarantined: self.quarantined.insert(trace_id, reason), ..self }
    }

    /// Whether recording `info` quarantines its trace.
    pub open spec fn triggers_quarantine(self, info: FlagRecord) -> bool {
        self.policy.auto_quarantine && info.severity >= AUTO_QUARANTINE_SEVERITY
    }

    /// Flagging appends to the trace's list and, where the policy asks for it
    /// and the flag is severe enough, quarantines the trace with the flag's reason.
    pub open spec fn flag(self, trace_id: TraceId, info: FlagRecord) -> GovernanceModel {
        let appended = GovernanceModel {
            flagged: self.flagged.insert(trace_id, self.flags_of(trace_id).push(info)),
            ..self
        };
        if self.triggers_quarantine(info) {
            appended.quarantine(trace_id, info.reason)
        } else {
            appended
        }
    }

    /// Whether the state holds finitely many traces: finitely many have a
    /// flag list and finitely many are quarantined.
    pub open spec fn is_finite(self) -> bool {
        self.flagged.dom().finite() && self.quarantined.dom().finite()
    }

    /// The number of quarantined traces.
    pub open spec fn quarantined_count(self) -> nat {
        self.quarantined.dom().len()
    }

    /// The number of traces that have a flag list.
    pub open spec fn flagged_count(self) -> nat {
        self.flagged.dom().len()
    }

    /// Whether every trace that has a flag list has a flag: a list comes
    /// into being with its first flag.
    pub open spec fn lists_hold_flags(self) -> bool {
        forall|trace_id: TraceId| #[trigger]
            self.flagged.contains_key(trace_id) ==> self.flagged[trace_id].len() > 0
    }

    /// What the policy says of the flags of a trace.
    pub open spec fn governance_verdict(self, trace_id: TraceId) -> Option<ViolationRecord> {
        self.policy.verdict(self.flags_of(trace_id))
    }

    /// What the merge gate says of a trace: the quarantine veto comes first,
    /// then the policy's verdict on the trace's flags.
    pub open spec fn merge_verdict(self, trace_id: TraceId) -> Option<MergeRefusal> {
        if self.is_quarantined(trace_id) {
            Some(MergeRefusal::Quarantined { trace_id, reason: self.quarantined[trace_id] })
        } else {
            match self.governance_verdict(trace_id) {
                Some(violation) => Some(MergeRefusal::Policy(violation)),
                None => None,
            }
        }
    }
}

/// Owns the flags and quarantine records of all traces and guards merges
/// with its policy.
pub struct Orchestrator {
    policy: GovernancePolicy,
    flagged_traces: HashMap<TraceId, Vec<TraceFlagInfo>>,
    quarantined_traces: HashMap<TraceId, String>,
}

impl View for Orchestrator {
    type V = GovernanceModel;

    closed spec fn view(&self) -> GovernanceModel {
        GovernanceModel {
            policy: self.policy,
            flagged: Map::new(
                |id: TraceId| self.flagged_traces@.contains_key(id),
                |id: TraceId| records(self.flagged_traces@[id]@),
            ),
            quarantined: Map::new(
                |id: TraceId| self.quarantined_traces@.contains_key(id),
                |id: TraceId| self.quarantined_traces@[id]@,
            ),
        }
    }
}

impl Orchestrator {
    pub fn new(policy: GovernancePolicy) -> (orchestrator: Self)
        ensures
            orchestrator@ == GovernanceModel::initial(policy),
            orchestrator@.is_finite(),
    {
        let orchestrator = Orchestrator {
            policy,
            flagged_traces: HashMap::new(),
            quarantined_traces: HashMap::new(),
        };
        assert(orchestrator@.flagged =~= Map::empty());
        assert(orchestrator@.quarantined =~= Map::empty());
        orchestrator
    }

    /// Every state of an orchestrator holds finitely many traces.
    pub proof fn lemma_state_is_finite(&self)
        ensures
            self@.is_finite(),
    {
        assert(self@.flagged.dom() =~= self.flagged_traces@.dom());
        assert(self@.quarantined.dom() =~= self.quarantined_traces@.dom());
    }

    /// The policy that this orchestrator enforces.
    pub fn policy(&self) -> (policy: GovernancePolicy)
        ensures
            policy == self@.policy,
    {
        self.policy
    }

    /// Quarantines a trace. Quarantining again replaces the reason; the
    /// number of quarantined traces grows by one exactly when the trace was
    /// not quarantined before.
    pub fn quarantine_trace(&mut self, trace_id: TraceId, reason: String)
        ensures
            final(self)@ == old(self)@.quarantine(trace_id, reason@),
            final(self)@.is_finite(),
            final(self)@.quarantined_count() == old(self)@.quarantined_count() + if old(
                self,
            )@.is_quarantined(trace_id) {
                0nat
            } else {
                1nat
            },
    {
        proof {
            old(self).lemma_state_is_finite();
            law_quarantine_count(old(self)@, trace_id, reason@);
        }
        self.quarantined_traces.insert(trace_id, reason);
        assert(self@.quarantined =~= old(self)@.quarantined.insert(trace_id, reason@));
    }

    /// Records a flag against a trace and quarantines the trace where the
    /// policy asks for it.
    pub fn flag_trace(&mut self, trace_id: TraceId, flag_info: TraceFlagInfo)
        ensures
            final(self)@ == old(self)@.flag(trace_id, flag_info@),
            final(self)@.is_finite(),
    {
        let severity = flag_info.severity;
        let reason = flag_info.reason.clone();
        let mut flags = match self.flagged_traces.remove(&trace_id) {
            Some(existing) => existing,
            None => Vec::new(),
        };
        proof {
            assert(self.flagged_traces@ == old(self).flagged_traces@.remove(trace_id));
            assert(records(flags@) =~= old(self)@.flags_of(trace_id));
            lemma_records_push(flags@, flag_info);
        }
        flags.push(flag_info);
        self.flagged_traces.insert(trace_id, flags);
        assert(self.flagged_traces@ == old(self).flagged_traces@.remove(trace_id).insert(
            trace_id,
            flags,
        ));
        assert(self@.flagged =~= old(self)@.flagged.insert(
            trace_id,
            old(self)@.flags_of(trace_id).push(flag_info@),
        ));
        if self.policy.auto_quarantine && severity >= AUTO_QUARANTINE_SEVERITY {
            self.quarantine_trace(trace_id, reason);
        }
        proof {
            self.lemma_state_is_finite();
        }
    }

    /// All flags recorded for a trace, oldest first.
    pub fn get_trace_flags(&self, trace_id: &TraceId) -> (flags: Vec<TraceFlagInfo>)
        ensures
            records(flags@) == self@.flags_of(*trace_id),
    {
        match self.flagged_traces.get(trace_id) {
            Some(flags) => clone_flags(flags),
            None => {
                let none: Vec<TraceFlagInfo> = Vec::new();
                assert(records(none@) =~= Seq::empty());
                none
            },
        }
    }

    /// Whether a trace is quarantined.
    pub fn is_quarantined(&self, trace_id: &TraceId) -> (quarantined: bool)
        ensures
            quarantined == self@.is_quarantined(*trace_id),
    {
        self.quarantined_traces.contains_key(trace_id)
    }

    /// Validates the flags of a trace against the policy.
    pub fn validate_trace_governance(&self, trace_id: &TraceId) -> (outcome: Result<
        (),
        PolicyViolation,
    >)
        ensures
            match outcome {
                Ok(()) => self@.governance_verdict(*trace_id) is None,
                Err(violation) => self@.governance_verdict(*trace_id) == Some(violation@),
            },
    {
        match self.flagged_traces.get(trace_id) {
            Some(flags) => self.policy.validate_trace(flags.as_slice()),
            None => Ok(()),
        }
    }

    /// Counts flagged traces, quarantined traces and the occurrences of each
    /// kind of flag over all traces. Changes nothing.
    pub fn get_governance_stats(&self) -> (stats: GovernanceStats)
        ensures
            stats.total_flagged == self@.flagged.dom().len(),
            stats.total_quarantined == self@.quarantined.dom().len(),
            forall|kind: TraceFlag|
                stats.flag_counts.of(kind) == saturated(total_occurrences(self@.flagged, kind)),
    {
        let ghost pairs = self.flagged_traces.iter().remaining();
        let ghost ids = Seq::new(pairs.len(), |i: int| *pairs[i].0);
        let ghost lists = Seq::new(pairs.len(), |i: int| records(pairs[i].1@));
        let ghost mut done: int = 0;
        let mut counts = FlagCounts::zero();
        for pair in it: self.flagged_traces.iter()
            invariant
                it.seq() == pairs,
                done == it.index(),
                0 <= done <= pairs.len(),
                lists.len() == pairs.len(),
                forall|i: int| 0 <= i < pairs.len() ==> lists[i] == records(pairs[i].1@),
                forall|kind: TraceFlag|
                    counts.of(kind) == saturated(
                        occurrences_in_all(lists.subrange(0, done), kind),
                    ),
        {
            let (_, flags) = pair;
            let tally = FlagCounts::tally(flags.as_slice());
            proof {
                assert(pair == pairs[done]);
                assert(lists.subrange(0, done + 1).drop_last() =~= lists.subrange(0, done));
                assert(lists.subrange(0, done + 1).last() == records(flags@));
            }
            counts = counts.plus(tally);
            proof {
                done = done + 1;
            }
        }
        proof {
            assert(done == pairs.len());
            assert(lists.subrange(0, done) =~= lists);
            assert(self@.flagged.dom() =~= self.flagged_traces@.dom());
            assert(self@.quarantined.dom() =~= self.quarantined_traces@.dom());
            assert forall|i: int, j: int| 0 <= i < ids.len() && 0 <= j < ids.len() && i != j implies ids[i] != ids[j] by {
                if ids[i] == ids[j] {
                    assert(self.flagged_traces@[*pairs[i].0] == *pairs[i].1);
                    assert(self.flagged_traces@[*pairs[j].0] == *pairs[j].1);
                    assert(pairs[i] == pairs[j]);
                }
            }
            assert forall|id: TraceId| self@.flagged.contains_key(id) <==> ids.contains(id) by {
                if self@.flagged.contains_key(id) {
                    assert(self.flagged_traces@.contains_key(id));
                    let found = (&id, &self.flagged_traces@[id]);
                    assert(pairs.contains(found));
                    let i = choose|i: int| 0 <= i < pairs.len() && pairs[i] == found;
                    assert(ids[i] == id);
                }
                if ids.contains(id) {
                    let i = choose|i: int| 0 <= i < ids.len() && ids[i] == id;
                    assert(self.flagged_traces@.contains_key(*pairs[i].0));
                }
            }
            assert forall|i: int| 0 <= i < ids.len() implies lists[i] == self@.flagged[#[trigger] ids[i]] by {
                assert(self.flagged_traces@.contains_key(*pairs[i].0));
                assert(self.flagged_traces@[*pairs[i].0] == *pairs[i].1);
            }
            assert forall|kind: TraceFlag| total_occurrences(self@.flagged, kind) == occurrences_in_all(lists, kind) by {
                lemma_total_by_enumeration(self@.flagged, ids, lists, kind);
            }
        }
        GovernanceStats {
            total_flagged: self.flagged_traces.len(),
            total_quarantined: self.quarantined_traces.len(),
            flag_counts: counts,
        }
    }

    /// The merge gate: refuses a quarantined trace whatever its flags, and
    /// otherwise a trace whose flags trip the policy.
    pub fn validate_merge(&self, session_id: SessionId, trace_id: TraceId) -> (outcome: Result<
        (),
        MergeError,
    >)
        ensures
            match outcome {
                Ok(()) => self@.merge_verdict(trace_id) is None,
                Err(refusal) => self@.merge_verdict(trace_id) == Some(refusal@),
            },
    {
        match self.quarantined_traces.get(&trace_id) {
            Some(reason) => {
                return Err(MergeError::Quarantined { trace_id, reason: reason.clone() });
            },
            None => {},
        }
        match self.validate_trace_governance(&trace_id) {
            Ok(()) => Ok(()),
            Err(violation) => Err(MergeError::Policy(violation)),
        }
    }
}

/// A flag of severity 8 or more quarantines its trace where the policy asks
/// for automatic quarantine; where it does not, flagging leaves the
/// quarantine records as they were.
pub proof fn law_severe_flag_quarantines(
    state: GovernanceModel,
    trace_id: TraceId,
    info: FlagRecord,
)
    requires
        info.severity >= 8,
    ensures
        state.policy.auto_quarantine ==> state.flag(trace_id, info).is_quarantined(trace_id)
            && state.flag(trace_id, info).quarantined[trace_id] == info.reason,
        !state.policy.auto_quarantine ==> state.flag(trace_id, info).quarantined
            == state.quarantined,
{
}

/// A flag below severity 8 never changes the quarantine records.
pub proof fn law_mild_flag_does_not_quarantine(
    state: GovernanceModel,
    trace_id: TraceId,
    info: FlagRecord,
)
    requires
        info.severity < 8,
    ensures
        state.flag(trace_id, info).quarantined == state.quarantined,
{
}

/// The merge gate refuses every quarantined trace with the quarantine veto,
/// whatever flags the trace has, none included.
pub proof fn law_quarantine_vetoes_merge(state: GovernanceModel, trace_id: TraceId)
    requires
        state.is_quarantined(trace_id),
    ensures
        state.merge_verdict(trace_id) == Some(
            MergeRefusal::Quarantined { trace_id, reason: state.quarantined[trace_id] },
        ),
{
}

/// No operation lifts a quarantine: a quarantined trace stays quarantined
/// after any flag is recorded and after any trace is quarantined.
pub proof fn law_quarantine_is_terminal(
    state: GovernanceModel,
    trace_id: TraceId,
    other: TraceId,
    info: FlagRecord,
    reason: Seq<char>,
)
    requires
        state.is_quarantined(trace_id),
    ensures
        state.flag(other, info).is_quarantined(trace_id),
        state.quarantine(other, reason).is_quarantined(trace_id),
{
}

/// Flagging one trace leaves the flags of every other trace as they were and
/// appends to its own.
pub proof fn law_flags_accumulate(
    state: GovernanceModel,
    trace_id: TraceId,
    other: TraceId,
    info: FlagRecord,
)
    ensures
        state.flag(trace_id, info).flags_of(trace_id) == state.flags_of(trace_id).push(info),
        other != trace_id ==> state.flag(trace_id, info).flags_of(other) == state.flags_of(other),
        state.flag(trace_id, info).policy == state.policy,
{
}

/// Every state that flagging and quarantining lead to from the initial one
/// has a flag in each of its flag lists: the number of flag lists is the
/// number of flagged traces.
pub proof fn law_flag_lists_hold_flags(
    policy: GovernancePolicy,
    state: GovernanceModel,
    trace_id: TraceId,
    info: FlagRecord,
    reason: Seq<char>,
)
    requires
        state.lists_hold_flags(),
    ensures
        GovernanceModel::initial(policy).lists_hold_flags(),
        state.flag(trace_id, info).lists_hold_flags(),
        state.quarantine(trace_id, reason).lists_hold_flags(),
{
}

/// Quarantining is an upsert: of two reasons given for one trace the later
/// one stands, and giving the same reason again changes nothing.
pub proof fn law_quarantine_last_reason_stands(
    state: GovernanceModel,
    trace_id: TraceId,
    earlier: Seq<char>,
    later: Seq<char>,
)
    ensures
        state.quarantine(trace_id, earlier).quarantine(trace_id, later) == state.quarantine(
            trace_id,
            later,
        ),
        state.quarantine(trace_id, later).quarantined[trace_id] == later,
        state.quarantine(trace_id, later).flagged == state.flagged,
{
    assert(state.quarantined.insert(trace_id, earlier).insert(trace_id, later)
        =~= state.quarantined.insert(trace_id, later));
}

/// Quarantining keeps the state finite, and the number of quarantined traces
/// grows by one exactly when the trace was not quarantined before. The
/// flagged traces stay as they were.
pub proof fn law_quarantine_count(state: GovernanceModel, trace_id: TraceId, reason: Seq<char>)
    requires
        state.is_finite(),
    ensures
        state.quarantine(trace_id, reason).is_finite(),
        state.quarantine(trace_id, reason).quarantined_count() == state.quarantined_count() + if state.is_quarantined(
            trace_id,
        ) {
            0nat
        } else {
            1nat
        },
        state.quarantine(trace_id, reason).flagged_count() == state.flagged_count(),
{
    assert(state.quarantined.insert(trace_id, reason).dom() =~= state.quarantined.dom().insert(
        trace_id,
    ));
}

/// Flagging keeps the state finite, and the number of flagged traces grows
/// by one exactly when the trace had no flag list before.
pub proof fn law_flagged_count(state: GovernanceModel, trace_id: TraceId, info: FlagRecord)
    requires
        state.is_finite(),
    ensures
        state.flag(trace_id, info).is_finite(),
        state.flag(trace_id, info).flagged_count() == state.flagged_count() + if state.flagged.contains_key(
            trace_id,
        ) {
            0nat
        } else {
            1nat
        },
{
    let flags = state.flags_of(trace_id).push(info);
    assert(state.flagged.insert(trace_id, flags).dom() =~= state.flagged.dom().insert(trace_id));
    assert(state.quarantined.insert(trace_id, info.reason).dom()
        =~= state.quarantined.dom().insert(trace_id));
}

} // verus!
