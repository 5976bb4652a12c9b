//! Counts over the governance state.

use crate::flags::{records, FlagRecord, TraceFlag, TraceFlagInfo};
use crate::ident::TraceId;
use vstd::prelude::*;

verus! {

/// How often each kind of flag occurs.
#[derive(Clone, Copy, Debug, PartialEq, Eq, Structural)]
pub struct FlagCounts {
    pub jailbreak: usize,
    pub anomaly: usize,
    pub high_risk: usize,
    pub unsafe_operation: usize,
    pub unverified: usize,
    pub malicious: usize,
}

/// A snapshot of the governance state in numbers.
#[derive(Clone, Copy, Debug, PartialEq, Eq, Structural)]
pub struct GovernanceStats {
    /// The number of traces that have a flag list.
    pub total_flagged: usize,
    /// The number of quarantined traces.
    pub total_quarantined: usize,
    /// Occurrences of each kind of flag over all traces.
    pub flag_counts: FlagCounts,
}

/// A count as a machine word: exact where it fits, else the largest word.
pub open spec fn saturated(count: nat) -> usize {
    if count <= usize::MAX {
        count as usize
    } else {
        usize::MAX
    }
}

/// How often a kind of flag occurs in one list.
pub open spec fn occurrences(flags: Seq<FlagRecord>, kind: TraceFlag) -> nat
    decreases flags.len(),
{
    if flags.len() == 0 {
        0
    } else {
        occurrences(flags.drop_last(), kind) + if flags.last().flag == kind {
            1nat
        } else {
            0nat
        }
    }
}

/// How often a kind of flag occurs over the lists of all traces.
pub open spec fn total_occurrences(flagged: Map<TraceId, Seq<FlagRecord>>, kind: TraceFlag) -> nat
    decreases flagged.dom().len(),
{
    if flagged.dom().finite() && flagged.dom().len() > 0 {
        let id = flagged.dom().choose();
        occurrences(flagged[id], kind) + total_occurrences(flagged.remove(id), kind)
    } else {
        0
    }
}

/// How often a kind of flag occurs over a sequence of lists.
pub open spec fn occurrences_in_all(lists: Seq<Seq<FlagRecord>>, kind: TraceFlag) -> nat
    decreases lists.len(),
{
    if lists.len() == 0 {
        0
    } else {
        occurrences_in_all(lists.drop_last(), kind) + occurrences(lists.last(), kind)
    }
}

/// No kind occurs more often than the list is long.
pub proof fn lemma_occurrences_bounded(flags: Seq<FlagRecord>, kind: TraceFlag)
    ensures
        occurrences(flags, kind) <= flags.len(),
    decreases flags.len(),
{
    if flags.len() > 0 {
        lemma_occurrences_bounded(flags.drop_last(), kind);
    }
}

/// The total does not depend on the order in which traces are taken: any
/// trace can be split off first.
pub proof fn lemma_total_split(
    flagged: Map<TraceId, Seq<FlagRecord>>,
    id: TraceId,
    kind: TraceFlag,
)
    requires
        flagged.dom().finite(),
        flagged.contains_key(id),
    ensures
        total_occurrences(flagged, kind) == occurrences(flagged[id], kind) + total_occurrences(
            flagged.remove(id),
            kind,
        ),
    decreases flagged.dom().len(),
{
    let chosen = flagged.dom().choose();
    if chosen != id {
        let without_chosen = flagged.remove(chosen);
        let without_id = flagged.remove(id);
        lemma_total_split(without_chosen, id, kind);
        lemma_total_split(without_id, chosen, kind);
        assert(without_chosen.remove(id) =~= without_id.remove(chosen));
    }
}

/// Taking the traces in any order without repetition gives the total.
pub proof fn lemma_total_by_enumeration(
    flagged: Map<TraceId, Seq<FlagRecord>>,
    ids: Seq<TraceId>,
    lists: Seq<Seq<FlagRecord>>,
    kind: TraceFlag,
)
    requires
        ids.no_duplicates(),
        ids.len() == lists.len(),
        forall|id: TraceId| flagged.contains_key(id) <==> ids.contains(id),
        forall|i: int| 0 <= i < ids.len() ==> lists[i] == flagged[#[trigger] ids[i]],
    ensures
        total_occurrences(flagged, kind) == occurrences_in_all(lists, kind),
    decreases ids.len(),
{
    assert(flagged.dom() =~= ids.to_set());
    ids.lemma_cardinality_of_set();
    if ids.len() == 0 {
        assert(flagged.dom() =~= Set::empty());
    } else {
        let id = ids.last();
        assert(ids.contains(id));
        lemma_total_split(flagged, id, kind);
        let rest = flagged.remove(id);
        let rest_ids = ids.drop_last();
        assert forall|other: TraceId| rest.contains_key(other) <==> rest_ids.contains(other) by {
            if rest.contains_key(other) {
                let i = choose|i: int| 0 <= i < ids.len() && ids[i] == other;
                assert(rest_ids[i] == other);
            }
            if rest_ids.contains(other) {
                let i = choose|i: int| 0 <= i < rest_ids.len() && rest_ids[i] == other;
                assert(ids[i] == other);
            }
        }
        assert forall|i: int| 0 <= i < rest_ids.len() implies lists.drop_last()[i] == rest[#[trigger] rest_ids[i]] by {
            assert(ids[i] == rest_ids[i]);
        }
        lemma_total_by_enumeration(rest, rest_ids, lists.drop_last(), kind);
    }
}

impl FlagCounts {
    /// The count kept for a kind.
    pub open spec fn of(self, kind: TraceFlag) -> usize {
        match kind {
            TraceFlag::Jailbreak => self.jailbreak,
            TraceFlag::Anomaly => self.anomaly,
            TraceFlag::HighRisk => self.high_risk,
            TraceFlag::Unsafe => self.unsafe_operation,
            TraceFlag::Unverified => self.unverified,
            TraceFlag::Malicious => self.malicious,
        }
    }

    /// The count kept for a kind.
    pub fn count(&self, kind: TraceFlag) -> (count: usize)
        ensures
            count == self.of(kind),
    {
        match kind {
            TraceFlag::Jailbreak => self.jailbreak,
            TraceFlag::Anomaly => self.anomaly,
            TraceFlag::HighRisk => self.high_risk,
            TraceFlag::Unsafe => self.unsafe_operation,
            TraceFlag::Unverified => self.unverified,
            TraceFlag::Malicious => self.malicious,
        }
    }

    /// No occurrences of any kind.
    pub fn zero() -> (counts: Self)
        ensures
            forall|kind: TraceFlag| counts.of(kind) == 0,
    {
        FlagCounts {
            jailbreak: 0,
            anomaly: 0,
            high_risk: 0,
            unsafe_operation: 0,
            unverified: 0,
            malicious: 0,
        }
    }

    /// Counts the occurrences of each kind in one list.
    pub fn tally(flags: &[TraceFlagInfo]) -> (counts: Self)
        ensures
            forall|kind: TraceFlag| counts.of(kind) == occurrences(records(flags@), kind),
    {
        let ghost recs = records(flags@);
        let mut counts = FlagCounts::zero();
        let mut i: usize = 0;
        while i < flags.len()
            invariant
                i <= flags.len(),
                recs == records(flags@),
                forall|kind: TraceFlag|
                    counts.of(kind) == occurrences(recs.subrange(0, i as int), kind),
            decreases flags.len() - i,
        {
            proof {
                assert(recs.subrange(0, i + 1).drop_last() =~= recs.subrange(0, i as int));
                assert(recs.subrange(0, i + 1).last() == flags[i as int]@);
                assert forall|kind: TraceFlag|
                    occurrences(recs.subrange(0, i as int), kind) <= i by {
                    lemma_occurrences_bounded(recs.subrange(0, i as int), kind);
                }
                assert(counts.of(TraceFlag::Jailbreak) <= i);
                assert(counts.of(TraceFlag::Anomaly) <= i);
                assert(counts.of(TraceFlag::HighRisk) <= i);
                assert(counts.of(TraceFlag::Unsafe) <= i);
                assert(counts.of(TraceFlag::Unverified) <= i);
                assert(counts.of(TraceFlag::Malicious) <= i);
            }
            match flags[i].flag {
                TraceFlag::Jailbreak => {
                    counts.jailbreak += 1;
                },
                TraceFlag::Anomaly => {
                    counts.anomaly += 1;
                },
                TraceFlag::HighRisk => {
                    counts.high_risk += 1;
                },
                TraceFlag::Unsafe => {
                    counts.unsafe_operation += 1;
                },
                TraceFlag::Unverified => {
                    counts.unverified += 1;
                },
                TraceFlag::Malicious => {
                    counts.malicious += 1;
                },
            }
            i += 1;
        }
        assert(recs.subrange(0, flags.len() as int) =~= recs);
        counts
    }

    /// Adds two tallies kind by kind; a sum that does not fit a machine word
    /// stays at the largest word.
    pub fn plus(self, other: FlagCounts) -> (sum: Self)
        ensures
            forall|kind: TraceFlag|
                sum.of(kind) == saturated((self.of(kind) + other.of(kind)) as nat),
    {
        FlagCounts {
            jailbreak: self.jailbreak.saturating_add(other.jailbreak),
            anomaly: self.anomaly.saturating_add(other.anomaly),
            high_risk: self.high_risk.saturating_add(other.high_risk),
            unsafe_operation: self.unsafe_operation.saturating_add(other.unsafe_operation),
            unverified: self.unverified.saturating_add(other.unverified),
            malicious: self.malicious.saturating_add(other.malicious),
        }
    }
}

/// Every kind of flag, in the order in which statistics list them.
pub open spec fn all_kinds() -> Seq<TraceFlag> {
    seq![
        TraceFlag::Jailbreak,
        TraceFlag::Anomaly,
        TraceFlag::HighRisk,
        TraceFlag::Unsafe,
        TraceFlag::Unverified,
        TraceFlag::Malicious,
    ]
}

/// The name under which the occurrences of a kind are listed.
pub open spec fn stat_key(kind: TraceFlag) -> Seq<char> {
    match kind {
        TraceFlag::Jailbreak => "flag_Jailbreak"@,
        TraceFlag::Anomaly => "flag_Anomaly"@,
        TraceFlag::HighRisk => "flag_HighRisk"@,
        TraceFlag::Unsafe => "flag_Unsafe"@,
        TraceFlag::Unverified => "flag_Unverified"@,
        TraceFlag::Malicious => "flag_Malicious"@,
    }
}

/// The name under which the occurrences of a kind are listed.
pub fn stat_name(kind: TraceFlag) -> (name: &'static str)
    ensures
        name@ == stat_key(kind),
{
    match kind {
        TraceFlag::Jailbreak => "flag_Jailbreak",
        TraceFlag::Anomaly => "flag_Anomaly",
        TraceFlag::HighRisk => "flag_HighRisk",
        TraceFlag::Unsafe => "flag_Unsafe",
        TraceFlag::Unverified => "flag_Unverified",
        TraceFlag::Malicious => "flag_Malicious",
    }
}

/// The listed entries for some kinds: one for each kind that occurs at all.
pub open spec fn kind_entries(counts: FlagCounts, kinds: Seq<TraceFlag>) -> Seq<
    (Seq<char>, usize),
>
    decreases kinds.len(),
{
    if kinds.len() == 0 {
        Seq::empty()
    } else {
        let earlier = kind_entries(counts, kinds.drop_last());
        if counts.of(kinds.last()) > 0 {
            earlier.push((stat_key(kinds.last()), counts.of(kinds.last())))
        } else {
            earlier
        }
    }
}

/// Named entries as mathematics.
pub open spec fn entry_views(entries: Seq<(String, usize)>) -> Seq<(Seq<char>, usize)> {
    Seq::new(entries.len(), |i: int| (entries[i].0@, entries[i].1))
}

impl GovernanceStats {
    /// The statistics as named entries: the two totals, then one entry for
    /// each kind of flag that occurs at all.
    pub open spec fn listing(self) -> Seq<(Seq<char>, usize)> {
        seq![
            ("total_flagged"@, self.total_flagged),
            ("total_quarantined"@, self.total_quarantined),
        ] + kind_entries(self.flag_counts, all_kinds())
    }

    /// The statistics as named entries.
    pub fn entries(&self) -> (entries: Vec<(String, usize)>)
        ensures
            entry_views(entries@) == self.listing(),
    {
        let kinds = vec![
            TraceFlag::Jailbreak,
            TraceFlag::Anomaly,
            TraceFlag::HighRisk,
            TraceFlag::Unsafe,
            TraceFlag::Unverified,
            TraceFlag::Malicious,
        ];
        assert(kinds@ =~= all_kinds());
        let ghost totals = seq![
            ("total_flagged"@, self.total_flagged),
            ("total_quarantined"@, self.total_quarantined),
        ];
        let mut entries: Vec<(String, usize)> = Vec::new();
        entries.push(("total_flagged".to_owned(), self.total_flagged));
        entries.push(("total_quarantined".to_owned(), self.total_quarantined));
        assert(entry_views(entries@) =~= totals);
        let mut i: usize = 0;
        while i < kinds.len()
            invariant
                i <= kinds.len(),
                kinds@ == all_kinds(),
                entry_views(entries@) == totals + kind_entries(
                    self.flag_counts,
                    kinds@.subrange(0, i as int),
                ),
            decreases kinds.len() - i,
        {
            let kind = kinds[i];
            let count = self.flag_counts.count(kind);
            proof {
                assert(kinds@.subrange(0, i + 1).drop_last() =~= kinds@.subrange(0, i as int));
                assert(kinds@.subrange(0, i + 1).last() == kind);
            }
            if count > 0 {
                let ghost before = entry_views(entries@);
                entries.push((stat_name(kind).to_owned(), count));
                assert(entry_views(entries@) =~= before.push((stat_key(kind), count)));
                assert(entry_views(entries@) =~= totals + kind_entries(
                    self.flag_counts,
                    kinds@.subrange(0, i + 1),
                ));
            }
            i += 1;
        }
        assert(kinds@.subrange(0, kinds.len() as int) =~= kinds@);
        entries
    }
}

} // verus!
