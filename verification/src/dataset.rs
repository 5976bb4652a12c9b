//! Questions with their intents, and collections of them.

use crate::format::{decimal_text, decimal_u64};
use crate::intent::{all_intents, Intent};
use crate::json::empty_object;
use crate::stats::saturated;
use crate::intent::intent_named;
use crate::text::{lowercase, same_text, split_on, split_text, text_views, trim, trimmed};
use vstd::prelude::*;

verus! {

/// One question of a dataset.
#[derive(Clone, Debug)]
pub struct MuISQAEntry {
    pub id: String,
    pub question: String,
    pub intents: Vec<Intent>,
    pub context: Option<String>,
    pub gold_answer: Option<String>,
    pub metadata: serde_json::Value,
}

/// A named collection of questions, in the order in which they were added.
#[derive(Clone, Debug)]
pub struct MuISQADataset {
    pub entries: Vec<MuISQAEntry>,
    pub name: String,
}

/// How often one intent occurs.
#[derive(Clone, Copy, Debug, PartialEq, Eq, Structural)]
pub struct IntentCount {
    pub intent: Intent,
    pub count: usize,
}

/// A dataset in numbers.
#[derive(Clone, Debug)]
pub struct DatasetStats {
    pub total_entries: usize,
    pub single_intent_entries: usize,
    pub multi_intent_entries: usize,
    /// One count for every intent that occurs at all, in the order of the
    /// intents' declaration.
    pub intent_distribution: Vec<IntentCount>,
}

/// Whether an intent is among the intents of an entry.
pub open spec fn has_intent(entry: MuISQAEntry, intent: Intent) -> bool {
    entry.intents@.contains(intent)
}

/// Whether an entry has more than one intent.
pub open spec fn has_many_intents(entry: MuISQAEntry) -> bool {
    entry.intents@.len() > 1
}

/// The entries that have a given intent, in their order.
pub open spec fn entries_with(entries: Seq<MuISQAEntry>, intent: Intent) -> Seq<MuISQAEntry>
    decreases entries.len(),
{
    if entries.len() == 0 {
        Seq::empty()
    } else if has_intent(entries.last(), intent) {
        entries_with(entries.drop_last(), intent).push(entries.last())
    } else {
        entries_with(entries.drop_last(), intent)
    }
}

/// The entries that have more than one intent, in their order.
pub open spec fn entries_with_many(entries: Seq<MuISQAEntry>) -> Seq<MuISQAEntry>
    decreases entries.len(),
{
    if entries.len() == 0 {
        Seq::empty()
    } else if has_many_intents(entries.last()) {
        entries_with_many(entries.drop_last()).push(entries.last())
    } else {
        entries_with_many(entries.drop_last())
    }
}

/// What a list of references refers to.
pub open spec fn referents(found: Seq<&MuISQAEntry>) -> Seq<MuISQAEntry> {
    Seq::new(found.len(), |i: int| *found[i])
}

/// How often an intent occurs in a list of intents.
pub open spec fn intent_occurrences(intents: Seq<Intent>, intent: Intent) -> nat
    decreases intents.len(),
{
    if intents.len() == 0 {
        0
    } else {
        intent_occurrences(intents.drop_last(), intent) + if intents.last() == intent {
            1nat
        } else {
            0nat
        }
    }
}

/// How often an intent occurs over all entries.
pub open spec fn intent_total(entries: Seq<MuISQAEntry>, intent: Intent) -> nat
    decreases entries.len(),
{
    if entries.len() == 0 {
        0
    } else {
        intent_total(entries.drop_last(), intent) + intent_occurrences(
            entries.last().intents@,
            intent,
        )
    }
}

/// No more entries are selected than there are.
pub proof fn lemma_entries_with_many_bounded(entries: Seq<MuISQAEntry>)
    ensures
        entries_with_many(entries).len() <= entries.len(),
    decreases entries.len(),
{
    if entries.len() > 0 {
        lemma_entries_with_many_bounded(entries.drop_last());
    }
}

/// Whether an intent is in a list.
pub fn contains_intent(intents: &Vec<Intent>, intent: Intent) -> (found: bool)
    ensures
        found == intents@.contains(intent),
{
    let mut i: usize = 0;
    while i < intents.len()
        invariant
            i <= intents.len(),
            forall|j: int| 0 <= j < i ==> intents[j] != intent,
        decreases intents.len() - i,
    {
        if intents[i] == intent {
            return true;
        }
        i += 1;
    }
    false
}

/// Counts an intent in a list.
pub fn count_intent(intents: &Vec<Intent>, intent: Intent) -> (count: usize)
    ensures
        count == intent_occurrences(intents@, intent),
{
    let mut count: usize = 0;
    let mut i: usize = 0;
    while i < intents.len()
        invariant
            i <= intents.len(),
            count <= i,
            count == intent_occurrences(intents@.subrange(0, i as int), intent),
        decreases intents.len() - i,
    {
        assert(intents@.subrange(0, i + 1).drop_last() =~= intents@.subrange(0, i as int));
        if intents[i] == intent {
            count += 1;
        }
        i += 1;
    }
    assert(intents@.subrange(0, intents.len() as int) =~= intents@);
    count
}

impl MuISQAEntry {
    /// An entry without context or answer, with an empty object as metadata.
    pub fn new(id: String, question: String, intents: Vec<Intent>) -> (entry: Self)
        ensures
            entry.id == id,
            entry.question == question,
            entry.intents == intents,
            entry.context is None,
            entry.gold_answer is None,
    {
        MuISQAEntry {
            id,
            question,
            intents,
            context: None,
            gold_answer: None,
            metadata: empty_object(),
        }
    }

    pub fn with_context(self, context: String) -> (entry: Self)
        ensures
            entry == (MuISQAEntry { context: Some(context), ..self }),
    {
        let mut entry = self;
        entry.context = Some(context);
        entry
    }

    pub fn with_answer(self, answer: String) -> (entry: Self)
        ensures
            entry == (MuISQAEntry { gold_answer: Some(answer), ..self }),
    {
        let mut entry = self;
        entry.gold_answer = Some(answer);
        entry
    }

    pub fn with_metadata(self, metadata: serde_json::Value) -> (entry: Self)
        ensures
            entry == (MuISQAEntry { metadata, ..self }),
    {
        let mut entry = self;
        entry.metadata = metadata;
        entry
    }

    /// Whether the entry has more than one intent.
    pub fn is_multi_intent(&self) -> (many: bool)
        ensures
            many == has_many_intents(*self),
    {
        self.intents.len() > 1
    }

    /// The first intent of the entry.
    pub fn primary_intent(&self) -> (first: Option<&Intent>)
        ensures
            self.intents@.len() == 0 ==> first is None,
            self.intents@.len() > 0 ==> first is Some && *first->0 == self.intents@[0],
    {
        if self.intents.len() > 0 {
            Some(&self.intents[0])
        } else {
            None
        }
    }
}

impl MuISQADataset {
    /// An empty dataset.
    pub fn new(name: String) -> (dataset: Self)
        ensures
            dataset.name == name,
            dataset.entries@.len() == 0,
    {
        MuISQADataset { entries: Vec::new(), name }
    }

    /// Adds an entry at the end.
    pub fn add_entry(&mut self, entry: MuISQAEntry)
        ensures
            final(self).entries@ == old(self).entries@.push(entry),
            final(self).name == old(self).name,
    {
        self.entries.push(entry);
    }

    /// The first entry with a given id.
    pub fn get_entry(&self, id: &str) -> (found: Option<&MuISQAEntry>)
        ensures
            match found {
                Some(entry) => exists|i: int|
                    0 <= i < self.entries@.len() && *entry == self.entries@[i]
                        && self.entries@[i].id@ == id@ && forall|j: int|
                        0 <= j < i ==> (#[trigger] self.entries@[j]).id@ != id@,
                None => forall|j: int|
                    0 <= j < self.entries@.len() ==> (#[trigger] self.entries@[j]).id@ != id@,
            },
    {
        let mut i: usize = 0;
        while i < self.entries.len()
            invariant
                i <= self.entries.len(),
                forall|j: int| 0 <= j < i ==> (#[trigger] self.entries@[j]).id@ != id@,
            decreases self.entries.len() - i,
        {
            if same_text(self.entries[i].id.as_str(), id) {
                return Some(&self.entries[i]);
            }
            i += 1;
        }
        None
    }

    /// The entries that have a given intent, in their order.
    pub fn filter_by_intent(&self, intent: &Intent) -> (found: Vec<&MuISQAEntry>)
        ensures
            referents(found@) == entries_with(self.entries@, *intent),
    {
        let mut found: Vec<&MuISQAEntry> = Vec::new();
        let mut i: usize = 0;
        assert(referents(found@) =~= entries_with(self.entries@.subrange(0, 0), *intent));
        while i < self.entries.len()
            invariant
                i <= self.entries.len(),
                referents(found@) == entries_with(self.entries@.subrange(0, i as int), *intent),
            decreases self.entries.len() - i,
        {
            assert(self.entries@.subrange(0, i + 1).drop_last() =~= self.entries@.subrange(
                0,
                i as int,
            ));
            if contains_intent(&self.entries[i].intents, *intent) {
                let ghost before = referents(found@);
                found.push(&self.entries[i]);
                assert(referents(found@) =~= before.push(self.entries@[i as int]));
            }
            i += 1;
        }
        assert(self.entries@.subrange(0, self.entries.len() as int) =~= self.entries@);
        found
    }

    /// The entries that have more than one intent, in their order.
    pub fn multi_intent_entries(&self) -> (found: Vec<&MuISQAEntry>)
        ensures
            referents(found@) == entries_with_many(self.entries@),
    {
        let mut found: Vec<&MuISQAEntry> = Vec::new();
        let mut i: usize = 0;
        assert(referents(found@) =~= entries_with_many(self.entries@.subrange(0, 0)));
        while i < self.entries.len()
            invariant
                i <= self.entries.len(),
                referents(found@) == entries_with_many(self.entries@.subrange(0, i as int)),
            decreases self.entries.len() - i,
        {
            assert(self.entries@.subrange(0, i + 1).drop_last() =~= self.entries@.subrange(
                0,
                i as int,
            ));
            if self.entries[i].is_multi_intent() {
                let ghost before = referents(found@);
                found.push(&self.entries[i]);
                assert(referents(found@) =~= before.push(self.entries@[i as int]));
            }
            i += 1;
        }
        assert(self.entries@.subrange(0, self.entries.len() as int) =~= self.entries@);
        found
    }

    /// How often an intent occurs over all entries; a count that does not
    /// fit a machine word stays at the largest word.
    pub fn count_intent(&self, intent: Intent) -> (count: usize)
        ensures
            count == saturated(intent_total(self.entries@, intent)),
    {
        let mut count: usize = 0;
        let mut i: usize = 0;
        while i < self.entries.len()
            invariant
                i <= self.entries.len(),
                count == saturated(intent_total(self.entries@.subrange(0, i as int), intent)),
            decreases self.entries.len() - i,
        {
            assert(self.entries@.subrange(0, i + 1).drop_last() =~= self.entries@.subrange(
                0,
                i as int,
            ));
            count = count.saturating_add(count_intent(&self.entries[i].intents, intent));
            i += 1;
        }
        assert(self.entries@.subrange(0, self.entries.len() as int) =~= self.entries@);
        count
    }
}

/// The counts listed for some intents: one for each intent that occurs.
pub open spec fn distribution(entries: Seq<MuISQAEntry>, intents: Seq<Intent>) -> Seq<IntentCount>
    decreases intents.len(),
{
    if intents.len() == 0 {
        Seq::empty()
    } else {
        let earlier = distribution(entries, intents.drop_last());
        let count = saturated(intent_total(entries, intents.last()));
        if count > 0 {
            earlier.push(IntentCount { intent: intents.last(), count })
        } else {
            earlier
        }
    }
}

/// The intents of the synthetic entry at a position: they repeat with a
/// period of three.
pub open spec fn synthetic_intents(position: nat) -> Seq<Intent> {
    if position % 3 == 0 {
        seq![Intent::Factual, Intent::Comparison]
    } else if position % 3 == 1 {
        seq![Intent::Explanation, Intent::Causal]
    } else {
        seq![Intent::Procedural]
    }
}

/// Whether an entry is the synthetic entry for a position.
pub open spec fn is_synthetic_entry(entry: MuISQAEntry, position: nat) -> bool {
    &&& entry.id@ == "q"@ + decimal_text(position)
    &&& entry.question@ == "What is the answer to question "@ + decimal_text(position) + "?"@
    &&& entry.intents@ == synthetic_intents(position)
    &&& entry.context is Some
    &&& entry.context->0@ == "Context for question "@ + decimal_text(position)
    &&& entry.gold_answer is Some
    &&& entry.gold_answer->0@ == "Answer to question "@ + decimal_text(position)
}

/// The synthetic entry for a position.
pub fn synthetic_entry(position: u64) -> (entry: MuISQAEntry)
    ensures
        is_synthetic_entry(entry, position as nat),
{
    let intents = if position % 3 == 0 {
        vec![Intent::Factual, Intent::Comparison]
    } else if position % 3 == 1 {
        vec![Intent::Explanation, Intent::Causal]
    } else {
        vec![Intent::Procedural]
    };
    assert(intents@ =~= synthetic_intents(position as nat));
    let number = decimal_u64(position);
    let mut id = "q".to_owned();
    id.append(number.as_str());
    let mut question = "What is the answer to question ".to_owned();
    question.append(number.as_str());
    question.append("?");
    let mut context = "Context for question ".to_owned();
    context.append(number.as_str());
    let mut answer = "Answer to question ".to_owned();
    answer.append(number.as_str());
    MuISQAEntry::new(id, question, intents).with_context(context).with_answer(answer)
}

impl MuISQADataset {
    /// A dataset of generated questions for trying things out.
    pub fn synthetic(size: usize) -> (dataset: Self)
        ensures
            dataset.name@ == "synthetic"@,
            dataset.entries@.len() == size,
            forall|i: int|
                0 <= i < size ==> is_synthetic_entry(#[trigger] dataset.entries@[i], i as nat),
    {
        let mut entries: Vec<MuISQAEntry> = Vec::new();
        let mut i: usize = 0;
        while i < size
            invariant
                i <= size,
                entries@.len() == i,
                forall|j: int| 0 <= j < i ==> is_synthetic_entry(#[trigger] entries@[j], j as nat),
            decreases size - i,
        {
            entries.push(synthetic_entry(i as u64));
            i += 1;
        }
        MuISQADataset { entries, name: "synthetic".to_owned() }
    }

    /// The dataset in numbers.
    pub fn stats(&self) -> (stats: DatasetStats)
        ensures
            stats.total_entries == self.entries@.len(),
            stats.multi_intent_entries == entries_with_many(self.entries@).len(),
            stats.single_intent_entries == stats.total_entries - stats.multi_intent_entries,
            stats.intent_distribution@ == distribution(self.entries@, all_intents()),
    {
        let total = self.entries.len();
        let multi = self.multi_intent_entries().len();
        proof {
            lemma_entries_with_many_bounded(self.entries@);
        }
        let intents = Intent::all();
        let mut listed: Vec<IntentCount> = Vec::new();
        let mut i: usize = 0;
        while i < intents.len()
            invariant
                i <= intents.len(),
                listed@ == distribution(self.entries@, intents@.subrange(0, i as int)),
            decreases intents.len() - i,
        {
            assert(intents@.subrange(0, i + 1).drop_last() =~= intents@.subrange(0, i as int));
            let count = self.count_intent(intents[i]);
            if count > 0 {
                listed.push(IntentCount { intent: intents[i], count });
            }
            i += 1;
        }
        assert(intents@.subrange(0, intents.len() as int) =~= intents@);
        DatasetStats {
            total_entries: total,
            single_intent_entries: total - multi,
            multi_intent_entries: multi,
            intent_distribution: listed,
        }
    }
}

/// The intent that a piece of an intent list names: white space around the
/// name and the case of its letters do not count.
pub open spec fn named_in_piece(piece: Seq<char>) -> Option<Intent> {
    intent_named(lowercase(trimmed(piece)))
}

/// The intents that the pieces of a list name, in order; a piece that names
/// no intent is passed over.
pub open spec fn named_intents(pieces: Seq<Seq<char>>) -> Seq<Intent>
    decreases pieces.len(),
{
    if pieces.len() == 0 {
        Seq::empty()
    } else {
        let earlier = named_intents(pieces.drop_last());
        match named_in_piece(pieces.last()) {
            Some(intent) => earlier.push(intent),
            None => earlier,
        }
    }
}

/// Reads the intents that the given pieces name.
pub fn intents_in_pieces(pieces: &Vec<String>) -> (intents: Vec<Intent>)
    ensures
        intents@ == named_intents(text_views(pieces@)),
{
    let ghost views = text_views(pieces@);
    let mut intents: Vec<Intent> = Vec::new();
    let mut i: usize = 0;
    while i < pieces.len()
        invariant
            i <= pieces.len(),
            views == text_views(pieces@),
            intents@ == named_intents(views.subrange(0, i as int)),
        decreases pieces.len() - i,
    {
        proof {
            assert(views.subrange(0, i + 1).drop_last() =~= views.subrange(0, i as int));
            assert(views.subrange(0, i + 1).last() == pieces@[i as int]@);
        }
        match Intent::from_str(trim(pieces[i].as_str())) {
            Some(intent) => {
                intents.push(intent);
            },
            None => {},
        }
        i += 1;
    }
    assert(views.subrange(0, pieces.len() as int) =~= views);
    intents
}

/// Reads a list of intent names that commas separate.
pub fn parse_intent_list(list: &str) -> (intents: Vec<Intent>)
    ensures
        intents@ == named_intents(split_on(list@, ',')),
{
    let pieces = split_text(list, ',');
    intents_in_pieces(&pieces)
}

/// An entry from the fields of one record of a table: the intents come as
/// one field, their names separated by commas.
pub fn entry_from_record(
    id: String,
    question: String,
    intents: &str,
    context: Option<String>,
    gold_answer: Option<String>,
) -> (entry: MuISQAEntry)
    ensures
        entry.id == id,
        entry.question == question,
        entry.intents@ == named_intents(split_on(intents@, ',')),
        entry.context == context,
        entry.gold_answer == gold_answer,
{
    let mut entry = MuISQAEntry::new(id, question, parse_intent_list(intents));
    entry.context = context;
    entry.gold_answer = gold_answer;
    entry
}

} // verus!
