//! Keyword matching that finds the intents of a question.

use crate::intent::{all_intents, Intent};
use crate::text::{
    char_is_uppercase, chars_of, contains_in, contains_text, is_uppercase, lowercase, text_views,
    to_lowercase, whitespace_words, words_of,
};
use vstd::utf8::encode_utf8;
use vstd::prelude::*;

verus! {

/// How well a question matches one intent: how many of the intent's
/// keywords occur in it, out of how many.
#[derive(Clone, Copy, Debug, PartialEq, Eq, Structural)]
pub struct IntentMatch {
    pub intent: Intent,
    pub matches: usize,
    pub keywords: usize,
}

/// The keywords of one intent.
pub struct IntentKeywords {
    pub intent: Intent,
    pub keywords: Vec<String>,
}

/// Finds intents by the keywords that announce them.
pub struct QuestionParser {
    intent_keywords: Vec<IntentKeywords>,
}

/// The keywords that announce an intent.
pub open spec fn keywords_for(intent: Intent) -> Seq<Seq<char>> {
    match intent {
        Intent::Factual => seq!["what"@, "who"@, "when"@, "where"@, "which"@],
        Intent::Comparison => seq![
            "compare"@,
            "difference"@,
            "versus"@,
            "vs"@,
            "better"@,
            "worse"@,
        ],
        Intent::Explanation => seq!["why"@, "how"@, "explain"@, "reason"@, "because"@],
        Intent::Procedural => seq!["how to"@, "steps"@, "process"@, "procedure"@, "method"@],
        Intent::Opinion => seq!["think"@, "believe"@, "opinion"@, "view"@, "perspective"@],
        Intent::Temporal => seq!["when"@, "before"@, "after"@, "during"@, "timeline"@],
        Intent::Causal => seq!["cause"@, "effect"@, "result"@, "lead to"@, "due to"@],
        Intent::Hypothetical => seq!["if"@, "would"@, "could"@, "suppose"@, "imagine"@],
    }
}

/// The standard keyword table: every intent with its keywords.
pub open spec fn standard_table() -> Seq<(Intent, Seq<Seq<char>>)> {
    Seq::new(8, |i: int| (all_intents()[i], keywords_for(all_intents()[i])))
}

/// The characters of each word of a list.
pub open spec fn word_views(words: Seq<String>) -> Seq<Seq<char>> {
    Seq::new(words.len(), |i: int| words[i]@)
}

/// How many of the keywords occur in the text.
pub open spec fn matching_keywords(text: Seq<char>, keywords: Seq<Seq<char>>) -> nat
    decreases keywords.len(),
{
    if keywords.len() == 0 {
        0
    } else {
        matching_keywords(text, keywords.drop_last()) + if contains_text(text, keywords.last()) {
            1nat
        } else {
            0nat
        }
    }
}

/// The matches of a text against a keyword table: one entry for every intent
/// of which at least one keyword occurs, in the table's order.
pub open spec fn matches_in(table: Seq<(Intent, Seq<Seq<char>>)>, text: Seq<char>) -> Seq<
    IntentMatch,
>
    decreases table.len(),
{
    if table.len() == 0 {
        Seq::empty()
    } else {
        let earlier = matches_in(table.drop_last(), text);
        let (intent, keywords) = table.last();
        let count = matching_keywords(text, keywords);
        if count > 0 {
            earlier.push(
                IntentMatch { intent, matches: count as usize, keywords: keywords.len() as usize },
            )
        } else {
            earlier
        }
    }
}

/// Counts the keywords that occur in a text. Both are taken as they are:
/// the caller brings the text to lower case.
pub fn count_matches(text: &str, keywords: &Vec<String>) -> (count: usize)
    ensures
        count == matching_keywords(text@, word_views(keywords@)),
{
    let chars = chars_of(text);
    count_matches_in(&chars, keywords)
}

/// Counts the keywords that occur in a text given by its characters.
pub fn count_matches_in(text: &Vec<char>, keywords: &Vec<String>) -> (count: usize)
    ensures
        count == matching_keywords(text@, word_views(keywords@)),
{
    let ghost views = word_views(keywords@);
    let mut count: usize = 0;
    let mut i: usize = 0;
    while i < keywords.len()
        invariant
            i <= keywords.len(),
            views == word_views(keywords@),
            count == matching_keywords(text@, views.subrange(0, i as int)),
            count <= i,
        decreases keywords.len() - i,
    {
        proof {
            assert(views.subrange(0, i + 1).drop_last() =~= views.subrange(0, i as int));
            assert(views.subrange(0, i + 1).last() == keywords[i as int]@);
        }
        if contains_in(text, keywords[i].as_str()) {
            count += 1;
        }
        i += 1;
    }
    assert(views.subrange(0, keywords.len() as int) =~= views);
    count
}

fn owned_words(words: Vec<&'static str>) -> (owned: Vec<String>)
    ensures
        owned.len() == words.len(),
        forall|i: int| 0 <= i < words.len() ==> owned[i]@ == words[i]@,
{
    let mut owned: Vec<String> = Vec::new();
    let mut i: usize = 0;
    while i < words.len()
        invariant
            i <= words.len(),
            owned.len() == i,
            forall|j: int| 0 <= j < i ==> owned[j]@ == words[j]@,
        decreases words.len() - i,
    {
        owned.push(words[i].to_owned());
        i += 1;
    }
    owned
}

fn entry(intent: Intent, words: Vec<&'static str>) -> (entry: IntentKeywords)
    ensures
        entry.intent == intent,
        entry.keywords.len() == words.len(),
        forall|i: int| 0 <= i < words.len() ==> entry.keywords[i]@ == words[i]@,
{
    IntentKeywords { intent, keywords: owned_words(words) }
}

impl View for QuestionParser {
    type V = Seq<(Intent, Seq<Seq<char>>)>;

    closed spec fn view(&self) -> Seq<(Intent, Seq<Seq<char>>)> {
        Seq::new(
            self.intent_keywords.len() as nat,
            |i: int| (self.intent_keywords[i].intent, word_views(self.intent_keywords[i].keywords@)),
        )
    }
}

impl QuestionParser {
    /// A parser with the standard keyword table.
    pub fn new() -> (parser: Self)
        ensures
            parser@ == standard_table(),
    {
        let mut table: Vec<IntentKeywords> = Vec::new();
        table.push(entry(Intent::Factual, vec!["what", "who", "when", "where", "which"]));
        table.push(
            entry(
                Intent::Comparison,
                vec!["compare", "difference", "versus", "vs", "better", "worse"],
            ),
        );
        table.push(entry(Intent::Explanation, vec!["why", "how", "explain", "reason", "because"]));
        table.push(
            entry(Intent::Procedural, vec!["how to", "steps", "process", "procedure", "method"]),
        );
        table.push(
            entry(Intent::Opinion, vec!["think", "believe", "opinion", "view", "perspective"]),
        );
        table.push(entry(Intent::Temporal, vec!["when", "before", "after", "during", "timeline"]));
        table.push(entry(Intent::Causal, vec!["cause", "effect", "result", "lead to", "due to"]));
        table.push(entry(Intent::Hypothetical, vec!["if", "would", "could", "suppose", "imagine"]));
        let parser = QuestionParser { intent_keywords: table };
        proof {
            assert forall|i: int| 0 <= i < 8 implies parser@[i] == standard_table()[i] by {
                assert(word_views(parser.intent_keywords[i].keywords@) =~= keywords_for(
                    all_intents()[i],
                ));
            }
            assert(parser@ =~= standard_table());
        }
        parser
    }

    /// The keywords kept for each intent, in the order in which they are tried.
    pub fn intent_keywords(&self) -> (table: &Vec<IntentKeywords>)
        ensures
            table.len() == self@.len(),
            forall|i: int|
                0 <= i < table.len() ==> (#[trigger] table[i]).intent == self@[i].0 && word_views(
                    table[i].keywords@,
                ) == self@[i].1,
    {
        &self.intent_keywords
    }

    /// Matches a text that is already in lower case against the table.
    pub fn match_lowercase(&self, text: &str) -> (found: Vec<IntentMatch>)
        ensures
            found@ == matches_in(self@, text@),
    {
        let chars = chars_of(text);
        let mut found: Vec<IntentMatch> = Vec::new();
        let mut i: usize = 0;
        while i < self.intent_keywords.len()
            invariant
                i <= self.intent_keywords.len(),
                chars@ == text@,
                found@ == matches_in(self@.subrange(0, i as int), text@),
            decreases self.intent_keywords.len() - i,
        {
            let row = &self.intent_keywords[i];
            let count = count_matches_in(&chars, &row.keywords);
            proof {
                assert(self@.subrange(0, i + 1).drop_last() =~= self@.subrange(0, i as int));
                assert(self@.subrange(0, i + 1).last() == (
                    row.intent,
                    word_views(row.keywords@),
                ));
            }
            if count > 0 {
                found.push(
                    IntentMatch { intent: row.intent, matches: count, keywords: row.keywords.len() },
                );
            }
            i += 1;
        }
        assert(self@.subrange(0, self.intent_keywords.len() as int) =~= self@);
        found
    }

    /// Finds the intents of a question, whatever the case of its letters.
    pub fn match_intents(&self, text: &str) -> (found: Vec<IntentMatch>)
        ensures
            found@ == matches_in(self@, lowercase(text@)),
    {
        let lowered = to_lowercase(text);
        self.match_lowercase(lowered.as_str())
    }
}

/// The most keywords that are taken from one question.
pub const MAX_KEYWORDS: usize = 10;

/// Whether a word is long enough for a keyword: more than three bytes.
pub open spec fn is_long_word(word: Seq<char>) -> bool {
    encode_utf8(word).len() > 3
}

/// The long words among some words, in order.
pub open spec fn long_words(words: Seq<Seq<char>>) -> Seq<Seq<char>>
    decreases words.len(),
{
    if words.len() == 0 {
        Seq::empty()
    } else if is_long_word(words.last()) {
        long_words(words.drop_last()).push(words.last())
    } else {
        long_words(words.drop_last())
    }
}

/// The keywords among some words: the first ten long ones.
pub open spec fn keywords_among(words: Seq<Seq<char>>) -> Seq<Seq<char>> {
    let long = long_words(words);
    if long.len() <= MAX_KEYWORDS {
        long
    } else {
        long.subrange(0, MAX_KEYWORDS as int)
    }
}

/// Whether a word begins with an upper-case letter.
pub open spec fn is_capitalized(word: Seq<char>) -> bool {
    word.len() > 0 && is_uppercase(word[0])
}

/// The capitalized words among some words, in order.
pub open spec fn capitalized_words(words: Seq<Seq<char>>) -> Seq<Seq<char>>
    decreases words.len(),
{
    if words.len() == 0 {
        Seq::empty()
    } else if is_capitalized(words.last()) {
        capitalized_words(words.drop_last()).push(words.last())
    } else {
        capitalized_words(words.drop_last())
    }
}

/// The long words of a shorter list come first among those of a longer one.
pub proof fn lemma_long_words_grow(words: Seq<Seq<char>>, shorter: int)
    requires
        0 <= shorter <= words.len(),
    ensures
        long_words(words.subrange(0, shorter)).len() <= long_words(words).len(),
        long_words(words).subrange(0, long_words(words.subrange(0, shorter)).len() as int)
            == long_words(words.subrange(0, shorter)),
    decreases words.len(),
{
    if shorter == words.len() {
        assert(words.subrange(0, shorter) =~= words);
        assert(long_words(words).subrange(0, long_words(words).len() as int) =~= long_words(
            words,
        ));
    } else {
        lemma_long_words_grow(words.drop_last(), shorter);
        assert(words.drop_last().subrange(0, shorter) =~= words.subrange(0, shorter));
        let front = long_words(words.subrange(0, shorter));
        assert(long_words(words).subrange(0, front.len() as int) =~= long_words(
            words.drop_last(),
        ).subrange(0, front.len() as int));
    }
}

/// Picks the keywords among the words of a question.
pub fn select_keywords(words: &Vec<String>) -> (keywords: Vec<String>)
    ensures
        text_views(keywords@) == keywords_among(text_views(words@)),
{
    let ghost views = text_views(words@);
    let mut keywords: Vec<String> = Vec::new();
    let mut i: usize = 0;
    assert(text_views(keywords@) =~= long_words(views.subrange(0, 0)));
    while i < words.len() && keywords.len() < MAX_KEYWORDS
        invariant
            i <= words.len(),
            views == text_views(words@),
            keywords@.len() <= MAX_KEYWORDS,
            text_views(keywords@) == long_words(views.subrange(0, i as int)),
        decreases words.len() - i,
    {
        proof {
            assert(views.subrange(0, i + 1).drop_last() =~= views.subrange(0, i as int));
            assert(views.subrange(0, i + 1).last() == words@[i as int]@);
        }
        if words[i].as_str().as_bytes().len() > 3 {
            let ghost before = text_views(keywords@);
            keywords.push(words[i].clone());
            assert(text_views(keywords@) =~= before.push(words@[i as int]@));
        }
        i += 1;
    }
    proof {
        lemma_long_words_grow(views, i as int);
        if i == words.len() {
            assert(views.subrange(0, i as int) =~= views);
        }
        assert(text_views(keywords@).len() == keywords@.len());
        assert(text_views(keywords@) =~= keywords_among(views));
    }
    keywords
}

/// Picks the capitalized words among the words of a question.
pub fn select_entities(words: &Vec<String>) -> (entities: Vec<String>)
    ensures
        text_views(entities@) == capitalized_words(text_views(words@)),
{
    let ghost views = text_views(words@);
    let mut entities: Vec<String> = Vec::new();
    let mut i: usize = 0;
    assert(text_views(entities@) =~= capitalized_words(views.subrange(0, 0)));
    while i < words.len()
        invariant
            i <= words.len(),
            views == text_views(words@),
            text_views(entities@) == capitalized_words(views.subrange(0, i as int)),
        decreases words.len() - i,
    {
        proof {
            assert(views.subrange(0, i + 1).drop_last() =~= views.subrange(0, i as int));
            assert(views.subrange(0, i + 1).last() == words@[i as int]@);
        }
        let letters = chars_of(words[i].as_str());
        if letters.len() > 0 && char_is_uppercase(letters[0]) {
            let ghost before = text_views(entities@);
            entities.push(words[i].clone());
            assert(text_views(entities@) =~= before.push(words@[i as int]@));
        }
        i += 1;
    }
    assert(views.subrange(0, words.len() as int) =~= views);
    entities
}

/// The keywords of a question: the first ten long words of its lower-case
/// form.
pub fn extract_keywords(text: &str) -> (keywords: Vec<String>)
    ensures
        text_views(keywords@) == keywords_among(whitespace_words(lowercase(text@))),
{
    let lowered = to_lowercase(text);
    let words = words_of(lowered.as_str());
    select_keywords(&words)
}

/// The entities of a question: its capitalized words.
pub fn extract_entities(text: &str) -> (entities: Vec<String>)
    ensures
        text_views(entities@) == capitalized_words(whitespace_words(text@)),
{
    let words = words_of(text);
    select_entities(&words)
}

/// The numerator of the share of an intent's keywords that occur. The share
/// is never above one, and it is one where the intent has no keywords.
pub open spec fn share_numerator(found: IntentMatch) -> nat {
    if found.keywords == 0 || found.matches >= found.keywords {
        1
    } else {
        found.matches as nat
    }
}

/// The denominator of the share of an intent's keywords that occur.
pub open spec fn share_denominator(found: IntentMatch) -> nat {
    if found.keywords == 0 || found.matches >= found.keywords {
        1
    } else {
        found.keywords as nat
    }
}

/// Whether `a` is matched with more confidence than `b`: a greater share of
/// its keywords occurs.
pub open spec fn outranks(a: IntentMatch, b: IntentMatch) -> bool {
    share_numerator(a) * share_denominator(b) > share_numerator(b) * share_denominator(a)
}

/// Where a match goes into a ranked list: before the matches at the end
/// that it outranks, behind every other one.
pub open spec fn rank_position(ranked: Seq<IntentMatch>, found: IntentMatch) -> int
    decreases ranked.len(),
{
    if ranked.len() == 0 {
        0
    } else if outranks(found, ranked.last()) {
        rank_position(ranked.drop_last(), found)
    } else {
        ranked.len() as int
    }
}

/// Matches by falling confidence; of two matches of equal confidence the
/// one that came first stays first.
pub open spec fn ranked(found: Seq<IntentMatch>) -> Seq<IntentMatch>
    decreases found.len(),
{
    if found.len() == 0 {
        Seq::empty()
    } else {
        let earlier = ranked(found.drop_last());
        earlier.insert(rank_position(earlier, found.last()), found.last())
    }
}

/// Whether no match of a list is outranked by a later one.
pub open spec fn is_ranked(list: Seq<IntentMatch>) -> bool {
    forall|i: int, j: int| 0 <= i < j < list.len() ==> !outranks(list[j], list[i])
}

/// A match goes in at a position within the list; it outranks every match
/// behind that position and not the one before it.
pub proof fn lemma_rank_position(list: Seq<IntentMatch>, found: IntentMatch)
    ensures
        0 <= rank_position(list, found) <= list.len(),
        forall|j: int|
            rank_position(list, found) <= j < list.len() ==> outranks(found, #[trigger] list[j]),
        rank_position(list, found) > 0 ==> !outranks(
            found,
            list[rank_position(list, found) - 1],
        ),
    decreases list.len(),
{
    if list.len() > 0 && outranks(found, list.last()) {
        let front = list.drop_last();
        lemma_rank_position(front, found);
        assert forall|j: int| rank_position(list, found) <= j < list.len() implies outranks(
            found,
            #[trigger] list[j],
        ) by {
            if j < front.len() {
                assert(list[j] == front[j]);
            }
        }
        if rank_position(list, found) > 0 {
            assert(list[rank_position(list, found) - 1] == front[rank_position(front, found) - 1]);
        }
    }
}

/// Confidence is ordered as fractions are: if `a` does not outrank `b` and
/// `b` does not outrank `c`, then `a` does not outrank `c`.
pub proof fn lemma_outranks_is_transitive(a: IntentMatch, b: IntentMatch, c: IntentMatch)
    requires
        !outranks(a, b),
        !outranks(b, c),
    ensures
        !outranks(a, c),
{
    let an = share_numerator(a) as int;
    let ad = share_denominator(a) as int;
    let bn = share_numerator(b) as int;
    let bd = share_denominator(b) as int;
    let cn = share_numerator(c) as int;
    let cd = share_denominator(c) as int;
    assert(an * cd <= cn * ad) by (nonlinear_arith)
        requires
            an * bd <= bn * ad,
            bn * cd <= cn * bd,
            ad > 0,
            bd > 0,
            cd > 0,
            an >= 0,
            bn >= 0,
            cn >= 0,
    {
        assert(an * bd * cd <= bn * ad * cd);
        assert(bn * cd * ad <= cn * bd * ad);
        assert(bn * ad * cd == bn * cd * ad);
        assert(an * cd * bd == an * bd * cd);
        assert(cn * ad * bd == cn * bd * ad);
        assert(an * cd * bd <= cn * ad * bd);
    }
}

/// Ranking rearranges the matches and leaves them in falling confidence.
pub proof fn law_ranked_is_an_ordered_rearrangement(found: Seq<IntentMatch>)
    ensures
        ranked(found).to_multiset() == found.to_multiset(),
        ranked(found).len() == found.len(),
        is_ranked(ranked(found)),
    decreases found.len(),
{
    broadcast use vstd::seq_lib::to_multiset_build, vstd::seq_lib::to_multiset_insert;

    if found.len() == 0 {
        assert(ranked(found) =~= found);
    } else {
        let earlier = ranked(found.drop_last());
        let last = found.last();
        let at = rank_position(earlier, last);
        law_ranked_is_an_ordered_rearrangement(found.drop_last());
        lemma_rank_position(earlier, last);
        assert(found =~= found.drop_last().push(last));
        assert(earlier.insert(at, last).to_multiset() =~= earlier.to_multiset().insert(last));
        assert(found.drop_last().push(last).to_multiset() =~= found.drop_last().to_multiset().insert(
            last,
        ));
        let result = earlier.insert(at, last);
        assert forall|i: int, j: int| 0 <= i < j < result.len() implies !outranks(
            result[j],
            result[i],
        ) by {
            if j == at {
                // result[i] comes before the position: it is not outranked by the new match
                if at > 0 {
                    lemma_outranks_is_transitive(last, earlier[at - 1], earlier[i]);
                }
            } else if i == at {
                assert(result[j] == earlier[j - 1]);
                assert(outranks(last, earlier[j - 1]));
            } else {
                let before = if i < at { i } else { i - 1 };
                let behind = if j < at { j } else { j - 1 };
                assert(result[i] == earlier[before]);
                assert(result[j] == earlier[behind]);
            }
        }
    }
}

/// Decides whether one match is matched with more confidence than another.
pub fn is_more_confident(a: &IntentMatch, b: &IntentMatch) -> (more: bool)
    ensures
        more == outranks(*a, *b),
{
    let a_whole = a.keywords == 0 || a.matches >= a.keywords;
    let b_whole = b.keywords == 0 || b.matches >= b.keywords;
    let an: u128 = if a_whole { 1 } else { a.matches as u128 };
    let ad: u128 = if a_whole { 1 } else { a.keywords as u128 };
    let bn: u128 = if b_whole { 1 } else { b.matches as u128 };
    let bd: u128 = if b_whole { 1 } else { b.keywords as u128 };
    assert(an * bd <= 0xffff_ffff_ffff_ffff * 0xffff_ffff_ffff_ffff && bn * ad
        <= 0xffff_ffff_ffff_ffff * 0xffff_ffff_ffff_ffff) by (nonlinear_arith)
        requires
            an <= 0xffff_ffff_ffff_ffff,
            ad <= 0xffff_ffff_ffff_ffff,
            bn <= 0xffff_ffff_ffff_ffff,
            bd <= 0xffff_ffff_ffff_ffff,
    ;
    an * bd > bn * ad
}

/// Puts matches in the order of falling confidence; matches of equal
/// confidence keep their order.
pub fn rank_matches(found: &Vec<IntentMatch>) -> (list: Vec<IntentMatch>)
    ensures
        list@ == ranked(found@),
{
    let mut list: Vec<IntentMatch> = Vec::new();
    let mut i: usize = 0;
    assert(found@.subrange(0, 0) =~= Seq::<IntentMatch>::empty());
    while i < found.len()
        invariant
            i <= found.len(),
            list@ == ranked(found@.subrange(0, i as int)),
        decreases found.len() - i,
    {
        let next = found[i];
        let mut at: usize = list.len();
        assert(list@.subrange(0, at as int) =~= list@);
        while at > 0 && is_more_confident(&next, &list[at - 1])
            invariant
                at <= list.len(),
                rank_position(list@, next) == rank_position(list@.subrange(0, at as int), next),
            decreases at,
        {
            assert(list@.subrange(0, at as int).drop_last() =~= list@.subrange(0, at - 1));
            at -= 1;
        }
        proof {
            assert(found@.subrange(0, i + 1).drop_last() =~= found@.subrange(0, i as int));
            assert(found@.subrange(0, i + 1).last() == next);
            if at > 0 {
                assert(list@.subrange(0, at as int).last() == list@[at - 1]);
            }
            assert(rank_position(list@, next) == at);
        }
        list.insert(at, next);
        i += 1;
    }
    assert(found@.subrange(0, found.len() as int) =~= found@);
    list
}

/// What is read from a question.
#[derive(Clone, Debug)]
pub struct ParsedQuestion {
    /// The question as it was asked.
    pub text: String,
    /// The intents whose keywords occur, by falling confidence.
    pub intents: Vec<IntentMatch>,
    /// The first ten long words of the question in lower case.
    pub keywords: Vec<String>,
    /// The capitalized words of the question.
    pub entities: Vec<String>,
}

impl QuestionParser {
    /// Reads a question: its intents by falling confidence, its keywords and
    /// its entities.
    pub fn parse(&self, text: &str) -> (question: ParsedQuestion)
        ensures
            question.text@ == text@,
            question.intents@ == ranked(matches_in(self@, lowercase(text@))),
            text_views(question.keywords@) == keywords_among(whitespace_words(lowercase(text@))),
            text_views(question.entities@) == capitalized_words(whitespace_words(text@)),
    {
        let found = self.match_intents(text);
        ParsedQuestion {
            text: text.to_owned(),
            intents: rank_matches(&found),
            keywords: extract_keywords(text),
            entities: extract_entities(text),
        }
    }

    /// Reads several questions, each as `parse` does.
    pub fn parse_batch(&self, texts: &Vec<String>) -> (questions: Vec<ParsedQuestion>)
        ensures
            questions@.len() == texts@.len(),
            forall|i: int|
                0 <= i < texts@.len() ==> {
                    &&& (#[trigger] questions@[i]).text@ == texts@[i]@
                    &&& questions@[i].intents@ == ranked(matches_in(self@, lowercase(texts@[i]@)))
                    &&& text_views(questions@[i].keywords@) == keywords_among(
                        whitespace_words(lowercase(texts@[i]@)),
                    )
                    &&& text_views(questions@[i].entities@) == capitalized_words(
                        whitespace_words(texts@[i]@),
                    )
                },
    {
        let mut questions: Vec<ParsedQuestion> = Vec::new();
        let mut i: usize = 0;
        while i < texts.len()
            invariant
                i <= texts.len(),
                questions@.len() == i,
                forall|j: int|
                    0 <= j < i ==> {
                        &&& (#[trigger] questions@[j]).text@ == texts@[j]@
                        &&& questions@[j].intents@ == ranked(
                            matches_in(self@, lowercase(texts@[j]@)),
                        )
                        &&& text_views(questions@[j].keywords@) == keywords_among(
                            whitespace_words(lowercase(texts@[j]@)),
                        )
                        &&& text_views(questions@[j].entities@) == capitalized_words(
                            whitespace_words(texts@[j]@),
                        )
                    },
            decreases texts.len() - i,
        {
            questions.push(self.parse(texts[i].as_str()));
            i += 1;
        }
        questions
    }
}

} // verus!
