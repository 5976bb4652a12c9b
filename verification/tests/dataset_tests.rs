use limit::dataset::{
    contains_intent, count_intent, entry_from_record, intents_in_pieces, parse_intent_list,
    synthetic_entry,
};
use limit::{Intent, IntentCount, MuISQADataset, MuISQAEntry};

#[test]
fn test_entry_creation() {
    let entry = MuISQAEntry::new(
        "q1".to_string(),
        "What is AI?".to_string(),
        vec![Intent::Factual, Intent::Explanation],
    );

    assert!(entry.is_multi_intent());
    assert_eq!(entry.primary_intent(), Some(&Intent::Factual));
}

#[test]
fn test_synthetic_dataset() {
    let dataset = MuISQADataset::synthetic(10);
    assert_eq!(dataset.entries.len(), 10);

    let stats = dataset.stats();
    assert_eq!(stats.total_entries, 10);
    assert!(stats.multi_intent_entries > 0);
}

#[test]
fn new_entry_is_bare() {
    let entry = MuISQAEntry::new("e".to_string(), "Why?".to_string(), vec![]);
    assert_eq!(entry.id, "e");
    assert_eq!(entry.question, "Why?");
    assert!(entry.intents.is_empty());
    assert_eq!(entry.context, None);
    assert_eq!(entry.gold_answer, None);
    assert_eq!(entry.metadata, serde_json::Value::Object(serde_json::Map::new()));
    assert!(!entry.is_multi_intent());
    assert_eq!(entry.primary_intent(), None);
    let single = MuISQAEntry::new("s".to_string(), "How?".to_string(), vec![Intent::Causal]);
    assert!(!single.is_multi_intent());
    assert_eq!(single.primary_intent(), Some(&Intent::Causal));
}

#[test]
fn builders_set_one_field_each() {
    let entry = MuISQAEntry::new("e".to_string(), "Why?".to_string(), vec![Intent::Opinion])
        .with_context("ctx".to_string())
        .with_answer("ans".to_string())
        .with_metadata(serde_json::Value::Bool(true));
    assert_eq!(entry.id, "e");
    assert_eq!(entry.question, "Why?");
    assert_eq!(entry.intents, vec![Intent::Opinion]);
    assert_eq!(entry.context.as_deref(), Some("ctx"));
    assert_eq!(entry.gold_answer.as_deref(), Some("ans"));
    assert_eq!(entry.metadata, serde_json::Value::Bool(true));
}

#[test]
fn synthetic_entries_follow_their_pattern() {
    let dataset = MuISQADataset::synthetic(12);
    assert_eq!(dataset.name, "synthetic");
    assert_eq!(dataset.entries[0].id, "q0");
    assert_eq!(dataset.entries[0].question, "What is the answer to question 0?");
    assert_eq!(dataset.entries[0].intents, vec![Intent::Factual, Intent::Comparison]);
    assert_eq!(dataset.entries[0].context.as_deref(), Some("Context for question 0"));
    assert_eq!(dataset.entries[0].gold_answer.as_deref(), Some("Answer to question 0"));
    assert_eq!(dataset.entries[1].intents, vec![Intent::Explanation, Intent::Causal]);
    assert_eq!(dataset.entries[2].intents, vec![Intent::Procedural]);
    assert_eq!(dataset.entries[11].id, "q11");
    assert_eq!(dataset.entries[11].question, "What is the answer to question 11?");
    assert_eq!(dataset.entries[11].intents, vec![Intent::Procedural]);
    assert_eq!(synthetic_entry(1234567890123).id, "q1234567890123");
    assert!(MuISQADataset::synthetic(0).entries.is_empty());
}

#[test]
fn stats_of_synthetic_dataset_are_exact() {
    let stats = MuISQADataset::synthetic(10).stats();
    assert_eq!(stats.total_entries, 10);
    assert_eq!(stats.multi_intent_entries, 7);
    assert_eq!(stats.single_intent_entries, 3);
    assert_eq!(
        stats.intent_distribution,
        vec![
            IntentCount { intent: Intent::Factual, count: 4 },
            IntentCount { intent: Intent::Comparison, count: 4 },
            IntentCount { intent: Intent::Explanation, count: 3 },
            IntentCount { intent: Intent::Procedural, count: 3 },
            IntentCount { intent: Intent::Causal, count: 3 },
        ]
    );
    let empty = MuISQADataset::new("none".to_string()).stats();
    assert_eq!(empty.total_entries, 0);
    assert_eq!(empty.multi_intent_entries, 0);
    assert_eq!(empty.single_intent_entries, 0);
    assert!(empty.intent_distribution.is_empty());
}

#[test]
fn dataset_finds_and_filters_entries() {
    let mut dataset = MuISQADataset::new("mine".to_string());
    assert_eq!(dataset.name, "mine");
    assert!(dataset.get_entry("a").is_none());
    dataset.add_entry(MuISQAEntry::new("a".into(), "first".into(), vec![Intent::Factual]));
    dataset.add_entry(MuISQAEntry::new(
        "b".into(),
        "second".into(),
        vec![Intent::Opinion, Intent::Factual, Intent::Factual],
    ));
    dataset.add_entry(MuISQAEntry::new("a".into(), "third".into(), vec![Intent::Temporal]));
    assert_eq!(dataset.entries.len(), 3);
    assert_eq!(dataset.get_entry("a").map(|e| e.question.as_str()), Some("first"));
    assert_eq!(dataset.get_entry("b").map(|e| e.question.as_str()), Some("second"));
    assert!(dataset.get_entry("c").is_none());
    assert!(dataset.get_entry("").is_none());

    let factual: Vec<&str> =
        dataset.filter_by_intent(&Intent::Factual).iter().map(|e| e.question.as_str()).collect();
    assert_eq!(factual, vec!["first", "second"]);
    assert!(dataset.filter_by_intent(&Intent::Causal).is_empty());
    let many: Vec<&str> =
        dataset.multi_intent_entries().iter().map(|e| e.question.as_str()).collect();
    assert_eq!(many, vec!["second"]);
    assert_eq!(dataset.count_intent(Intent::Factual), 3);
    assert_eq!(dataset.count_intent(Intent::Temporal), 1);
    assert_eq!(dataset.count_intent(Intent::Causal), 0);
    assert_eq!(count_intent(&dataset.entries[1].intents, Intent::Factual), 2);
    assert!(contains_intent(&dataset.entries[1].intents, Intent::Opinion));
    assert!(!contains_intent(&dataset.entries[1].intents, Intent::Causal));
}

#[test]
fn intent_lists_are_split_trimmed_and_read() {
    assert_eq!(
        parse_intent_list("factual, Comparison ,bogus,,CAUSAL"),
        vec![Intent::Factual, Intent::Comparison, Intent::Causal]
    );
    assert_eq!(parse_intent_list(""), Vec::<Intent>::new());
    assert_eq!(parse_intent_list(" opinion "), vec![Intent::Opinion]);
    assert_eq!(parse_intent_list("fact ual"), Vec::<Intent>::new());
    assert_eq!(
        intents_in_pieces(&vec!["\ttemporal\n".to_string(), "x".to_string()]),
        vec![Intent::Temporal]
    );
    let entry = entry_from_record(
        "r1".to_string(),
        "Q".to_string(),
        "procedural,hypothetical",
        Some("c".to_string()),
        None,
    );
    assert_eq!(entry.id, "r1");
    assert_eq!(entry.question, "Q");
    assert_eq!(entry.intents, vec![Intent::Procedural, Intent::Hypothetical]);
    assert_eq!(entry.context.as_deref(), Some("c"));
    assert_eq!(entry.gold_answer, None);
}

#[test]
fn copies_of_entries_keep_their_metadata() {
    let mut fields = serde_json::Map::new();
    fields.insert("source".to_string(), serde_json::Value::String("survey".to_string()));
    let entry = MuISQAEntry::new("e".to_string(), "Why?".to_string(), vec![Intent::Causal])
        .with_metadata(serde_json::Value::Object(fields));
    let copy = entry.clone();
    assert_eq!(copy.metadata, entry.metadata);
    assert_eq!(copy.metadata["source"], serde_json::Value::String("survey".to_string()));
    assert_eq!(copy.id, "e");
    assert_eq!(copy.intents, vec![Intent::Causal]);
}
