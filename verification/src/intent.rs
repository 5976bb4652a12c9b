//! The intents of a question and the keywords that announce them.

use crate::text::{lowercase, same_text, to_lowercase};
use vstd::prelude::*;

verus! {

/// What a question asks for.
#[derive(Clone, Copy, Debug, PartialEq, Eq, Structural, Hash)]
pub enum Intent {
    Factual,
    Comparison,
    Explanation,
    Procedural,
    Opinion,
    Temporal,
    Causal,
    Hypothetical,
}

/// Every intent, in the order of declaration.
pub open spec fn all_intents() -> Seq<Intent> {
    seq![
        Intent::Factual,
        Intent::Comparison,
        Intent::Explanation,
        Intent::Procedural,
        Intent::Opinion,
        Intent::Temporal,
        Intent::Causal,
        Intent::Hypothetical,
    ]
}

/// The intent that a lower-case name stands for, if any.
pub open spec fn intent_named(name: Seq<char>) -> Option<Intent> {
    if name == "factual"@ {
        Some(Intent::Factual)
    } else if name == "comparison"@ {
        Some(Intent::Comparison)
    } else if name == "explanation"@ {
        Some(Intent::Explanation)
    } else if name == "procedural"@ {
        Some(Intent::Procedural)
    } else if name == "opinion"@ {
        Some(Intent::Opinion)
    } else if name == "temporal"@ {
        Some(Intent::Temporal)
    } else if name == "causal"@ {
        Some(Intent::Causal)
    } else if name == "hypothetical"@ {
        Some(Intent::Hypothetical)
    } else {
        None
    }
}

impl Intent {
    /// The lower-case name of an intent.
    pub open spec fn name(self) -> Seq<char> {
        match self {
            Intent::Factual => "factual"@,
            Intent::Comparison => "comparison"@,
            Intent::Explanation => "explanation"@,
            Intent::Procedural => "procedural"@,
            Intent::Opinion => "opinion"@,
            Intent::Temporal => "temporal"@,
            Intent::Causal => "causal"@,
            Intent::Hypothetical => "hypothetical"@,
        }
    }

    /// Every intent, in the order of declaration.
    pub fn all() -> (intents: Vec<Intent>)
        ensures
            intents@ == all_intents(),
    {
        let intents = vec![
            Intent::Factual,
            Intent::Comparison,
            Intent::Explanation,
            Intent::Procedural,
            Intent::Opinion,
            Intent::Temporal,
            Intent::Causal,
            Intent::Hypothetical,
        ];
        assert(intents@ =~= all_intents());
        intents
    }

    /// Reads an intent from its name in lower case.
    pub fn from_lowercase(name: &str) -> (intent: Option<Intent>)
        ensures
            intent == intent_named(name@),
    {
        if same_text(name, "factual") {
            Some(Intent::Factual)
        } else if same_text(name, "comparison") {
            Some(Intent::Comparison)
        } else if same_text(name, "explanation") {
            Some(Intent::Explanation)
        } else if same_text(name, "procedural") {
            Some(Intent::Procedural)
        } else if same_text(name, "opinion") {
            Some(Intent::Opinion)
        } else if same_text(name, "temporal") {
            Some(Intent::Temporal)
        } else if same_text(name, "causal") {
            Some(Intent::Causal)
        } else if same_text(name, "hypothetical") {
            Some(Intent::Hypothetical)
        } else {
            None
        }
    }

    /// Reads an intent from its name, whatever the case of its letters.
    pub fn from_str(s: &str) -> (intent: Option<Intent>)
        ensures
            intent == intent_named(lowercase(s@)),
    {
        let lowered = to_lowercase(s);
        Intent::from_lowercase(lowered.as_str())
    }

    pub fn as_str(&self) -> (name: &'static str)
        ensures
            name@ == self.name(),
    {
        match self {
            Intent::Factual => "factual",
            Intent::Comparison => "comparison",
            Intent::Explanation => "explanation",
            Intent::Procedural => "procedural",
            Intent::Opinion => "opinion",
            Intent::Temporal => "temporal",
            Intent::Causal => "causal",
            Intent::Hypothetical => "hypothetical",
        }
    }
}

/// Every intent is read back from its own name.
pub proof fn law_name_reads_back(intent: Intent)
    ensures
        intent_named(intent.name()) == Some(intent),
{
    reveal_strlit("factual");
    reveal_strlit("comparison");
    reveal_strlit("explanation");
    reveal_strlit("procedural");
    reveal_strlit("opinion");
    reveal_strlit("temporal");
    reveal_strlit("causal");
    reveal_strlit("hypothetical");
    assert("factual"@.len() == 7);
    assert("comparison"@.len() == 10);
    assert("explanation"@.len() == 11);
    assert("procedural"@.len() == 10);
    assert("opinion"@.len() == 7);
    assert("temporal"@.len() == 8);
    assert("causal"@.len() == 6);
    assert("hypothetical"@.len() == 12);
    assert("factual"@[0] == 'f');
    assert("opinion"@[0] == 'o');
    assert("comparison"@[0] == 'c');
    assert("procedural"@[0] == 'p');
}

} // verus!
