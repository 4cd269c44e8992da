//! The data the renderer works on: dictionary entries, part-of-speech tags
//! and the structured result of the completion engine.

use vstd::prelude::*;
use crate::locale::Locale;

verus! {

/// A closed enumeration of the grammatical categories a dictionary entry
/// can carry.
#[derive(Clone, Copy, PartialEq, Eq, Structural, Debug)]
pub enum PartOfSpeech {
    Adverbial,
    Conjunction,
    Exclamation,
    Name,
    Noun,
    NounSuffix1,
    NounSuffix2,
    NounSuffix3,
    NounSuffix4,
    NounSuffix5,
    Numeral,
    Pronoun,
    QuestionWord,
    Verb,
    VerbPrefix,
    VerbSuffix1,
    VerbSuffix2,
    VerbSuffix3,
    VerbSuffix4,
    VerbSuffix5,
    VerbSuffix6,
    VerbSuffix7,
    VerbSuffix8,
    VerbSuffix9,
    VerbSuffixRover,
    Unknown,
}

/// A single lexical entry: a stable identifier, the source-language
/// headword, a part-of-speech tag and a translation list per supported
/// display language.
pub struct Entry {
    pub id: String,
    pub headword: String,
    pub pos: PartOfSpeech,
    pub en: Vec<String>,
    pub sv: Vec<String>,
}

/// The translation list of an entry that the given display language
/// selects.
pub open spec fn spec_translations(entry: Entry, locale: Locale) -> Seq<Seq<char>> {
    match locale {
        Locale::English => entry.en.deep_view(),
        Locale::Swedish => entry.sv.deep_view(),
    }
}

/// The completion engine's structured output: `parsed` holds each candidate
/// morphological segmentation as a sequence of word-slots, each slot the
/// homonym entries sharing one headword; `suggestions` holds the ranked
/// candidate entries for the trailing fragment.
pub struct CompletionResult {
    pub parsed: Vec<Vec<Vec<Entry>>>,
    pub suggestions: Vec<Entry>,
}

/// Well-formedness of an engine result: every word-slot of every parse
/// holds at least one homonym, so each slot has a headword to display.
pub open spec fn result_wf(result: CompletionResult) -> bool {
    forall|i: int, j: int|
        0 <= i < result.parsed@.len() && 0 <= j < result.parsed@[i]@.len()
            ==> #[trigger] result.parsed@[i]@[j]@.len() > 0
}

} // verus!
