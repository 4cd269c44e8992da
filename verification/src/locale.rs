//! Display languages and the localization table: a total mapping from
//! part-of-speech tags to language-specific labels, plus the section header
//! of the analysis block.

use vstd::prelude::*;
use vstd::string::StrSliceExecFns;
use crate::model::PartOfSpeech;

verus! {

/// A supported display language. Any unrecognized locale code falls back
/// to English.
#[derive(Clone, Copy, PartialEq, Eq, Structural, Debug)]
pub enum Locale {
    English,
    Swedish,
}

/// Which display language a locale code selects: `"sv"` selects Swedish,
/// everything else falls back to English.
pub open spec fn locale_of(code: Seq<char>) -> Locale {
    if code == seq!['s', 'v'] {
        Locale::Swedish
    } else {
        Locale::English
    }
}

/// Resolves a locale code to a display language; unrecognized codes are
/// never an error and silently fall back to English.
pub fn parse_locale(code: &str) -> (locale: Locale)
    ensures
        locale == locale_of(code@),
{
    let n: usize = code.unicode_len();
    if n == 2 && code.get_char(0) == 's' && code.get_char(1) == 'v' {
        proof {
            assert(code@ =~= seq!['s', 'v']);
        }
        Locale::Swedish
    } else {
        proof {
            if code@ == seq!['s', 'v'] {
                assert(code@.len() == 2);
                assert(code@[0] == 's' && code@[1] == 'v');
            }
        }
        Locale::English
    }
}

/// The English display label of a part-of-speech tag.
pub open spec fn spec_pos_label_en(pos: PartOfSpeech) -> Seq<char> {
    match pos {
        PartOfSpeech::Adverbial => "adverbial"@,
        PartOfSpeech::Conjunction => "conjunction"@,
        PartOfSpeech::Exclamation => "exclamation"@,
        PartOfSpeech::Name => "name"@,
        PartOfSpeech::Noun => "noun"@,
        PartOfSpeech::NounSuffix1 => "noun suffix, type 1"@,
        PartOfSpeech::NounSuffix2 => "noun suffix, type 2"@,
        PartOfSpeech::NounSuffix3 => "noun suffix, type 3"@,
        PartOfSpeech::NounSuffix4 => "noun suffix, type 4"@,
        PartOfSpeech::NounSuffix5 => "noun suffix, type 5"@,
        PartOfSpeech::Numeral => "numeral"@,
        PartOfSpeech::Pronoun => "pronoun"@,
        PartOfSpeech::QuestionWord => "question word"@,
        PartOfSpeech::Verb => "verb"@,
        PartOfSpeech::VerbPrefix => "verb prefix"@,
        PartOfSpeech::VerbSuffix1 => "verb suffix, type 1"@,
        PartOfSpeech::VerbSuffix2 => "verb suffix, type 2"@,
        PartOfSpeech::VerbSuffix3 => "verb suffix, type 3"@,
        PartOfSpeech::VerbSuffix4 => "verb suffix, type 4"@,
        PartOfSpeech::VerbSuffix5 => "verb suffix, type 5"@,
        PartOfSpeech::VerbSuffix6 => "verb suffix, type 6"@,
        PartOfSpeech::VerbSuffix7 => "verb suffix, type 7"@,
        PartOfSpeech::VerbSuffix8 => "verb suffix, type 8"@,
        PartOfSpeech::VerbSuffix9 => "verb suffix, type 9"@,
        PartOfSpeech::VerbSuffixRover => "verb suffix, rover"@,
        PartOfSpeech::Unknown => "unknown"@,
    }
}

/// The Swedish display label of a part-of-speech tag.
pub open spec fn spec_pos_label_sv(pos: PartOfSpeech) -> Seq<char> {
    match pos {
        PartOfSpeech::Adverbial => "adverbial"@,
        PartOfSpeech::Conjunction => "konjunktion"@,
        PartOfSpeech::Exclamation => "interjektion"@,
        PartOfSpeech::Name => "namn"@,
        PartOfSpeech::Noun => "substantiv"@,
        PartOfSpeech::NounSuffix1 => "substantivsuffix, typ 1"@,
        PartOfSpeech::NounSuffix2 => "substantivsuffix, typ 2"@,
        PartOfSpeech::NounSuffix3 => "substantivsuffix, typ 3"@,
        PartOfSpeech::NounSuffix4 => "substantivsuffix, typ 4"@,
        PartOfSpeech::NounSuffix5 => "substantivsuffix, typ 5"@,
        PartOfSpeech::Numeral => "numeral"@,
        PartOfSpeech::Pronoun => "pronomen"@,
        PartOfSpeech::QuestionWord => "fr\u{00e5}geord"@,
        PartOfSpeech::Verb => "verb"@,
        PartOfSpeech::VerbPrefix => "verbprefix"@,
        PartOfSpeech::VerbSuffix1 => "verbsuffix, typ 1"@,
        PartOfSpeech::VerbSuffix2 => "verbsuffix, typ 2"@,
        PartOfSpeech::VerbSuffix3 => "verbsuffix, typ 3"@,
        PartOfSpeech::VerbSuffix4 => "verbsuffix, typ 4"@,
        PartOfSpeech::VerbSuffix5 => "verbsuffix, typ 5"@,
        PartOfSpeech::VerbSuffix6 => "verbsuffix, typ 6"@,
        PartOfSpeech::VerbSuffix7 => "verbsuffix, typ 7"@,
        PartOfSpeech::VerbSuffix8 => "verbsuffix, typ 8"@,
        PartOfSpeech::VerbSuffix9 => "verbsuffix, typ 9"@,
        PartOfSpeech::VerbSuffixRover => "verbsuffix, \u{00e4}ventyrare"@,
        PartOfSpeech::Unknown => "ok\u{00e4}nt"@,
    }
}

/// The display label of a part-of-speech tag in the given language.
pub open spec fn spec_pos_label(pos: PartOfSpeech, locale: Locale) -> Seq<char> {
    match locale {
        Locale::English => spec_pos_label_en(pos),
        Locale::Swedish => spec_pos_label_sv(pos),
    }
}

/// Looks up the display label for a part-of-speech tag. The mapping is an
/// exhaustive match, so the lookup is total and never fails.
pub fn pos_label(pos: PartOfSpeech, locale: Locale) -> (label: &'static str)
    ensures
        label@ == spec_pos_label(pos, locale),
{
    match locale {
        Locale::English => match pos {
            PartOfSpeech::Adverbial => "adverbial",
            PartOfSpeech::Conjunction => "conjunction",
            PartOfSpeech::Exclamation => "exclamation",
            PartOfSpeech::Name => "name",
            PartOfSpeech::Noun => "noun",
            PartOfSpeech::NounSuffix1 => "noun suffix, type 1",
            PartOfSpeech::NounSuffix2 => "noun suffix, type 2",
            PartOfSpeech::NounSuffix3 => "noun suffix, type 3",
            PartOfSpeech::NounSuffix4 => "noun suffix, type 4",
            PartOfSpeech::NounSuffix5 => "noun suffix, type 5",
            PartOfSpeech::Numeral => "numeral",
            PartOfSpeech::Pronoun => "pronoun",
            PartOfSpeech::QuestionWord => "question word",
            PartOfSpeech::Verb => "verb",
            PartOfSpeech::VerbPrefix => "verb prefix",
            PartOfSpeech::VerbSuffix1 => "verb suffix, type 1",
            PartOfSpeech::VerbSuffix2 => "verb suffix, type 2",
            PartOfSpeech::VerbSuffix3 => "verb suffix, type 3",
            PartOfSpeech::VerbSuffix4 => "verb suffix, type 4",
            PartOfSpeech::VerbSuffix5 => "verb suffix, type 5",
            PartOfSpeech::VerbSuffix6 => "verb suffix, type 6",
            PartOfSpeech::VerbSuffix7 => "verb suffix, type 7",
            PartOfSpeech::VerbSuffix8 => "verb suffix, type 8",
            PartOfSpeech::VerbSuffix9 => "verb suffix, type 9",
            PartOfSpeech::VerbSuffixRover => "verb suffix, rover",
            PartOfSpeech::Unknown => "unknown",
        },
        Locale::Swedish => match pos {
            PartOfSpeech::Adverbial => "adverbial",
            PartOfSpeech::Conjunction => "konjunktion",
            PartOfSpeech::Exclamation => "interjektion",
            PartOfSpeech::Name => "namn",
            PartOfSpeech::Noun => "substantiv",
            PartOfSpeech::NounSuffix1 => "substantivsuffix, typ 1",
            PartOfSpeech::NounSuffix2 => "substantivsuffix, typ 2",
            PartOfSpeech::NounSuffix3 => "substantivsuffix, typ 3",
            PartOfSpeech::NounSuffix4 => "substantivsuffix, typ 4",
            PartOfSpeech::NounSuffix5 => "substantivsuffix, typ 5",
            PartOfSpeech::Numeral => "numeral",
            PartOfSpeech::Pronoun => "pronomen",
            PartOfSpeech::QuestionWord => "fr\u{00e5}geord",
            PartOfSpeech::Verb => "verb",
            PartOfSpeech::VerbPrefix => "verbprefix",
            PartOfSpeech::VerbSuffix1 => "verbsuffix, typ 1",
            PartOfSpeech::VerbSuffix2 => "verbsuffix, typ 2",
            PartOfSpeech::VerbSuffix3 => "verbsuffix, typ 3",
            PartOfSpeech::VerbSuffix4 => "verbsuffix, typ 4",
            PartOfSpeech::VerbSuffix5 => "verbsuffix, typ 5",
            PartOfSpeech::VerbSuffix6 => "verbsuffix, typ 6",
            PartOfSpeech::VerbSuffix7 => "verbsuffix, typ 7",
            PartOfSpeech::VerbSuffix8 => "verbsuffix, typ 8",
            PartOfSpeech::VerbSuffix9 => "verbsuffix, typ 9",
            PartOfSpeech::VerbSuffixRover => "verbsuffix, \u{00e4}ventyrare",
            PartOfSpeech::Unknown => "ok\u{00e4}nt",
        },
    }
}

/// The section header word of the analysis block in the given language.
pub open spec fn spec_analysis_header(locale: Locale) -> Seq<char> {
    match locale {
        Locale::English => "Analysis"@,
        Locale::Swedish => "Analys"@,
    }
}

/// The header word above each analysis block.
pub fn analysis_header(locale: Locale) -> (header: &'static str)
    ensures
        header@ == spec_analysis_header(locale),
{
    match locale {
        Locale::English => "Analysis",
        Locale::Swedish => "Analys",
    }
}

/// The localization table is total and label-complete: every part-of-speech
/// tag has a non-empty label in every supported language.
pub proof fn lemma_pos_label_total(pos: PartOfSpeech, locale: Locale)
    ensures
        spec_pos_label(pos, locale).len() > 0,
{
    reveal_strlit("adverbial");
    reveal_strlit("conjunction");
    reveal_strlit("exclamation");
    reveal_strlit("name");
    reveal_strlit("noun");
    reveal_strlit("noun suffix, type 1");
    reveal_strlit("noun suffix, type 2");
    reveal_strlit("noun suffix, type 3");
    reveal_strlit("noun suffix, type 4");
    reveal_strlit("noun suffix, type 5");
    reveal_strlit("numeral");
    reveal_strlit("pronoun");
    reveal_strlit("question word");
    reveal_strlit("verb");
    reveal_strlit("verb prefix");
    reveal_strlit("verb suffix, type 1");
    reveal_strlit("verb suffix, type 2");
    reveal_strlit("verb suffix, type 3");
    reveal_strlit("verb suffix, type 4");
    reveal_strlit("verb suffix, type 5");
    reveal_strlit("verb suffix, type 6");
    reveal_strlit("verb suffix, type 7");
    reveal_strlit("verb suffix, type 8");
    reveal_strlit("verb suffix, type 9");
    reveal_strlit("verb suffix, rover");
    reveal_strlit("unknown");
    reveal_strlit("konjunktion");
    reveal_strlit("interjektion");
    reveal_strlit("namn");
    reveal_strlit("substantiv");
    reveal_strlit("substantivsuffix, typ 1");
    reveal_strlit("substantivsuffix, typ 2");
    reveal_strlit("substantivsuffix, typ 3");
    reveal_strlit("substantivsuffix, typ 4");
    reveal_strlit("substantivsuffix, typ 5");
    reveal_strlit("pronomen");
    reveal_strlit("fr\u{00e5}geord");
    reveal_strlit("verbprefix");
    reveal_strlit("verbsuffix, typ 1");
    reveal_strlit("verbsuffix, typ 2");
    reveal_strlit("verbsuffix, typ 3");
    reveal_strlit("verbsuffix, typ 4");
    reveal_strlit("verbsuffix, typ 5");
    reveal_strlit("verbsuffix, typ 6");
    reveal_strlit("verbsuffix, typ 7");
    reveal_strlit("verbsuffix, typ 8");
    reveal_strlit("verbsuffix, typ 9");
    reveal_strlit("verbsuffix, \u{00e4}ventyrare");
    reveal_strlit("ok\u{00e4}nt");
}

} // verus!
