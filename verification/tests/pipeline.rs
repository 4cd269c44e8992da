use klingon_complete::CompletionResult;
use klingon_complete::Entry;
use klingon_complete::Locale;
use klingon_complete::PartOfSpeech;
use klingon_complete::PosBucket;
use klingon_complete::analysis_header;
use klingon_complete::escape_html;
use klingon_complete::get_completions;
use klingon_complete::last_word;
use klingon_complete::load_dictionary;
use klingon_complete::parse_locale;
use klingon_complete::pos_label;
use klingon_complete::remove_quotes;
use klingon_complete::render_completions;
use klingon_complete::str_eq;

fn entry(id: &str, headword: &str, pos: PartOfSpeech, en: &[&str], sv: &[&str]) -> Entry {
    Entry {
        id: id.to_string(),
        headword: headword.to_string(),
        pos,
        en: en.iter().map(|t| t.to_string()).collect(),
        sv: sv.iter().map(|t| t.to_string()).collect(),
    }
}

#[test]
fn last_word_without_space_is_whole_text() {
    assert_eq!(last_word("ghobe"), "ghobe");
}

#[test]
fn last_word_of_trailing_space_is_empty() {
    assert_eq!(last_word("qaleghpu' "), "");
}

#[test]
fn last_word_takes_final_token() {
    assert_eq!(last_word("jIyaj ghobe"), "ghobe");
    assert_eq!(last_word("a b c"), "c");
}

#[test]
fn last_word_of_empty_text_is_empty() {
    assert_eq!(last_word(""), "");
}

#[test]
fn last_word_ignores_empty_tokens_of_space_runs() {
    assert_eq!(last_word("a  b"), "b");
    assert_eq!(last_word("a b  "), "");
}

#[test]
fn escape_html_escapes_the_three_characters() {
    assert_eq!(escape_html("a&b<c>d"), "a&amp;b&lt;c&gt;d");
}

#[test]
fn escape_html_does_not_double_escape() {
    assert_eq!(escape_html("&"), "&amp;");
    assert_eq!(escape_html("&lt;"), "&amp;lt;");
}

#[test]
fn escape_html_of_plain_text_is_identity() {
    assert_eq!(escape_html(""), "");
    assert_eq!(escape_html("tlhIngan maH"), "tlhIngan maH");
}

#[test]
fn remove_quotes_strips_brackets_and_guillemets() {
    assert_eq!(remove_quotes("\u{ab}batlh\u{bb} <qoS>"), "batlh qoS");
    assert_eq!(remove_quotes("no quotes"), "no quotes");
}

#[test]
fn str_eq_compares_by_characters() {
    assert!(str_eq("ghobe'", "ghobe'"));
    assert!(!str_eq("ghobe'", "ghobe"));
    assert!(!str_eq("a", "b"));
}

#[test]
fn locale_codes_resolve_with_english_fallback() {
    assert_eq!(parse_locale("sv"), Locale::Swedish);
    assert_eq!(parse_locale("en"), Locale::English);
    assert_eq!(parse_locale("de"), Locale::English);
    assert_eq!(parse_locale(""), Locale::English);
    assert_eq!(parse_locale("svx"), Locale::English);
}

#[test]
fn pos_labels_in_both_languages() {
    assert_eq!(pos_label(PartOfSpeech::Adverbial, Locale::English), "adverbial");
    assert_eq!(pos_label(PartOfSpeech::Adverbial, Locale::Swedish), "adverbial");
    assert_eq!(pos_label(PartOfSpeech::Noun, Locale::Swedish), "substantiv");
    assert_eq!(pos_label(PartOfSpeech::NounSuffix3, Locale::English), "noun suffix, type 3");
    assert_eq!(
        pos_label(PartOfSpeech::VerbSuffixRover, Locale::Swedish),
        "verbsuffix, \u{e4}ventyrare"
    );
    assert_eq!(pos_label(PartOfSpeech::Unknown, Locale::English), "unknown");
    assert_eq!(pos_label(PartOfSpeech::Unknown, Locale::Swedish), "ok\u{e4}nt");
}

#[test]
fn analysis_header_is_localized() {
    assert_eq!(analysis_header(Locale::English), "Analysis");
    assert_eq!(analysis_header(Locale::Swedish), "Analys");
}

#[test]
fn suggestion_table_scenario_english() {
    let result = CompletionResult {
        parsed: vec![],
        suggestions: vec![entry(
            "X1",
            "ghobe'",
            PartOfSpeech::Adverbial,
            &["no", "not"],
            &["nej", "inte"],
        )],
    };
    let html = get_completions(Some(&result), "en");
    assert_eq!(
        html,
        "<table><tr><td><b>ghobe'</b></td><td>(<i>adverbial</i>) no, not</td></tr></table>"
    );
    assert!(!html.contains("<hr>"));
}

#[test]
fn suggestion_table_scenario_swedish() {
    let result = CompletionResult {
        parsed: vec![],
        suggestions: vec![entry(
            "X1",
            "ghobe'",
            PartOfSpeech::Adverbial,
            &["no", "not"],
            &["nej", "inte"],
        )],
    };
    let html = get_completions(Some(&result), "sv");
    assert_eq!(
        html,
        "<table><tr><td><b>ghobe'</b></td><td>(<i>adverbial</i>) nej, inte</td></tr></table>"
    );
}

#[test]
fn unloaded_dictionary_renders_empty_string() {
    assert_eq!(get_completions(None, "en"), "");
    assert_eq!(get_completions(None, "sv"), "");
}

#[test]
fn rendering_twice_is_byte_identical() {
    let result = CompletionResult {
        parsed: vec![vec![vec![entry(
            "A1",
            "tlhIngan",
            PartOfSpeech::Noun,
            &["Klingon"],
            &["klingon"],
        )]]],
        suggestions: vec![entry("A2", "maH", PartOfSpeech::Pronoun, &["we"], &["vi"])],
    };
    let first = render_completions(&result, Locale::English);
    let second = render_completions(&result, Locale::English);
    assert_eq!(first, second);
}

#[test]
fn analysis_block_layout() {
    let result = CompletionResult {
        parsed: vec![vec![vec![
            entry("A1", "je", PartOfSpeech::Conjunction, &["and"], &["och"]),
            entry("A2", "je", PartOfSpeech::Adverbial, &["also"], &["ocks\u{e5}"]),
        ]]],
        suggestions: vec![],
    };
    let html = get_completions(Some(&result), "en");
    assert_eq!(
        html,
        "<b>Analysis:</b><dl><dh><b>je</b></dh>\
         <dd>(<i>conjunction</i>) and</dd>\
         <dd>(<i>adverbial</i>) also</dd>\
         </dl><hr><table></table>"
    );
}

#[test]
fn analysis_header_follows_locale() {
    let result = CompletionResult {
        parsed: vec![vec![vec![entry("A1", "je", PartOfSpeech::Conjunction, &["and"], &["och"])]]],
        suggestions: vec![],
    };
    let html = get_completions(Some(&result), "sv");
    assert!(html.starts_with("<b>Analys:</b><dl>"));
    assert!(html.contains("(<i>konjunktion</i>) och"));
}

#[test]
fn parses_separated_by_horizontal_rules() {
    let result = CompletionResult {
        parsed: vec![
            vec![vec![entry("A1", "tlh", PartOfSpeech::Noun, &["a"], &["a"])]],
            vec![vec![entry("A2", "ngan", PartOfSpeech::Noun, &["b"], &["b"])]],
        ],
        suggestions: vec![],
    };
    let html = get_completions(Some(&result), "en");
    assert_eq!(html.matches("<hr>").count(), 2);
    assert_eq!(html.matches("<b>Analysis:</b>").count(), 2);
}

#[test]
fn empty_result_still_emits_a_table() {
    let result = CompletionResult { parsed: vec![], suggestions: vec![] };
    assert_eq!(get_completions(Some(&result), "en"), "<table></table>");
}

#[test]
fn translations_are_stripped_then_escaped() {
    let result = CompletionResult {
        parsed: vec![],
        suggestions: vec![entry(
            "A1",
            "a<b",
            PartOfSpeech::Noun,
            &["\u{ab}x&y\u{bb}", "<z>"],
            &[],
        )],
    };
    let html = get_completions(Some(&result), "en");
    assert_eq!(
        html,
        "<table><tr><td><b>a&lt;b</b></td><td>(<i>noun</i>) x&amp;y, z</td></tr></table>"
    );
}

#[test]
fn headwords_are_escaped_but_not_quote_stripped() {
    let result = CompletionResult {
        parsed: vec![],
        suggestions: vec![entry("A1", "\u{ab}pagh\u{bb}", PartOfSpeech::Noun, &["zero"], &[])],
    };
    let html = get_completions(Some(&result), "en");
    assert!(html.contains("<b>\u{ab}pagh\u{bb}</b>"));
}

#[test]
fn load_dictionary_removes_sentinel_everywhere() {
    let words = vec![
        entry("UjQ", "test", PartOfSpeech::Unknown, &["placeholder"], &["platsh\u{e5}llare"]),
        entry("A1", "tlhIngan", PartOfSpeech::Noun, &["Klingon"], &["klingon"]),
        entry("A2", "maH", PartOfSpeech::Pronoun, &["we"], &["vi"]),
    ];
    let pos_index = vec![
        PosBucket {
            pos: PartOfSpeech::Noun,
            entries: vec![
                entry("A1", "tlhIngan", PartOfSpeech::Noun, &["Klingon"], &["klingon"]),
                entry("UjQ", "test", PartOfSpeech::Noun, &["placeholder"], &[]),
            ],
        },
        PosBucket {
            pos: PartOfSpeech::Pronoun,
            entries: vec![entry("A2", "maH", PartOfSpeech::Pronoun, &["we"], &["vi"])],
        },
    ];
    let dict = load_dictionary(words, pos_index, "UjQ");
    assert_eq!(dict.words.len(), 2);
    assert_eq!(dict.words[0].id, "A1");
    assert_eq!(dict.words[1].id, "A2");
    assert_eq!(dict.pos_index.len(), 2);
    assert_eq!(dict.pos_index[0].entries.len(), 1);
    assert_eq!(dict.pos_index[0].entries[0].id, "A1");
    assert_eq!(dict.pos_index[1].entries.len(), 1);
    assert_eq!(dict.pos_index[1].entries[0].id, "A2");
}

#[test]
fn load_dictionary_keeps_everything_without_sentinel_matches() {
    let words = vec![
        entry("A1", "Hol", PartOfSpeech::Noun, &["language"], &["spr\u{e5}k"]),
        entry("A2", "jatlh", PartOfSpeech::Verb, &["speak"], &["tala"]),
    ];
    let dict = load_dictionary(words, vec![], "UjQ");
    assert_eq!(dict.words.len(), 2);
    assert_eq!(dict.words[0].id, "A1");
    assert_eq!(dict.words[1].id, "A2");
}

#[test]
fn sentinel_filter_is_idempotent() {
    let words = vec![
        entry("UjQ", "test", PartOfSpeech::Unknown, &[], &[]),
        entry("A1", "Hol", PartOfSpeech::Noun, &["language"], &["spr\u{e5}k"]),
    ];
    let once = load_dictionary(words, vec![], "UjQ");
    let twice = load_dictionary(once.words, once.pos_index, "UjQ");
    assert_eq!(twice.words.len(), 1);
    assert_eq!(twice.words[0].id, "A1");
}

#[test]
fn filtered_dictionary_yields_sentinel_free_output() {
    let words = vec![
        entry("UjQ", "forbidden", PartOfSpeech::Unknown, &["secret"], &[]),
        entry("A1", "Hol", PartOfSpeech::Noun, &["language"], &["spr\u{e5}k"]),
    ];
    let dict = load_dictionary(words, vec![], "UjQ");
    let suggestions = dict
        .words
        .iter()
        .map(|w| {
            entry(
                &w.id,
                &w.headword,
                w.pos,
                &w.en.iter().map(|t| t.as_str()).collect::<Vec<_>>(),
                &w.sv.iter().map(|t| t.as_str()).collect::<Vec<_>>(),
            )
        })
        .collect();
    let result = CompletionResult { parsed: vec![], suggestions };
    let html = get_completions(Some(&result), "en");
    assert!(!html.contains("forbidden"));
    assert!(!html.contains("secret"));
    assert!(html.contains("Hol"));
}
