//! The HTML renderer: deterministically serialises a completion result into
//! a single HTML fragment. Each parse becomes a labeled analysis block with
//! a definition list of its word-slots, closed by a horizontal rule; the
//! suggestions always become a table, one row per suggestion. All
//! dictionary-originated text is HTML-escaped, and translation text is
//! stripped of decorative quotation marks before it is escaped.

use vstd::prelude::*;
use vstd::string::StringExecFns;
use crate::locale::{Locale, analysis_header, locale_of, parse_locale, pos_label, spec_analysis_header, spec_pos_label};
use crate::model::{CompletionResult, Entry, result_wf, spec_translations};
use crate::text::{contains_seq, escape_char, escape_html, escape_text, remove_quotes, strip_quotes};

verus! {

/// The translation strings joined with a comma and a space between
/// consecutive elements.
pub open spec fn join_comma_spec(parts: Seq<Seq<char>>) -> Seq<char>
    decreases parts.len(),
{
    if parts.len() == 0 {
        Seq::empty()
    } else if parts.len() == 1 {
        parts[0]
    } else {
        join_comma_spec(parts.drop_last()) + ", "@ + parts.last()
    }
}

/// Joins translation strings with `", "`.
fn join_comma(parts: &Vec<String>) -> (out: String)
    ensures
        out@ == join_comma_spec(parts.deep_view()),
{
    let ghost dv: Seq<Seq<char>> = parts.deep_view();
    let mut out = String::new();
    let mut i: usize = 0;
    while i < parts.len()
        invariant
            dv == parts.deep_view(),
            dv.len() == parts@.len(),
            forall|k: int| 0 <= k < dv.len() ==> dv[k] == parts@[k]@,
            i <= parts@.len(),
            out@ == join_comma_spec(dv.take(i as int)),
        decreases parts@.len() - i,
    {
        if i > 0 {
            out.append(", ");
        }
        let part: &String = &parts[i];
        out.append(part.as_str());
        proof {
            let t = dv.take(i as int + 1);
            assert(t.drop_last() =~= dv.take(i as int));
            assert(t.last() == dv[i as int]);
            if i == 0 {
                assert(out@ =~= join_comma_spec(t));
            } else {
                assert(out@ =~= join_comma_spec(dv.take(i as int)) + ", "@ + dv[i as int]);
            }
        }
        i += 1;
    }
    proof {
        assert(dv.take(parts@.len() as int) =~= dv);
    }
    out
}

/// The body shared by definition entries and suggestion cells: the
/// localized part-of-speech label in italics between parentheses, then the
/// entry's translations in the requested language, joined, quote-stripped
/// and escaped.
pub open spec fn entry_line_spec(entry: Entry, locale: Locale) -> Seq<char> {
    "(<i>"@ + spec_pos_label(entry.pos, locale) + "</i>) "@ + escape_text(
        strip_quotes(join_comma_spec(spec_translations(entry, locale))),
    )
}

/// Renders the part-of-speech label and translation text of one entry.
fn entry_line(entry: &Entry, locale: Locale) -> (out: String)
    ensures
        out@ == entry_line_spec(*entry, locale),
{
    let mut out = String::from_str("(<i>");
    out.append(pos_label(entry.pos, locale));
    out.append("</i>) ");
    let joined = match locale {
        Locale::English => join_comma(&entry.en),
        Locale::Swedish => join_comma(&entry.sv),
    };
    let stripped = remove_quotes(joined.as_str());
    let escaped = escape_html(stripped.as_str());
    out.append(escaped.as_str());
    proof {
        assert(out@ =~= entry_line_spec(*entry, locale));
    }
    out
}

/// One row of the suggestions table: the escaped headword in bold, then the
/// entry's label and translations.
pub open spec fn suggestion_row_spec(entry: Entry, locale: Locale) -> Seq<char> {
    "<tr><td><b>"@ + escape_text(entry.headword@) + "</b></td><td>"@ + entry_line_spec(
        entry,
        locale,
    ) + "</td></tr>"@
}

/// All suggestion rows in their ranked order.
pub open spec fn suggestion_rows_spec(suggestions: Seq<Entry>, locale: Locale) -> Seq<char>
    decreases suggestions.len(),
{
    if suggestions.len() == 0 {
        Seq::empty()
    } else {
        suggestion_rows_spec(suggestions.drop_last(), locale) + suggestion_row_spec(
            suggestions.last(),
            locale,
        )
    }
}

/// The suggestions section: a table, present even when empty.
pub open spec fn suggestions_table_spec(suggestions: Seq<Entry>, locale: Locale) -> Seq<char> {
    "<table>"@ + suggestion_rows_spec(suggestions, locale) + "</table>"@
}

/// One word-slot of a parse: the slot's display key — the escaped headword
/// of its first homonym — as a term, then one definition entry per homonym.
pub open spec fn slot_spec(slot: Seq<Entry>, locale: Locale) -> Seq<char> {
    "<dh><b>"@ + escape_text(slot[0].headword@) + "</b></dh>"@ + slot_items_spec(slot, locale)
}

/// The definition entries of one word-slot, one per homonym.
pub open spec fn slot_items_spec(slot: Seq<Entry>, locale: Locale) -> Seq<char>
    decreases slot.len(),
{
    if slot.len() == 0 {
        Seq::empty()
    } else {
        slot_items_spec(slot.drop_last(), locale) + "<dd>"@ + entry_line_spec(slot.last(), locale)
            + "</dd>"@
    }
}

/// The word-slots of one parse, in order.
pub open spec fn parse_slots_spec(parse: Seq<Vec<Entry>>, locale: Locale) -> Seq<char>
    decreases parse.len(),
{
    if parse.len() == 0 {
        Seq::empty()
    } else {
        parse_slots_spec(parse.drop_last(), locale) + slot_spec(parse.last()@, locale)
    }
}

/// One analysis block: the localized header in bold, a definition list of
/// the parse's word-slots, and the closing horizontal rule.
pub open spec fn parse_block_spec(parse: Seq<Vec<Entry>>, locale: Locale) -> Seq<char> {
    "<b>"@ + spec_analysis_header(locale) + ":</b><dl>"@ + parse_slots_spec(parse, locale)
        + "</dl><hr>"@
}

/// The analysis section: one block per parse, absent when there are no
/// parses.
pub open spec fn parses_spec(parses: Seq<Vec<Vec<Entry>>>, locale: Locale) -> Seq<char>
    decreases parses.len(),
{
    if parses.len() == 0 {
        Seq::empty()
    } else {
        parses_spec(parses.drop_last(), locale) + parse_block_spec(parses.last()@, locale)
    }
}

/// The whole rendered fragment: the analysis section followed by the
/// suggestions table.
pub open spec fn render_spec(result: CompletionResult, locale: Locale) -> Seq<char> {
    parses_spec(result.parsed@, locale) + suggestions_table_spec(result.suggestions@, locale)
}

/// Renders one word-slot: its display key and one definition entry per
/// homonym.
fn render_slot(slot: &Vec<Entry>, locale: Locale) -> (out: String)
    requires
        slot@.len() > 0,
    ensures
        out@ == slot_spec(slot@, locale),
{
    let mut out = String::from_str("<dh><b>");
    let escaped = escape_html(slot[0].headword.as_str());
    out.append(escaped.as_str());
    out.append("</b></dh>");
    let ghost head: Seq<char> = out@;
    let mut k: usize = 0;
    while k < slot.len()
        invariant
            head == "<dh><b>"@ + escape_text(slot@[0].headword@) + "</b></dh>"@,
            k <= slot@.len(),
            out@ == head + slot_items_spec(slot@.take(k as int), locale),
        decreases slot@.len() - k,
    {
        out.append("<dd>");
        let line = entry_line(&slot[k], locale);
        out.append(line.as_str());
        out.append("</dd>");
        proof {
            let t = slot@.take(k as int + 1);
            assert(t.drop_last() =~= slot@.take(k as int));
            assert(t.last() == slot@[k as int]);
            assert(out@ =~= head + slot_items_spec(t, locale));
        }
        k += 1;
    }
    proof {
        assert(slot@.take(slot@.len() as int) =~= slot@);
        assert(out@ =~= slot_spec(slot@, locale));
    }
    out
}

/// Renders one analysis block for one parse.
fn render_parse(parse: &Vec<Vec<Entry>>, locale: Locale) -> (out: String)
    requires
        forall|j: int| 0 <= j < parse@.len() ==> (#[trigger] parse@[j])@.len() > 0,
    ensures
        out@ == parse_block_spec(parse@, locale),
{
    let mut out = String::from_str("<b>");
    out.append(analysis_header(locale));
    out.append(":</b><dl>");
    let ghost head: Seq<char> = out@;
    let mut j: usize = 0;
    while j < parse.len()
        invariant
            forall|n: int| 0 <= n < parse@.len() ==> (#[trigger] parse@[n])@.len() > 0,
            head == "<b>"@ + spec_analysis_header(locale) + ":</b><dl>"@,
            j <= parse@.len(),
            out@ == head + parse_slots_spec(parse@.take(j as int), locale),
        decreases parse@.len() - j,
    {
        let rendered = render_slot(&parse[j], locale);
        out.append(rendered.as_str());
        proof {
            let t = parse@.take(j as int + 1);
            assert(t.drop_last() =~= parse@.take(j as int));
            assert(t.last() == parse@[j as int]);
            assert(out@ =~= head + parse_slots_spec(t, locale));
        }
        j += 1;
    }
    out.append("</dl><hr>");
    proof {
        assert(parse@.take(parse@.len() as int) =~= parse@);
        assert(out@ =~= parse_block_spec(parse@, locale));
    }
    out
}

/// Serialises a completion result into the HTML fragment: every analysis
/// block in order, then the suggestions table. The result and the
/// dictionary behind it are read, never changed, and the output depends on
/// the completion result and the display language alone.
pub fn render_completions(result: &CompletionResult, locale: Locale) -> (out: String)
    requires
        result_wf(*result),
    ensures
        out@ == render_spec(*result, locale),
{
    let mut out = String::new();
    let mut i: usize = 0;
    while i < result.parsed.len()
        invariant
            result_wf(*result),
            i <= result.parsed@.len(),
            out@ == parses_spec(result.parsed@.take(i as int), locale),
        decreases result.parsed@.len() - i,
    {
        proof {
            assert(forall|j: int|
                0 <= j < result.parsed@[i as int]@.len()
                    ==> (#[trigger] result.parsed@[i as int]@[j])@.len() > 0);
        }
        let block = render_parse(&result.parsed[i], locale);
        out.append(block.as_str());
        proof {
            let t = result.parsed@.take(i as int + 1);
            assert(t.drop_last() =~= result.parsed@.take(i as int));
            assert(t.last() == result.parsed@[i as int]);
            assert(out@ =~= parses_spec(t, locale));
        }
        i += 1;
    }
    proof {
        assert(result.parsed@.take(result.parsed@.len() as int) =~= result.parsed@);
    }
    out.append("<table>");
    let ghost head: Seq<char> = out@;
    let mut s: usize = 0;
    while s < result.suggestions.len()
        invariant
            head == parses_spec(result.parsed@, locale) + "<table>"@,
            s <= result.suggestions@.len(),
            out@ == head + suggestion_rows_spec(result.suggestions@.take(s as int), locale),
        decreases result.suggestions@.len() - s,
    {
        let entry: &Entry = &result.suggestions[s];
        out.append("<tr><td><b>");
        let escaped = escape_html(entry.headword.as_str());
        out.append(escaped.as_str());
        out.append("</b></td><td>");
        let line = entry_line(entry, locale);
        out.append(line.as_str());
        out.append("</td></tr>");
        proof {
            let t = result.suggestions@.take(s as int + 1);
            assert(t.drop_last() =~= result.suggestions@.take(s as int));
            assert(t.last() == result.suggestions@[s as int]);
            assert(out@ =~= head + suggestion_rows_spec(t, locale));
        }
        s += 1;
    }
    out.append("</table>");
    proof {
        assert(result.suggestions@.take(result.suggestions@.len() as int)
            =~= result.suggestions@);
        assert(out@ =~= render_spec(*result, locale));
    }
    out
}

/// The rendering entry point. `completions` is the engine's output for the
/// trailing fragment, or `None` when no dictionary has been loaded yet;
/// `lang` is the requested locale code, with unrecognized codes falling
/// back to English. Before the dictionary is loaded the defined result is
/// exactly the empty string; otherwise the result is the rendered fragment
/// for the given completion result and language.
pub fn get_completions(completions: Option<&CompletionResult>, lang: &str) -> (html: String)
    requires
        match completions {
            Some(result) => result_wf(*result),
            None => true,
        },
    ensures
        match completions {
            Some(result) => html@ == render_spec(*result, locale_of(lang@)),
            None => html@ == Seq::<char>::empty(),
        },
{
    match completions {
        Some(result) => {
            let locale = parse_locale(lang);
            render_completions(result, locale)
        },
        None => String::new(),
    }
}

/// A character of any part survives joining.
proof fn lemma_join_keeps_char(parts: Seq<Seq<char>>, k: int, c: char)
    requires
        0 <= k < parts.len(),
        parts[k].contains(c),
    ensures
        join_comma_spec(parts).contains(c),
    decreases parts.len(),
{
    let w: int = choose|w: int| 0 <= w < parts[k].len() && parts[k][w] == c;
    if parts.len() == 1 {
        assert(join_comma_spec(parts)[w] == c);
        assert(join_comma_spec(parts).contains(c));
    } else if k == parts.len() - 1 {
        let pre = join_comma_spec(parts.drop_last()) + ", "@;
        assert(parts.last() == parts[k]);
        assert(join_comma_spec(parts)[pre.len() + w] == c);
        assert(join_comma_spec(parts).contains(c));
    } else {
        assert(parts.drop_last()[k] == parts[k]);
        lemma_join_keeps_char(parts.drop_last(), k, c);
        let pre = join_comma_spec(parts.drop_last());
        let u: int = choose|u: int| 0 <= u < pre.len() && pre[u] == c;
        assert(join_comma_spec(parts)[u] == c);
        assert(join_comma_spec(parts).contains(c));
    }
}

/// An ampersand in a shown translation string puts `&amp;` into the
/// entry's rendered line. The ampersand is the one escapable character a
/// translation can carry to the escaper: a translation's angle brackets
/// are decorative quotation marks, stripped before escaping.
proof fn lemma_entry_line_translation_escaped(entry: Entry, locale: Locale, k: int)
    requires
        0 <= k < spec_translations(entry, locale).len(),
        spec_translations(entry, locale)[k].contains('&'),
    ensures
        contains_seq(entry_line_spec(entry, locale), "&amp;"@),
{
    let parts = spec_translations(entry, locale);
    let joined = join_comma_spec(parts);
    let stripped = crate::text::strip_quotes(joined);
    lemma_join_keeps_char(parts, k, '&');
    crate::text::lemma_strip_keeps_char(joined, '&');
    crate::text::lemma_escape_contains_reference(stripped, '&');
    crate::text::lemma_contains_seq_extend(
        "(<i>"@ + spec_pos_label(entry.pos, locale) + "</i>) "@,
        escape_text(stripped),
        Seq::empty(),
        "&amp;"@,
    );
    assert(("(<i>"@ + spec_pos_label(entry.pos, locale) + "</i>) "@) + escape_text(stripped)
        + Seq::<char>::empty() =~= entry_line_spec(entry, locale));
}

/// A fragment of one suggestion's row is a fragment of the row sequence.
proof fn lemma_contains_in_rows(ss: Seq<Entry>, locale: Locale, i: int, needle: Seq<char>)
    requires
        0 <= i < ss.len(),
        contains_seq(suggestion_row_spec(ss[i], locale), needle),
    ensures
        contains_seq(suggestion_rows_spec(ss, locale), needle),
    decreases ss.len(),
{
    if i == ss.len() - 1 {
        crate::text::lemma_contains_seq_extend(
            suggestion_rows_spec(ss.drop_last(), locale),
            suggestion_row_spec(ss[i], locale),
            Seq::empty(),
            needle,
        );
        assert(suggestion_rows_spec(ss.drop_last(), locale) + suggestion_row_spec(ss[i], locale)
            + Seq::<char>::empty() =~= suggestion_rows_spec(ss, locale));
    } else {
        assert(ss.drop_last()[i] == ss[i]);
        lemma_contains_in_rows(ss.drop_last(), locale, i, needle);
        crate::text::lemma_contains_seq_extend(
            Seq::empty(),
            suggestion_rows_spec(ss.drop_last(), locale),
            suggestion_row_spec(ss.last(), locale),
            needle,
        );
        assert(Seq::<char>::empty() + suggestion_rows_spec(ss.drop_last(), locale)
            + suggestion_row_spec(ss.last(), locale) =~= suggestion_rows_spec(ss, locale));
    }
}

/// A fragment of one homonym's definition entry is a fragment of the
/// slot's definition entries.
proof fn lemma_contains_in_slot_items(slot: Seq<Entry>, locale: Locale, k: int, needle: Seq<char>)
    requires
        0 <= k < slot.len(),
        contains_seq("<dd>"@ + entry_line_spec(slot[k], locale) + "</dd>"@, needle),
    ensures
        contains_seq(slot_items_spec(slot, locale), needle),
    decreases slot.len(),
{
    if k == slot.len() - 1 {
        crate::text::lemma_contains_seq_extend(
            slot_items_spec(slot.drop_last(), locale),
            "<dd>"@ + entry_line_spec(slot[k], locale) + "</dd>"@,
            Seq::empty(),
            needle,
        );
        assert(slot_items_spec(slot.drop_last(), locale) + ("<dd>"@ + entry_line_spec(
            slot[k],
            locale,
        ) + "</dd>"@) + Seq::<char>::empty() =~= slot_items_spec(slot, locale));
    } else {
        assert(slot.drop_last()[k] == slot[k]);
        lemma_contains_in_slot_items(slot.drop_last(), locale, k, needle);
        crate::text::lemma_contains_seq_extend(
            Seq::empty(),
            slot_items_spec(slot.drop_last(), locale),
            "<dd>"@ + entry_line_spec(slot.last(), locale) + "</dd>"@,
            needle,
        );
        assert(Seq::<char>::empty() + slot_items_spec(slot.drop_last(), locale) + ("<dd>"@
            + entry_line_spec(slot.last(), locale) + "</dd>"@) =~= slot_items_spec(slot, locale));
    }
}

/// A fragment of one word-slot's markup is a fragment of the parse's
/// slot sequence.
proof fn lemma_contains_in_parse_slots(
    parse: Seq<Vec<Entry>>,
    locale: Locale,
    j: int,
    needle: Seq<char>,
)
    requires
        0 <= j < parse.len(),
        contains_seq(slot_spec(parse[j]@, locale), needle),
    ensures
        contains_seq(parse_slots_spec(parse, locale), needle),
    decreases parse.len(),
{
    if j == parse.len() - 1 {
        crate::text::lemma_contains_seq_extend(
            parse_slots_spec(parse.drop_last(), locale),
            slot_spec(parse[j]@, locale),
            Seq::empty(),
            needle,
        );
        assert(parse_slots_spec(parse.drop_last(), locale) + slot_spec(parse[j]@, locale)
            + Seq::<char>::empty() =~= parse_slots_spec(parse, locale));
    } else {
        assert(parse.drop_last()[j] == parse[j]);
        lemma_contains_in_parse_slots(parse.drop_last(), locale, j, needle);
        crate::text::lemma_contains_seq_extend(
            Seq::empty(),
            parse_slots_spec(parse.drop_last(), locale),
            slot_spec(parse.last()@, locale),
            needle,
        );
        assert(Seq::<char>::empty() + parse_slots_spec(parse.drop_last(), locale) + slot_spec(
            parse.last()@,
            locale,
        ) =~= parse_slots_spec(parse, locale));
    }
}

/// A fragment of one analysis block is a fragment of the analysis section.
proof fn lemma_contains_in_parses(
    parses: Seq<Vec<Vec<Entry>>>,
    locale: Locale,
    i: int,
    needle: Seq<char>,
)
    requires
        0 <= i < parses.len(),
        contains_seq(parse_block_spec(parses[i]@, locale), needle),
    ensures
        contains_seq(parses_spec(parses, locale), needle),
    decreases parses.len(),
{
    if i == parses.len() - 1 {
        crate::text::lemma_contains_seq_extend(
            parses_spec(parses.drop_last(), locale),
            parse_block_spec(parses[i]@, locale),
            Seq::empty(),
            needle,
        );
        assert(parses_spec(parses.drop_last(), locale) + parse_block_spec(parses[i]@, locale)
            + Seq::<char>::empty() =~= parses_spec(parses, locale));
    } else {
        assert(parses.drop_last()[i] == parses[i]);
        lemma_contains_in_parses(parses.drop_last(), locale, i, needle);
        crate::text::lemma_contains_seq_extend(
            Seq::empty(),
            parses_spec(parses.drop_last(), locale),
            parse_block_spec(parses.last()@, locale),
            needle,
        );
        assert(Seq::<char>::empty() + parses_spec(parses.drop_last(), locale) + parse_block_spec(
            parses.last()@,
            locale,
        ) =~= parses_spec(parses, locale));
    }
}

/// A fragment of the suggestions table is a fragment of the whole rendered
/// output.
proof fn lemma_contains_in_render_table(result: CompletionResult, locale: Locale, needle: Seq<char>)
    requires
        contains_seq(suggestion_rows_spec(result.suggestions@, locale), needle),
    ensures
        contains_seq(render_spec(result, locale), needle),
{
    crate::text::lemma_contains_seq_extend(
        parses_spec(result.parsed@, locale) + "<table>"@,
        suggestion_rows_spec(result.suggestions@, locale),
        "</table>"@,
        needle,
    );
    assert((parses_spec(result.parsed@, locale) + "<table>"@) + suggestion_rows_spec(
        result.suggestions@,
        locale,
    ) + "</table>"@ =~= render_spec(result, locale));
}

/// An escapable character in a suggested entry's headword puts its
/// character reference into the rendered output.
pub proof fn lemma_rendered_suggestion_headword_escaped(
    result: CompletionResult,
    locale: Locale,
    i: int,
    c: char,
)
    requires
        0 <= i < result.suggestions@.len(),
        c == '&' || c == '<' || c == '>',
        result.suggestions@[i].headword@.contains(c),
    ensures
        contains_seq(render_spec(result, locale), escape_char(c)),
{
    let entry = result.suggestions@[i];
    crate::text::lemma_escape_contains_reference(entry.headword@, c);
    crate::text::lemma_contains_seq_extend(
        "<tr><td><b>"@,
        escape_text(entry.headword@),
        "</b></td><td>"@ + entry_line_spec(entry, locale) + "</td></tr>"@,
        escape_char(c),
    );
    assert("<tr><td><b>"@ + escape_text(entry.headword@) + ("</b></td><td>"@ + entry_line_spec(
        entry,
        locale,
    ) + "</td></tr>"@) =~= suggestion_row_spec(entry, locale));
    lemma_contains_in_rows(result.suggestions@, locale, i, escape_char(c));
    lemma_contains_in_render_table(result, locale, escape_char(c));
}

/// An ampersand in a shown translation of a suggested entry puts `&amp;`
/// into the rendered output. A translation's angle brackets are decorative
/// quotation marks, stripped before escaping, so the ampersand is the one
/// escapable character a translation carries to the escaper.
pub proof fn lemma_rendered_suggestion_translation_escaped(
    result: CompletionResult,
    locale: Locale,
    i: int,
    k: int,
)
    requires
        0 <= i < result.suggestions@.len(),
        0 <= k < spec_translations(result.suggestions@[i], locale).len(),
        spec_translations(result.suggestions@[i], locale)[k].contains('&'),
    ensures
        contains_seq(render_spec(result, locale), "&amp;"@),
{
    let entry = result.suggestions@[i];
    lemma_entry_line_translation_escaped(entry, locale, k);
    crate::text::lemma_contains_seq_extend(
        "<tr><td><b>"@ + escape_text(entry.headword@) + "</b></td><td>"@,
        entry_line_spec(entry, locale),
        "</td></tr>"@,
        "&amp;"@,
    );
    assert(("<tr><td><b>"@ + escape_text(entry.headword@) + "</b></td><td>"@) + entry_line_spec(
        entry,
        locale,
    ) + "</td></tr>"@ =~= suggestion_row_spec(entry, locale));
    lemma_contains_in_rows(result.suggestions@, locale, i, "&amp;"@);
    lemma_contains_in_render_table(result, locale, "&amp;"@);
}

/// An ampersand in a shown translation of a parse homonym puts `&amp;`
/// into the rendered output, through its definition entry, its word-slot
/// and its analysis block.
pub proof fn lemma_rendered_parse_translation_escaped(
    result: CompletionResult,
    locale: Locale,
    i: int,
    j: int,
    h: int,
    k: int,
)
    requires
        0 <= i < result.parsed@.len(),
        0 <= j < result.parsed@[i]@.len(),
        0 <= h < result.parsed@[i]@[j]@.len(),
        0 <= k < spec_translations(result.parsed@[i]@[j]@[h], locale).len(),
        spec_translations(result.parsed@[i]@[j]@[h], locale)[k].contains('&'),
    ensures
        contains_seq(render_spec(result, locale), "&amp;"@),
{
    let parse = result.parsed@[i]@;
    let slot = parse[j]@;
    let entry = slot[h];
    lemma_entry_line_translation_escaped(entry, locale, k);
    crate::text::lemma_contains_seq_extend(
        "<dd>"@,
        entry_line_spec(entry, locale),
        "</dd>"@,
        "&amp;"@,
    );
    lemma_contains_in_slot_items(slot, locale, h, "&amp;"@);
    crate::text::lemma_contains_seq_extend(
        "<dh><b>"@ + escape_text(slot[0].headword@) + "</b></dh>"@,
        slot_items_spec(slot, locale),
        Seq::empty(),
        "&amp;"@,
    );
    assert(("<dh><b>"@ + escape_text(slot[0].headword@) + "</b></dh>"@) + slot_items_spec(
        slot,
        locale,
    ) + Seq::<char>::empty() =~= slot_spec(slot, locale));
    lemma_contains_in_parse_slots(parse, locale, j, "&amp;"@);
    crate::text::lemma_contains_seq_extend(
        "<b>"@ + spec_analysis_header(locale) + ":</b><dl>"@,
        parse_slots_spec(parse, locale),
        "</dl><hr>"@,
        "&amp;"@,
    );
    assert(("<b>"@ + spec_analysis_header(locale) + ":</b><dl>"@) + parse_slots_spec(parse, locale)
        + "</dl><hr>"@ =~= parse_block_spec(parse, locale));
    lemma_contains_in_parses(result.parsed@, locale, i, "&amp;"@);
    crate::text::lemma_contains_seq_extend(
        Seq::empty(),
        parses_spec(result.parsed@, locale),
        suggestions_table_spec(result.suggestions@, locale),
        "&amp;"@,
    );
    assert(Seq::<char>::empty() + parses_spec(result.parsed@, locale) + suggestions_table_spec(
        result.suggestions@,
        locale,
    ) =~= render_spec(result, locale));
}

/// Rendering is deterministic: the output is a function of the completion
/// result and the display language alone, so rendering the same result
/// twice yields byte-identical text.
pub proof fn lemma_render_deterministic(a: CompletionResult, b: CompletionResult, locale: Locale)
    requires
        a == b,
    ensures
        render_spec(a, locale) == render_spec(b, locale),
{
}

} // verus!
