//! Plain-text building blocks of the renderer: trailing-token extraction,
//! HTML escaping and decorative-quote stripping.

use vstd::prelude::*;
use vstd::string::StrSliceExecFns;
use vstd::string::StringExecFns;

verus! {

/// The last space-separated token of `s`: everything after the final space
/// character, the whole text when no space occurs, and the empty sequence
/// when the text ends in a space.
pub open spec fn last_token(s: Seq<char>) -> Seq<char>
    decreases s.len(),
{
    if s.len() == 0 {
        Seq::empty()
    } else if s.last() == ' ' {
        Seq::empty()
    } else {
        last_token(s.drop_last()).push(s.last())
    }
}

/// Splits the input on the space character alone and returns the final
/// element, exactly as naive space-splitting would: the trailing fragment
/// the user is still typing. Runs of spaces and other whitespace get no
/// special treatment.
pub fn last_word(text: &str) -> (token: &str)
    ensures
        token@ == last_token(text@),
{
    let n: usize = text.unicode_len();
    let mut start: usize = 0;
    let mut i: usize = 0;
    while i < n
        invariant
            n == text@.len(),
            start <= i <= n,
            last_token(text@.take(i as int)) == text@.subrange(start as int, i as int),
        decreases n - i,
    {
        let c = text.get_char(i);
        proof {
            let t = text@.take(i as int + 1);
            assert(t.drop_last() =~= text@.take(i as int));
            assert(t.last() == text@[i as int]);
        }
        if c == ' ' {
            start = i + 1;
        }
        proof {
            assert(last_token(text@.take(i as int + 1)) =~= text@.subrange(
                start as int,
                i as int + 1,
            ));
        }
        i += 1;
    }
    proof {
        assert(text@.take(n as int) =~= text@);
    }
    text.substring_char(start, n)
}

/// How a single character appears after HTML escaping: `&`, `<` and `>`
/// become their character references, every other character stands as it is.
pub open spec fn escape_char(c: char) -> Seq<char> {
    if c == '&' {
        "&amp;"@
    } else if c == '<' {
        "&lt;"@
    } else if c == '>' {
        "&gt;"@
    } else {
        seq![c]
    }
}

/// `s` with every `&`, `<` and `>` replaced by its HTML character reference.
pub open spec fn escape_text(s: Seq<char>) -> Seq<char>
    decreases s.len(),
{
    if s.len() == 0 {
        Seq::empty()
    } else {
        escape_text(s.drop_last()) + escape_char(s.last())
    }
}

/// Relies on `String::push`: appends exactly the one character to the end.
#[verifier::external_body]
fn push_char(s: &mut String, c: char)
    ensures
        final(s)@ == old(s)@.push(c),
{
    s.push(c);
}

/// HTML-escapes the three markup-significant characters, ampersand first,
/// so that dictionary text can stand inside the rendered markup verbatim.
pub fn escape_html(text: &str) -> (out: String)
    ensures
        out@ == escape_text(text@),
{
    let n: usize = text.unicode_len();
    let mut out = String::new();
    let mut i: usize = 0;
    while i < n
        invariant
            n == text@.len(),
            i <= n,
            out@ == escape_text(text@.take(i as int)),
        decreases n - i,
    {
        let c = text.get_char(i);
        if c == '&' {
            out.append("&amp;");
        } else if c == '<' {
            out.append("&lt;");
        } else if c == '>' {
            out.append("&gt;");
        } else {
            push_char(&mut out, c);
        }
        proof {
            let t = text@.take(i as int + 1);
            assert(t.drop_last() =~= text@.take(i as int));
            assert(t.last() == text@[i as int]);
            assert(out@ =~= escape_text(text@.take(i as int)) + escape_char(text@[i as int]));
        }
        i += 1;
    }
    proof {
        assert(text@.take(n as int) =~= text@);
    }
    out
}

/// The decorative quotation characters stripped from translation text:
/// the two ASCII angle brackets and the two typographic guillemets.
pub open spec fn is_decorative_quote(c: char) -> bool {
    c == '<' || c == '>' || c == '\u{00ab}' || c == '\u{00bb}'
}

/// `s` with every decorative quotation character removed, the rest kept
/// in order.
pub open spec fn strip_quotes(s: Seq<char>) -> Seq<char>
    decreases s.len(),
{
    if s.len() == 0 {
        Seq::empty()
    } else if is_decorative_quote(s.last()) {
        strip_quotes(s.drop_last())
    } else {
        strip_quotes(s.drop_last()).push(s.last())
    }
}

/// Removes decorative quotation marks from translation text before it is
/// escaped and joined, so literal guillemets in dictionary data never reach
/// the output.
pub fn remove_quotes(text: &str) -> (out: String)
    ensures
        out@ == strip_quotes(text@),
{
    let n: usize = text.unicode_len();
    let mut out = String::new();
    let mut i: usize = 0;
    while i < n
        invariant
            n == text@.len(),
            i <= n,
            out@ == strip_quotes(text@.take(i as int)),
        decreases n - i,
    {
        let c = text.get_char(i);
        if !(c == '<' || c == '>' || c == '\u{00ab}' || c == '\u{00bb}') {
            push_char(&mut out, c);
        }
        proof {
            let t = text@.take(i as int + 1);
            assert(t.drop_last() =~= text@.take(i as int));
            assert(t.last() == text@[i as int]);
        }
        i += 1;
    }
    proof {
        assert(text@.take(n as int) =~= text@);
    }
    out
}

/// Character-for-character equality of two text fragments.
pub fn str_eq(a: &str, b: &str) -> (eq: bool)
    ensures
        eq == (a@ == b@),
{
    let n: usize = a.unicode_len();
    let m: usize = b.unicode_len();
    if n != m {
        return false;
    }
    let mut i: usize = 0;
    while i < n
        invariant
            n == a@.len(),
            n == b@.len(),
            i <= n,
            forall|k: int| 0 <= k < i ==> a@[k] == b@[k],
        decreases n - i,
    {
        if a.get_char(i) != b.get_char(i) {
            return false;
        }
        i += 1;
    }
    proof {
        assert(a@ =~= b@);
    }
    true
}

/// The token of a spaceless text is the text itself.
pub proof fn lemma_last_token_no_space(s: Seq<char>)
    requires
        forall|i: int| 0 <= i < s.len() ==> s[i] != ' ',
    ensures
        last_token(s) == s,
    decreases s.len(),
{
    if s.len() == 0 {
        assert(last_token(s) =~= s);
    } else {
        assert(s.last() == s[s.len() - 1]);
        assert forall|i: int| 0 <= i < s.drop_last().len() implies s.drop_last()[i] != ' ' by {
            assert(s.drop_last()[i] == s[i]);
        }
        lemma_last_token_no_space(s.drop_last());
        assert(last_token(s) =~= s);
    }
}

/// The token of a text ending in a space is empty.
pub proof fn lemma_last_token_trailing_space(s: Seq<char>)
    requires
        s.len() > 0,
        s.last() == ' ',
    ensures
        last_token(s) == Seq::<char>::empty(),
{
}

/// Escaped text never holds a raw `<` or `>`: the character references use
/// neither, and the two raw characters themselves are always replaced.
pub proof fn lemma_escape_no_raw_angle(s: Seq<char>)
    ensures
        forall|i: int|
            0 <= i < escape_text(s).len() ==> escape_text(s)[i] != '<' && escape_text(s)[i] != '>',
    decreases s.len(),
{
    reveal_strlit("&amp;");
    reveal_strlit("&lt;");
    reveal_strlit("&gt;");
    if s.len() > 0 {
        lemma_escape_no_raw_angle(s.drop_last());
        let pre = escape_text(s.drop_last());
        let e = escape_char(s.last());
        assert forall|i: int|
            0 <= i < escape_text(s).len() implies escape_text(s)[i] != '<' && escape_text(s)[i]
            != '>' by {
            if i < pre.len() {
                assert(escape_text(s)[i] == pre[i]);
            } else {
                assert(escape_text(s)[i] == e[i - pre.len()]);
            }
        }
    }
}

/// Whether `needle` occurs contiguously somewhere inside `hay`.
pub open spec fn contains_seq(hay: Seq<char>, needle: Seq<char>) -> bool {
    exists|j: int|
        0 <= j && j + needle.len() <= hay.len() && #[trigger] hay.subrange(j, j + needle.len())
            == needle
}

/// Each escapable character of the input puts its full character reference
/// into the escaped text.
pub proof fn lemma_escape_contains_reference(s: Seq<char>, c: char)
    requires
        c == '&' || c == '<' || c == '>',
        s.contains(c),
    ensures
        contains_seq(escape_text(s), escape_char(c)),
    decreases s.len(),
{
    reveal_strlit("&amp;");
    reveal_strlit("&lt;");
    reveal_strlit("&gt;");
    let e = escape_char(c);
    let pre = escape_text(s.drop_last());
    if s.last() == c {
        let j: int = pre.len() as int;
        assert(escape_text(s).subrange(j, j + e.len()) =~= e);
    } else {
        let i: int = choose|i: int| 0 <= i < s.len() && s[i] == c;
        assert(i < s.len() - 1);
        assert(s.drop_last()[i] == c);
        assert(s.drop_last().contains(c));
        lemma_escape_contains_reference(s.drop_last(), c);
        let j: int = choose|j: int|
            0 <= j && j + e.len() <= pre.len() && #[trigger] pre.subrange(j, j + e.len()) == e;
        assert(escape_text(s).subrange(j, j + e.len()) =~= pre.subrange(j, j + e.len()));
    }
}

/// A character that is not a decorative quotation mark survives stripping.
pub proof fn lemma_strip_keeps_char(s: Seq<char>, c: char)
    requires
        s.contains(c),
        !is_decorative_quote(c),
    ensures
        strip_quotes(s).contains(c),
    decreases s.len(),
{
    let i: int = choose|i: int| 0 <= i < s.len() && s[i] == c;
    if i == s.len() - 1 {
        let out = strip_quotes(s);
        assert(out[out.len() - 1] == c);
        assert(out.contains(c));
    } else {
        assert(s.drop_last()[i] == c);
        assert(s.drop_last().contains(c));
        lemma_strip_keeps_char(s.drop_last(), c);
        let pre = strip_quotes(s.drop_last());
        let w: int = choose|w: int| 0 <= w < pre.len() && pre[w] == c;
        assert(strip_quotes(s)[w] == c);
        assert(strip_quotes(s).contains(c));
    }
}

/// Text appended on either side preserves a contained fragment.
pub proof fn lemma_contains_seq_extend(
    left: Seq<char>,
    hay: Seq<char>,
    right: Seq<char>,
    needle: Seq<char>,
)
    requires
        contains_seq(hay, needle),
    ensures
        contains_seq(left + hay + right, needle),
{
    let j: int = choose|j: int|
        0 <= j && j + needle.len() <= hay.len() && #[trigger] hay.subrange(j, j + needle.len())
            == needle;
    assert((left + hay + right).subrange(
        left.len() + j,
        left.len() + j + needle.len(),
    ) =~= needle);
}

/// No decorative quotation character survives stripping.
pub proof fn lemma_strip_no_quotes(s: Seq<char>)
    ensures
        forall|i: int| 0 <= i < strip_quotes(s).len() ==> !is_decorative_quote(strip_quotes(s)[i]),
    decreases s.len(),
{
    if s.len() > 0 {
        lemma_strip_no_quotes(s.drop_last());
        let pre = strip_quotes(s.drop_last());
        if !is_decorative_quote(s.last()) {
            assert forall|i: int|
                0 <= i < strip_quotes(s).len() implies !is_decorative_quote(
                strip_quotes(s)[i],
            ) by {
                if i < pre.len() {
                    assert(strip_quotes(s)[i] == pre[i]);
                } else {
                    assert(strip_quotes(s)[i] == s.last());
                }
            }
        }
    }
}

} // verus!
