//! The in-memory dictionary store and its startup filter: before the
//! dictionary is published to the renderer, every entry whose identifier
//! equals a configured sentinel — a known placeholder entry — is removed
//! from the flat word list and from every part-of-speech index bucket.

use vstd::prelude::*;
use crate::model::{CompletionResult, Entry};
use crate::text::str_eq;

verus! {

/// One bucket of the part-of-speech index: the entries that share a tag.
pub struct PosBucket {
    pub pos: crate::model::PartOfSpeech,
    pub entries: Vec<Entry>,
}

/// The dictionary store: the flat entry list and the part-of-speech index,
/// immutable after the one-time load.
pub struct Dictionary {
    pub words: Vec<Entry>,
    pub pos_index: Vec<PosBucket>,
}

/// The entries of `s` whose identifier differs from `sentinel`, kept in
/// their original order: the retain semantics of the startup filter.
pub open spec fn filter_entries(s: Seq<Entry>, sentinel: Seq<char>) -> Seq<Entry>
    decreases s.len(),
{
    if s.len() == 0 {
        Seq::empty()
    } else if s.last().id@ == sentinel {
        filter_entries(s.drop_last(), sentinel)
    } else {
        filter_entries(s.drop_last(), sentinel).push(s.last())
    }
}

/// No entry of `s` carries the sentinel identifier.
pub open spec fn entries_no_sentinel(s: Seq<Entry>, sentinel: Seq<char>) -> bool {
    forall|i: int| 0 <= i < s.len() ==> (#[trigger] s[i]).id@ != sentinel
}

/// Keeps, in order, the entries whose identifier differs from the sentinel.
fn retain_entries(entries: Vec<Entry>, sentinel: &str) -> (kept: Vec<Entry>)
    ensures
        kept@ == filter_entries(entries@, sentinel@),
{
    let ghost all: Seq<Entry> = entries@;
    let mut remaining = entries;
    let mut kept: Vec<Entry> = Vec::new();
    while remaining.len() > 0
        invariant
            remaining@.len() <= all.len(),
            remaining@ == all.subrange(all.len() - remaining@.len(), all.len() as int),
            kept@ == filter_entries(all.take(all.len() - remaining@.len()), sentinel@),
        decreases remaining@.len(),
    {
        let ghost k: int = all.len() - remaining@.len();
        let entry = remaining.remove(0);
        proof {
            assert(entry == all[k]);
            assert(remaining@ =~= all.subrange(k + 1, all.len() as int));
            assert(all.take(k + 1).drop_last() =~= all.take(k));
            assert(all.take(k + 1).last() == all[k]);
        }
        if !str_eq(entry.id.as_str(), sentinel) {
            kept.push(entry);
        }
    }
    proof {
        assert(all.take(all.len() as int) =~= all);
    }
    kept
}

/// Builds the dictionary store from freshly parsed entries, removing every
/// entry that carries the sentinel identifier from the flat word list and
/// from each part-of-speech index bucket, before the store is made
/// available to the renderer. The sentinel is configuration data: the
/// identifier of a known placeholder entry.
pub fn load_dictionary(words: Vec<Entry>, pos_index: Vec<PosBucket>, sentinel: &str) -> (dict:
    Dictionary)
    ensures
        dict.words@ == filter_entries(words@, sentinel@),
        dict.pos_index@.len() == pos_index@.len(),
        forall|i: int|
            0 <= i < pos_index@.len() ==> (#[trigger] dict.pos_index@[i]).pos == pos_index@[i].pos
                && dict.pos_index@[i].entries@ == filter_entries(
                pos_index@[i].entries@,
                sentinel@,
            ),
{
    let filtered_words = retain_entries(words, sentinel);
    let ghost all: Seq<PosBucket> = pos_index@;
    let mut remaining = pos_index;
    let mut filtered_index: Vec<PosBucket> = Vec::new();
    while remaining.len() > 0
        invariant
            remaining@.len() <= all.len(),
            remaining@ == all.subrange(all.len() - remaining@.len(), all.len() as int),
            filtered_index@.len() == all.len() - remaining@.len(),
            forall|i: int|
                0 <= i < filtered_index@.len() ==> (#[trigger] filtered_index@[i]).pos
                    == all[i].pos && filtered_index@[i].entries@ == filter_entries(
                    all[i].entries@,
                    sentinel@,
                ),
        decreases remaining@.len(),
    {
        let ghost k: int = all.len() - remaining@.len();
        let bucket = remaining.remove(0);
        proof {
            assert(bucket == all[k]);
            assert(remaining@ =~= all.subrange(k + 1, all.len() as int));
        }
        let entries = retain_entries(bucket.entries, sentinel);
        filtered_index.push(PosBucket { pos: bucket.pos, entries });
    }
    Dictionary { words: filtered_words, pos_index: filtered_index }
}

/// The startup filter removes every sentinel entry: nothing with the
/// sentinel identifier survives it.
pub proof fn lemma_filter_removes_sentinel(s: Seq<Entry>, sentinel: Seq<char>)
    ensures
        entries_no_sentinel(filter_entries(s, sentinel), sentinel),
    decreases s.len(),
{
    if s.len() > 0 {
        lemma_filter_removes_sentinel(s.drop_last(), sentinel);
        let pre = filter_entries(s.drop_last(), sentinel);
        if s.last().id@ != sentinel {
            assert forall|i: int|
                0 <= i < filter_entries(s, sentinel).len() implies (#[trigger] filter_entries(
                s,
                sentinel,
            )[i]).id@ != sentinel by {
                if i < pre.len() {
                    assert(filter_entries(s, sentinel)[i] == pre[i]);
                } else {
                    assert(filter_entries(s, sentinel)[i] == s.last());
                }
            }
        }
    }
}

/// The startup filter is idempotent: filtering already filtered entries
/// changes nothing.
pub proof fn lemma_filter_idempotent(s: Seq<Entry>, sentinel: Seq<char>)
    ensures
        filter_entries(filter_entries(s, sentinel), sentinel) == filter_entries(s, sentinel),
    decreases s.len(),
{
    if s.len() == 0 {
    } else if s.last().id@ == sentinel {
        lemma_filter_idempotent(s.drop_last(), sentinel);
    } else {
        lemma_filter_idempotent(s.drop_last(), sentinel);
        let pre = filter_entries(s.drop_last(), sentinel);
        let whole = pre.push(s.last());
        assert(whole.drop_last() =~= pre);
        assert(whole.last() == s.last());
    }
}

/// `entry` is one of the dictionary's words.
pub open spec fn entry_from_dict(entry: Entry, dict: Dictionary) -> bool {
    dict.words@.contains(entry)
}

/// Every entry the completion result mentions, in any parse slot or in the
/// suggestion list, is one of the dictionary's words.
pub open spec fn result_from_dict(result: CompletionResult, dict: Dictionary) -> bool {
    &&& forall|i: int|
        0 <= i < result.suggestions@.len() ==> entry_from_dict(
            #[trigger] result.suggestions@[i],
            dict,
        )
    &&& forall|i: int, j: int, k: int|
        0 <= i < result.parsed@.len() && 0 <= j < result.parsed@[i]@.len() && 0 <= k
            < result.parsed@[i]@[j]@.len() ==> entry_from_dict(
            #[trigger] result.parsed@[i]@[j]@[k],
            dict,
        )
}

/// No entry the completion result mentions carries the sentinel identifier.
pub open spec fn result_no_sentinel(result: CompletionResult, sentinel: Seq<char>) -> bool {
    &&& forall|i: int|
        0 <= i < result.suggestions@.len() ==> (#[trigger] result.suggestions@[i]).id@ != sentinel
    &&& forall|i: int, j: int, k: int|
        0 <= i < result.parsed@.len() && 0 <= j < result.parsed@[i]@.len() && 0 <= k
            < result.parsed@[i]@[j]@.len() ==> (#[trigger] result.parsed@[i]@[j]@[k]).id@
            != sentinel
}

/// A completion result drawn from a sentinel-filtered dictionary never
/// mentions a sentinel entry, so none can reach the rendered output.
pub proof fn lemma_no_sentinel_in_result(
    result: CompletionResult,
    dict: Dictionary,
    sentinel: Seq<char>,
)
    requires
        entries_no_sentinel(dict.words@, sentinel),
        result_from_dict(result, dict),
    ensures
        result_no_sentinel(result, sentinel),
{
    assert forall|i: int|
        0 <= i < result.suggestions@.len() implies (#[trigger] result.suggestions@[i]).id@
        != sentinel by {
        let entry = result.suggestions@[i];
        let n: int = choose|n: int| 0 <= n < dict.words@.len() && dict.words@[n] == entry;
        assert(dict.words@[n].id@ != sentinel);
    }
    assert forall|i: int, j: int, k: int|
        0 <= i < result.parsed@.len() && 0 <= j < result.parsed@[i]@.len() && 0 <= k
            < result.parsed@[i]@[j]@.len() implies (#[trigger] result.parsed@[i]@[j]@[k]).id@
        != sentinel by {
        let entry = result.parsed@[i]@[j]@[k];
        assert(dict.words@.contains(entry));
        let n: int = choose|n: int| 0 <= n < dict.words@.len() && dict.words@[n] == entry;
        assert(dict.words@[n].id@ != sentinel);
    }
}

} // verus!
