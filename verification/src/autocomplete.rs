//! The autocomplete engine: finds the token under the cursor, ranks the
//! matching tags, and computes the replacement a selection performs.
//!
//! Each keystroke recomputes the whole result; nothing is merged in place.
//! The cursor arrives as a character index and is converted to a byte offset
//! before the token is located. The token is split at the cursor into a
//! prefix and a suffix: a candidate's displayed name must extend the prefix
//! and end with the suffix, and its tag must not already be committed in an
//! enclosing query group.

use vstd::prelude::*;

use crate::tags::{ranked_candidates, resolve_all, Suggestion, SuggestionView, TagIndex, TagView};
use crate::text::{byte_of_char, char_count, char_to_byte, copy_range, count_chars};
use crate::tokenize::{open_scopes, token_at, token_end, token_start};

verus! {

/// Most suggestions one autocomplete pass returns.
pub const MAX_AUTOCOMPLETION_COUNT: usize = 20;

/// One autocomplete pass's outcome: the ranked matches and the byte range of
/// the query text that selecting one of them replaces.
pub struct AutocompleteResult {
    /// The ranked matches, at most `MAX_AUTOCOMPLETION_COUNT` of them.
    pub matches: Vec<Suggestion>,
    /// Byte offset where the token under the cursor begins.
    pub token_start: usize,
    /// Byte offset just past the token under the cursor.
    pub token_end: usize,
}

/// Whether the cursor at this character index sits in a non-empty token.
pub open spec fn token_present(text: Seq<u8>, char_index: int) -> bool {
    let bi = byte_of_char(text, char_index);
    token_start(text, bi) != token_end(text, bi)
}

/// The ranked suggestions for the token at this cursor: candidates must
/// extend the text before the cursor, end with the text after it inside the
/// token, and not be committed already in an enclosing group.
pub open spec fn suggestions_for(tags: Seq<TagView>, text: Seq<u8>, char_index: int) -> Seq<
    SuggestionView,
> {
    let bi = byte_of_char(text, char_index);
    let s = token_start(text, bi);
    let e = token_end(text, bi);
    let excluded = resolve_all(tags, open_scopes(text, s));
    ranked_candidates(
        tags,
        text.subrange(s, bi),
        text.subrange(bi, e),
        excluded,
        MAX_AUTOCOMPLETION_COUNT as int,
    )
}

/// The text with its byte range `[s, e)` replaced by `name`.
pub open spec fn spliced(text: Seq<u8>, s: int, e: int, name: Seq<u8>) -> Seq<u8> {
    text.subrange(0, s) + name + text.subrange(e, text.len() as int)
}

/// What selecting a suggestion yields: the new text and the new cursor as a
/// character index. The token's byte range is replaced by the canonical
/// name; when the replacement ends the text, one separator space is
/// appended; the cursor lands right after the insertion (and the space).
pub open spec fn selection_result(text: Seq<u8>, s: int, e: int, name: Seq<u8>) -> (Seq<u8>, int) {
    let base = spliced(text, s, e, name);
    let endpos = s + name.len();
    if endpos == base.len() {
        (base.push(32u8), char_count(base.push(32u8), endpos + 1))
    } else {
        (base, char_count(base, endpos))
    }
}

/// Replaces the token's byte range with a tag's canonical name, appending a
/// separator space when the replacement ends the text, and returns the new
/// text with the character index the cursor moves to.
pub fn select_suggestion(text: &Vec<u8>, token_from: usize, token_to: usize, name: &Vec<u8>) -> (r:
    (Vec<u8>, usize))
    requires
        token_from <= token_to <= text@.len(),
        text@.len() - (token_to - token_from) + name@.len() < usize::MAX,
    ensures
        r.0@ == selection_result(text@, token_from as int, token_to as int, name@).0,
        r.1 == selection_result(text@, token_from as int, token_to as int, name@).1,
{
    let ghost base = spliced(text@, token_from as int, token_to as int, name@);
    let mut out: Vec<u8> = copy_range(text, 0, token_from);
    let mut k: usize = 0;
    while k < name.len()
        invariant
            0 <= k <= name@.len(),
            token_from <= token_to <= text@.len(),
            text@.len() - (token_to - token_from) + name@.len() < usize::MAX,
            out@ == text@.subrange(0, token_from as int) + name@.subrange(0, k as int),
        decreases name@.len() - k,
    {
        out.push(name[k]);
        assert(out@ =~= text@.subrange(0, token_from as int) + name@.subrange(0, k + 1));
        k = k + 1;
    }
    assert(name@.subrange(0, name@.len() as int) =~= name@);
    let mut j: usize = token_to;
    while j < text.len()
        invariant
            token_from <= token_to <= j <= text@.len(),
            text@.len() - (token_to - token_from) + name@.len() < usize::MAX,
            out@ == text@.subrange(0, token_from as int) + name@ + text@.subrange(
                token_to as int,
                j as int,
            ),
        decreases text@.len() - j,
    {
        out.push(text[j]);
        assert(out@ =~= text@.subrange(0, token_from as int) + name@ + text@.subrange(
            token_to as int,
            j + 1,
        ));
        j = j + 1;
    }
    assert(out@ =~= base);

    let endpos = token_from + name.len();
    assert(endpos <= base.len());
    if endpos == out.len() {
        out.push(32);
        let cursor = count_chars(&out, endpos + 1);
        (out, cursor)
    } else {
        let cursor = count_chars(&out, endpos);
        (out, cursor)
    }
}

/// The autocomplete engine: borrows the tag index for its lifetime and keeps
/// the result of the latest pass for the selection step.
pub struct Autocompleter {
    /// The ranked tag index suggestions come from.
    pub tag_index: TagIndex,
    /// Outcome of the latest pass: `None` when the cursor was not in a
    /// token, and the caller should close any suggestion list.
    pub last_result: Option<AutocompleteResult>,
}

impl Autocompleter {
    /// An engine over the given tag index, with no pass run yet.
    pub fn new(tag_index: TagIndex) -> (r: Autocompleter)
        ensures
            r.tag_index@ == tag_index@,
            r.last_result is None,
    {
        Autocompleter { tag_index, last_result: None }
    }

    /// Runs one autocomplete pass for the cursor at `char_index` and keeps
    /// the outcome. Returns whether there is a token under the cursor, and
    /// with it a suggestion list to show; on `false` the previous result is
    /// discarded and the caller should close its suggestion list.
    pub fn do_autocomplete(&mut self, search_query: &Vec<u8>, char_index: usize) -> (r: bool)
        ensures
            final(self).tag_index@ == old(self).tag_index@,
            r == token_present(search_query@, char_index as int),
            r == (final(self).last_result is Some),
            final(self).last_result matches Some(ar) ==> {
                let bi = byte_of_char(search_query@, char_index as int);
                &&& ar.token_start == token_start(search_query@, bi)
                &&& ar.token_end == token_end(search_query@, bi)
                &&& ar.token_start <= ar.token_end <= search_query@.len()
                &&& ar.matches.deep_view() == suggestions_for(
                    old(self).tag_index@,
                    search_query@,
                    char_index as int,
                )
                &&& ar.matches@.len() <= MAX_AUTOCOMPLETION_COUNT
            },
    {
        let bi = char_to_byte(search_query, char_index);
        match token_at(search_query, bi) {
            None => {
                self.last_result = None;
                false
            }
            Some(tok) => {
                let prefix = copy_range(search_query, tok.start, bi);
                let suffix = copy_range(search_query, bi, tok.end);
                let excluded = self.tag_index.resolve_names(&tok.ancestors);
                let matches = self.tag_index.prefix_search(
                    &prefix,
                    &suffix,
                    &excluded,
                    MAX_AUTOCOMPLETION_COUNT,
                );
                self.last_result = Some(
                    AutocompleteResult { matches, token_start: tok.start, token_end: tok.end },
                );
                true
            }
        }
    }

    /// Performs the replacement for the chosen match of the latest pass.
    /// Yields the new text and cursor exactly when a pass found a token, the
    /// choice is in range, and the kept byte range still fits the text;
    /// otherwise nothing, and the text stands as it was.
    pub fn select(&self, text: &Vec<u8>, choice: usize) -> (r: Option<(Vec<u8>, usize)>)
        ensures
            match self.last_result {
                None => r is None,
                Some(ar) => {
                    if choice < ar.matches@.len() && ar.token_start <= ar.token_end <= text@.len()
                        && text@.len() - (ar.token_end - ar.token_start)
                        + ar.matches@[choice as int].name@.len() < usize::MAX {
                        r matches Some(p) && p.0@ == selection_result(
                            text@,
                            ar.token_start as int,
                            ar.token_end as int,
                            ar.matches@[choice as int].name@,
                        ).0 && p.1 == selection_result(
                            text@,
                            ar.token_start as int,
                            ar.token_end as int,
                            ar.matches@[choice as int].name@,
                        ).1
                    } else {
                        r is None
                    }
                },
            },
    {
        match &self.last_result {
            None => None,
            Some(ar) => {
                if choice < ar.matches.len() && ar.token_start <= ar.token_end && ar.token_end
                    <= text.len() {
                    let name = &ar.matches[choice].name;
                    let kept = text.len() - (ar.token_end - ar.token_start);
                    if name.len() < usize::MAX - kept {
                        Some(select_suggestion(text, ar.token_start, ar.token_end, name))
                    } else {
                        None
                    }
                } else {
                    None
                }
            }
        }
    }
}

} // verus!
