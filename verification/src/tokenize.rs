//! Locating the query token under the cursor.
//!
//! A token is a maximal run of bytes other than space, `{` and `}`. Braces
//! open and close query groups: a group opened directly after a tag token is
//! owned by that tag, and every tag owning a group that encloses the cursor is
//! an ancestor of the token being edited. Suggestions for the token must not
//! repeat a tag already committed in an enclosing group, so the ancestor names
//! are handed back along with the token span.

use vstd::prelude::*;

use crate::text::copy_range;

verus! {

/// Whether a byte separates tokens: space or one of the group braces.
pub open spec fn is_sep(b: u8) -> bool {
    b == 32 || b == 123 || b == 125
}

/// Start of the token that position `pos` lies in (or `pos` itself when a
/// separator directly precedes it).
pub open spec fn token_start(text: Seq<u8>, pos: int) -> int
    decreases pos,
{
    if pos <= 0 {
        0
    } else if is_sep(text[pos - 1]) {
        pos
    } else {
        token_start(text, pos - 1)
    }
}

/// End of the token that position `pos` lies in (or `pos` itself when a
/// separator is at it).
pub open spec fn token_end(text: Seq<u8>, pos: int) -> int
    decreases text.len() - pos,
{
    if pos >= text.len() {
        text.len() as int
    } else if is_sep(text[pos]) {
        pos
    } else {
        token_end(text, pos + 1)
    }
}

/// The names of the tags whose groups are open after reading the first `n`
/// bytes, innermost last. A `{` pushes the token directly before it (an empty
/// name when the brace does not follow a token); a `}` closes the innermost
/// open group.
pub open spec fn open_scopes(text: Seq<u8>, n: int) -> Seq<Seq<u8>>
    decreases n,
{
    if n <= 0 {
        Seq::empty()
    } else {
        let rest = open_scopes(text, n - 1);
        let b = text[n - 1];
        if b == 123 {
            rest.push(text.subrange(token_start(text, n - 1), n - 1))
        } else if b == 125 {
            if rest.len() > 0 {
                rest.drop_last()
            } else {
                rest
            }
        } else {
            rest
        }
    }
}

/// The token found at a byte cursor: its span in the text and the names of
/// the tags whose groups enclose it.
pub struct TokenInfo {
    /// Byte offset where the token begins.
    pub start: usize,
    /// Byte offset just past the token's last byte.
    pub end: usize,
    /// Names of the tags owning the groups that enclose the token,
    /// outermost first; empty names stand for anonymous groups.
    pub ancestors: Vec<Vec<u8>>,
}

/// Finds the token that the byte cursor lies in, together with the span to
/// replace on selection and the enclosing groups' tag names. Returns `None`
/// when the cursor sits directly between separators, where there is nothing
/// to complete.
pub fn token_at(text: &Vec<u8>, byte_cursor: usize) -> (r: Option<TokenInfo>)
    requires
        byte_cursor <= text@.len(),
    ensures
        r is None <==> token_start(text@, byte_cursor as int) == token_end(
            text@,
            byte_cursor as int,
        ),
        r matches Some(t) ==> {
            &&& t.start == token_start(text@, byte_cursor as int)
            &&& t.end == token_end(text@, byte_cursor as int)
            &&& t.start <= byte_cursor <= t.end <= text@.len()
            &&& t.ancestors.deep_view() == open_scopes(text@, t.start as int)
        },
{
    // Scan back to the token's start.
    let mut start: usize = byte_cursor;
    while start > 0 && !(text[start - 1] == 32 || text[start - 1] == 123 || text[start - 1] == 125)
        invariant
            0 <= start <= byte_cursor <= text@.len(),
            token_start(text@, byte_cursor as int) == token_start(text@, start as int),
        decreases start,
    {
        start = start - 1;
    }
    assert(token_start(text@, start as int) == start);

    // Scan forward to the token's end.
    let mut end: usize = byte_cursor;
    while end < text.len() && !(text[end] == 32 || text[end] == 123 || text[end] == 125)
        invariant
            byte_cursor <= end <= text@.len(),
            token_end(text@, byte_cursor as int) == token_end(text@, end as int),
        decreases text@.len() - end,
    {
        end = end + 1;
    }
    assert(token_end(text@, end as int) == end);

    if start == end {
        return None;
    }

    // Walk the text before the token, tracking the groups still open there.
    let mut spans: Vec<(usize, usize)> = Vec::new();
    let mut ts: usize = 0;
    let mut pos: usize = 0;
    while pos < start
        invariant
            0 <= pos <= start <= text@.len(),
            ts == token_start(text@, pos as int),
            ts <= pos,
            spans@.len() == open_scopes(text@, pos as int).len(),
            forall|k: int|
                0 <= k < spans@.len() ==> {
                    &&& #[trigger] spans@[k].0 <= spans@[k].1 <= text@.len()
                    &&& text@.subrange(spans@[k].0 as int, spans@[k].1 as int) == open_scopes(
                        text@,
                        pos as int,
                    )[k]
                },
        decreases start - pos,
    {
        let b = text[pos];
        if b == 123 {
            spans.push((ts, pos));
        } else if b == 125 {
            if spans.len() > 0 {
                spans.pop();
            }
        }
        if b == 32 || b == 123 || b == 125 {
            ts = pos + 1;
        }
        pos = pos + 1;
    }

    // Copy the enclosing group names out of the text.
    let ghost scopes = open_scopes(text@, start as int);
    let mut ancestors: Vec<Vec<u8>> = Vec::new();
    let mut k: usize = 0;
    while k < spans.len()
        invariant
            0 <= k <= spans@.len(),
            spans@.len() == scopes.len(),
            forall|j: int|
                0 <= j < spans@.len() ==> {
                    &&& #[trigger] spans@[j].0 <= spans@[j].1 <= text@.len()
                    &&& text@.subrange(spans@[j].0 as int, spans@[j].1 as int) == scopes[j]
                },
            ancestors@.len() == k,
            forall|j: int| 0 <= j < k ==> #[trigger] ancestors@[j]@ == scopes[j],
        decreases spans@.len() - k,
    {
        let (a, b) = spans[k];
        ancestors.push(copy_range(text, a, b));
        k = k + 1;
    }
    assert(ancestors.deep_view() =~= scopes) by {
        assert(forall|j: int|
            0 <= j < ancestors@.len() ==> ancestors.deep_view()[j] =~= #[trigger] ancestors@[j]@);
    }

    Some(TokenInfo { start, end, ancestors })
}

} // verus!
