//! Byte-level text utilities: character boundaries of UTF-8 encoded text,
//! prefix/suffix tests, and range copies.
//!
//! Query text is handled as raw bytes. Cursor positions arrive as character
//! indices and are converted to byte offsets here; a character starts at every
//! byte that is not a UTF-8 continuation byte.

use vstd::prelude::*;

verus! {

/// Whether a UTF-8 encoded character begins at a byte with this value
/// (every byte except the continuation bytes `0x80..=0xBF`).
pub open spec fn is_char_start(b: u8) -> bool {
    b < 128 || b >= 192
}

/// Number of character starts among the first `n` bytes of `text`.
pub open spec fn char_count(text: Seq<u8>, n: int) -> int
    decreases n,
{
    if n <= 0 {
        0
    } else {
        char_count(text, n - 1) + if is_char_start(text[n - 1]) {
            1int
        } else {
            0int
        }
    }
}

/// Byte offset of the character with index `k`, searching from byte `pos`;
/// the text length when fewer than `k + 1` characters remain.
pub open spec fn byte_of_char_from(text: Seq<u8>, k: int, pos: int) -> int
    decreases text.len() - pos,
{
    if pos < 0 || pos >= text.len() {
        text.len() as int
    } else if is_char_start(text[pos]) {
        if k <= 0 {
            pos
        } else {
            byte_of_char_from(text, k - 1, pos + 1)
        }
    } else {
        byte_of_char_from(text, k, pos + 1)
    }
}

/// Byte offset of the character with index `k`, or the text length when the
/// text has at most `k` characters.
pub open spec fn byte_of_char(text: Seq<u8>, k: int) -> int {
    byte_of_char_from(text, k, 0)
}

/// Converts a character index to the byte offset where that character starts,
/// clamping to the text length when the index is past the last character.
pub fn char_to_byte(text: &Vec<u8>, char_index: usize) -> (r: usize)
    ensures
        r == byte_of_char(text@, char_index as int),
        r <= text@.len(),
{
    let mut pos: usize = 0;
    let mut k: usize = char_index;
    while pos < text.len()
        invariant
            0 <= pos <= text@.len(),
            byte_of_char(text@, char_index as int) == byte_of_char_from(text@, k as int, pos as int),
        decreases text@.len() - pos,
    {
        let b = text[pos];
        if b < 128 || b >= 192 {
            if k == 0 {
                return pos;
            }
            k = k - 1;
        }
        pos = pos + 1;
    }
    text.len()
}

/// Number of characters that start within the first `n` bytes of `text`.
pub fn count_chars(text: &Vec<u8>, n: usize) -> (r: usize)
    requires
        n <= text@.len(),
    ensures
        r == char_count(text@, n as int),
{
    let mut pos: usize = 0;
    let mut count: usize = 0;
    while pos < n
        invariant
            0 <= pos <= n <= text@.len(),
            count == char_count(text@, pos as int),
            count <= pos,
        decreases n - pos,
    {
        let b = text[pos];
        if b < 128 || b >= 192 {
            count = count + 1;
        }
        pos = pos + 1;
    }
    count
}

/// Converts a byte range of the text into the character range that a caret
/// highlight over the same span needs.
pub fn char_range_of(text: &Vec<u8>, from: usize, to: usize) -> (r: (usize, usize))
    requires
        from <= text@.len(),
        to <= text@.len(),
    ensures
        r.0 == char_count(text@, from as int),
        r.1 == char_count(text@, to as int),
{
    (count_chars(text, from), count_chars(text, to))
}

/// Whether `prefix` is an initial run of `v`.
pub open spec fn starts_with(v: Seq<u8>, prefix: Seq<u8>) -> bool {
    prefix.len() <= v.len() && v.subrange(0, prefix.len() as int) == prefix
}

/// Whether `suffix` is a final run of `v`.
pub open spec fn ends_with(v: Seq<u8>, suffix: Seq<u8>) -> bool {
    suffix.len() <= v.len() && v.subrange(v.len() - suffix.len(), v.len() as int) == suffix
}

/// Compares a leading run of `v` against `prefix`.
pub fn bytes_start_with(v: &Vec<u8>, prefix: &Vec<u8>) -> (r: bool)
    ensures
        r == starts_with(v@, prefix@),
{
    if prefix.len() > v.len() {
        return false;
    }
    let mut i: usize = 0;
    while i < prefix.len()
        invariant
            prefix@.len() <= v@.len(),
            0 <= i <= prefix@.len(),
            forall|j: int| 0 <= j < i ==> v@[j] == prefix@[j],
        decreases prefix@.len() - i,
    {
        if v[i] != prefix[i] {
            assert(v@.subrange(0, prefix@.len() as int)[i as int] != prefix@[i as int]);
            return false;
        }
        i = i + 1;
    }
    assert(v@.subrange(0, prefix@.len() as int) =~= prefix@);
    true
}

/// Compares a trailing run of `v` against `suffix`.
pub fn bytes_end_with(v: &Vec<u8>, suffix: &Vec<u8>) -> (r: bool)
    ensures
        r == ends_with(v@, suffix@),
{
    if suffix.len() > v.len() {
        return false;
    }
    let vlen = v.len();
    let base = vlen - suffix.len();
    let mut i: usize = 0;
    while i < suffix.len()
        invariant
            suffix@.len() <= v@.len(),
            vlen == v@.len(),
            base == v@.len() - suffix@.len(),
            0 <= i <= suffix@.len(),
            forall|j: int| 0 <= j < i ==> v@[base + j] == suffix@[j],
        decreases suffix@.len() - i,
    {
        if v[base + i] != suffix[i] {
            assert(v@.subrange(v@.len() - suffix@.len(), v@.len() as int)[i as int] != suffix@[
                i as int
            ]);
            return false;
        }
        i = i + 1;
    }
    assert(v@.subrange(v@.len() - suffix@.len(), v@.len() as int) =~= suffix@);
    true
}

/// Compares two byte strings for equality.
pub fn bytes_eq(a: &Vec<u8>, b: &Vec<u8>) -> (r: bool)
    ensures
        r == (a@ == b@),
{
    if a.len() != b.len() {
        assert(a@ != b@) by {
            assert(a@.len() != b@.len());
        }
        return false;
    }
    let mut i: usize = 0;
    while i < a.len()
        invariant
            a@.len() == b@.len(),
            0 <= i <= a@.len(),
            forall|j: int| 0 <= j < i ==> a@[j] == b@[j],
        decreases a@.len() - i,
    {
        if a[i] != b[i] {
            return false;
        }
        i = i + 1;
    }
    assert(a@ =~= b@);
    true
}

/// Copies the byte range `[start, end)` of `v` into a new vector.
pub fn copy_range(v: &Vec<u8>, start: usize, end: usize) -> (r: Vec<u8>)
    requires
        start <= end <= v@.len(),
    ensures
        r@ == v@.subrange(start as int, end as int),
{
    let mut r: Vec<u8> = Vec::new();
    let mut i: usize = start;
    while i < end
        invariant
            start <= i <= end <= v@.len(),
            r@.len() == i - start,
            forall|j: int| 0 <= j < r@.len() ==> r@[j] == v@[start + j],
        decreases end - i,
    {
        r.push(v[i]);
        i = i + 1;
    }
    assert(r@ =~= v@.subrange(start as int, end as int));
    r
}

} // verus!
