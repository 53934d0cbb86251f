//! Flat-text mutation at a cursor position.
//!
//! These operations edit a flat text in place at a [`CursorPosition`],
//! resolving the `(line, column)` pair to one character offset into the
//! text. The offset resolution is the shared primitive of every mutation
//! here, and it counts exactly as the cursor tracker does: line lengths in
//! character units plus one separator per line break.

use vstd::prelude::*;

use crate::cursor::{CursorPosition, cursor_valid};
use crate::lines::{flat_offset, lemma_flat_offset_bound, lemma_join_split, split_lines, text_lines};
use crate::strings::{insert_chars, remove_char, string_insert, string_remove};

verus! {

/// The character offset of `c` within `s`: the lengths of the lines before
/// the cursor's line, one separator each, plus the column.
pub open spec fn position_offset(s: Seq<char>, c: CursorPosition) -> int {
    flat_offset(text_lines(s), c.line as int, c.column as int)
}

/// Resolve a cursor position to its character offset in `text`.
pub fn get_char_offset(text: &str, cursor_position: CursorPosition) -> (r: usize)
    requires
        cursor_valid(cursor_position, text@),
    ensures
        r == position_offset(text@, cursor_position),
        r <= text@.len(),
{
    let ghost s = text@;
    let ghost tl = text_lines(s);
    let parts = split_lines(text);
    let n = text.unicode_len();
    let target = cursor_position.get_line_position();
    let mut sum: usize = 0;
    let mut k: usize = 0;
    while k < target
        invariant
            k <= target,
            target == cursor_position.line,
            n == s.len(),
            s == text@,
            tl == text_lines(s),
            parts.deep_view() == tl,
            cursor_valid(cursor_position, s),
            sum == flat_offset(tl, k as int, 0),
        decreases target - k,
    {
        let ghost partial = flat_offset(tl, k as int + 1, 0);
        proof {
            lemma_join_split(s);
            lemma_flat_offset_prefix(tl, k as int + 1);
            lemma_flat_offset_bound(tl, k as int + 1, 0);
            assert(partial <= n);
        }
        let len_k = parts[k].as_str().unicode_len();
        sum = sum + len_k + 1;
        k = k + 1;
    }
    proof {
        lemma_join_split(s);
        lemma_flat_offset_col(tl, target as int, cursor_position.column as int);
        lemma_flat_offset_bound(tl, target as int, cursor_position.column as int);
    }
    sum + cursor_position.get_column_position()
}

/// The offset of the start of line `k` is the offset of the start of line
/// `k - 1` plus that line's length and one separator.
proof fn lemma_flat_offset_prefix(ls: Seq<Seq<char>>, k: int)
    requires
        1 <= k <= ls.len(),
    ensures
        flat_offset(ls, k, 0) == flat_offset(ls, k - 1, 0) + ls[k - 1].len() + 1,
    decreases k,
{
    reveal_with_fuel(flat_offset, 3);
    if k == 1 {
    } else {
        lemma_flat_offset_prefix(ls.skip(1), k - 1);
        assert(ls.skip(1)[k - 2] == ls[k - 1]);
    }
}

/// The offset of `(line, col)` is the offset of the line start plus the
/// column.
proof fn lemma_flat_offset_col(ls: Seq<Seq<char>>, line: int, col: int)
    requires
        0 <= line,
    ensures
        flat_offset(ls, line, col) == flat_offset(ls, line, 0) + col,
    decreases line,
{
    if line > 0 {
        lemma_flat_offset_col(ls.skip(1), line - 1, col);
    }
}

/// Insert `new_text` into `text` at the character offset addressed by the
/// cursor position.
pub fn insert_text_at_position(text: &mut String, cursor_position: CursorPosition, new_text: &str)
    requires
        cursor_valid(cursor_position, old(text)@),
    ensures
        final(text)@ == insert_chars(
            old(text)@,
            position_offset(old(text)@, cursor_position),
            new_text@,
        ),
{
    let p = get_char_offset(text.as_str(), cursor_position);
    let nt = string_insert(text.as_str(), p, new_text);
    *text = nt;
}

/// Insert a line separator at the character offset addressed by the cursor
/// position.
pub fn insert_newline_at_position(text: &mut String, cursor_position: CursorPosition)
    requires
        cursor_valid(cursor_position, old(text)@),
    ensures
        final(text)@ == insert_chars(
            old(text)@,
            position_offset(old(text)@, cursor_position),
            seq!['\n'],
        ),
{
    insert_text_at_position(text, cursor_position, "\n");
    proof {
        reveal_strlit("\n");
        assert("\n"@ =~= seq!['\n']);
    }
}

/// Remove the character immediately before the cursor position. At the very
/// start of the text nothing happens.
pub fn delete_char_at_position(text: &mut String, cursor_position: CursorPosition)
    requires
        cursor_valid(cursor_position, old(text)@),
    ensures
        ({
            let p = position_offset(old(text)@, cursor_position);
            &&& p == 0 ==> final(text)@ == old(text)@
            &&& p > 0 ==> final(text)@ == remove_char(old(text)@, p - 1)
        }),
{
    let p = get_char_offset(text.as_str(), cursor_position);
    if p > 0 {
        let ghost s = text@;
        proof {
            assert(p - 1 < s.len());
        }
        let nt = string_remove(text.as_str(), p - 1);
        *text = nt;
    }
}

} // verus!
