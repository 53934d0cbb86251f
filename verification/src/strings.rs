//! Small executable helpers over strings in character coordinates.

use vstd::prelude::*;

verus! {

/// Relies on `String::push` of std: appends exactly one character to the
/// end of the string. vstd gives this method no specification.
pub assume_specification[ String::push ](s: &mut String, c: char)
    ensures
        final(s)@ == old(s)@.push(c),
;

/// Character-by-character string equality.
pub fn str_eq(a: &str, b: &str) -> (r: bool)
    ensures
        r == (a@ == b@),
{
    let na = a.unicode_len();
    let nb = b.unicode_len();
    if na != nb {
        proof {
            assert(a@.len() != b@.len());
        }
        return false;
    }
    let mut i: usize = 0;
    while i < na
        invariant
            i <= na,
            na == a@.len(),
            na == b@.len(),
            forall|j: int| 0 <= j < i ==> a@[j] == b@[j],
        decreases na - i,
    {
        if a.get_char(i) != b.get_char(i) {
            return false;
        }
        i = i + 1;
    }
    proof {
        assert(a@ =~= b@);
    }
    true
}

/// The characters of `s` from position `from` (inclusive) to `to`
/// (exclusive), as an owned string.
pub fn substring_copy(s: &str, from: usize, to: usize) -> (r: String)
    requires
        from <= to <= s@.len(),
    ensures
        r@ == s@.subrange(from as int, to as int),
{
    s.substring_char(from, to).to_owned()
}

/// `t` with the characters of `ins` inserted at character position `col`.
pub open spec fn insert_chars(t: Seq<char>, col: int, ins: Seq<char>) -> Seq<char> {
    t.take(col) + ins + t.skip(col)
}

/// `t` with the character at position `i` removed.
pub open spec fn remove_char(t: Seq<char>, i: int) -> Seq<char> {
    t.take(i) + t.skip(i + 1)
}

/// A copy of `t` with the characters of `ins` inserted at position `col`.
pub fn string_insert(t: &str, col: usize, ins: &str) -> (r: String)
    requires
        col <= t@.len(),
    ensures
        r@ == insert_chars(t@, col as int, ins@),
{
    let n = t.unicode_len();
    let mut r = substring_copy(t, 0, col);
    r.append(ins);
    r.append(t.substring_char(col, n));
    proof {
        assert(r@ =~= insert_chars(t@, col as int, ins@));
    }
    r
}

/// A copy of `t` with the character at position `i` removed.
pub fn string_remove(t: &str, i: usize) -> (r: String)
    requires
        i < t@.len(),
    ensures
        r@ == remove_char(t@, i as int),
{
    let n = t.unicode_len();
    let mut r = substring_copy(t, 0, i);
    r.append(t.substring_char(i + 1, n));
    proof {
        assert(r@ =~= remove_char(t@, i as int));
    }
    r
}

} // verus!
