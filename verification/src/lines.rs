//! The line model of flat text.
//!
//! A flat text is viewed as a non-empty sequence of lines separated by `'\n'`.
//! The trailing line is always materialized: a text that ends with a line
//! separator has a final empty line, so the line count is always the number
//! of separators plus one. This removes any need to special-case a trailing
//! separator in cursor or parsing code.

use vstd::prelude::*;

verus! {

/// The lines of `s`: split at every `'\n'`, always at least one line.
pub open spec fn text_lines(s: Seq<char>) -> Seq<Seq<char>>
    decreases s.len(),
{
    if s.len() == 0 {
        seq![Seq::<char>::empty()]
    } else if s[0] == '\n' {
        seq![Seq::<char>::empty()] + text_lines(s.skip(1))
    } else {
        let rest = text_lines(s.skip(1));
        seq![seq![s[0]] + rest[0]] + rest.skip(1)
    }
}

/// The flat text of a sequence of lines: the lines joined by `'\n'`.
pub open spec fn join_lines(ls: Seq<Seq<char>>) -> Seq<char>
    decreases ls.len(),
{
    if ls.len() == 0 {
        Seq::empty()
    } else if ls.len() == 1 {
        ls[0]
    } else {
        ls[0] + seq!['\n'] + join_lines(ls.skip(1))
    }
}

/// Every text has at least one line.
pub proof fn lemma_text_lines_len(s: Seq<char>)
    ensures
        text_lines(s).len() >= 1,
{
}

/// A text without a separator is a single line.
pub proof fn lemma_text_lines_single(s: Seq<char>)
    requires
        forall|i: int| 0 <= i < s.len() ==> s[i] != '\n',
    ensures
        text_lines(s) == seq![s],
    decreases s.len(),
{
    if s.len() == 0 {
        assert(text_lines(s) =~~= seq![s]);
    } else {
        lemma_text_lines_single(s.skip(1));
        assert(seq![s[0]] + s.skip(1) =~= s);
        assert(text_lines(s) =~~= seq![s]);
    }
}

/// Splitting `a + '\n' + b` where `a` holds no separator yields `a`
/// followed by the lines of `b`.
pub proof fn lemma_text_lines_concat(a: Seq<char>, b: Seq<char>)
    requires
        forall|i: int| 0 <= i < a.len() ==> a[i] != '\n',
    ensures
        text_lines(a + seq!['\n'] + b) == seq![a] + text_lines(b),
    decreases a.len(),
{
    let s = a + seq!['\n'] + b;
    if a.len() == 0 {
        assert(s[0] == '\n');
        assert(s.skip(1) =~= b);
        assert(text_lines(s) =~~= seq![a] + text_lines(b));
    } else {
        assert(s[0] == a[0]);
        assert(s[0] != '\n');
        assert(s.skip(1) =~= a.skip(1) + seq!['\n'] + b);
        lemma_text_lines_concat(a.skip(1), b);
        lemma_text_lines_len(b);
        assert(text_lines(s.skip(1)) == seq![a.skip(1)] + text_lines(b));
        assert(text_lines(s.skip(1))[0] == a.skip(1));
        assert(seq![s[0]] + a.skip(1) =~= a);
        assert(text_lines(s.skip(1)).skip(1) =~= text_lines(b));
        assert(text_lines(s) =~~= seq![a] + text_lines(b));
    }
}

/// Joining and then splitting restores the lines, provided there is at
/// least one line and no line holds a separator.
pub proof fn lemma_split_join(ls: Seq<Seq<char>>)
    requires
        ls.len() >= 1,
        forall|i: int, j: int| 0 <= i < ls.len() && 0 <= j < ls[i].len() ==> #[trigger] ls[i][j]
            != '\n',
    ensures
        text_lines(join_lines(ls)) == ls,
    decreases ls.len(),
{
    if ls.len() == 1 {
        lemma_text_lines_single(ls[0]);
        assert(text_lines(join_lines(ls)) =~~= ls);
    } else {
        assert(forall|i: int, j: int|
            0 <= i < ls.skip(1).len() && 0 <= j < ls.skip(1)[i].len() ==> ls.skip(1)[i]
                == ls[i + 1] && #[trigger] ls.skip(1)[i][j] == ls[i + 1][j]);
        lemma_split_join(ls.skip(1));
        lemma_text_lines_concat(ls[0], join_lines(ls.skip(1)));
        assert(text_lines(join_lines(ls)) =~~= ls);
    }
}

/// Joining one more line appends a separator and that line.
pub proof fn lemma_join_push(ls: Seq<Seq<char>>, x: Seq<char>)
    ensures
        ls.len() == 0 ==> join_lines(ls.push(x)) == x,
        ls.len() >= 1 ==> join_lines(ls.push(x)) == join_lines(ls) + seq!['\n'] + x,
    decreases ls.len(),
{
    reveal_with_fuel(join_lines, 3);
    if ls.len() == 0 {
        assert(ls.push(x)[0] == x);
    } else if ls.len() == 1 {
        assert(ls.push(x)[0] == ls[0]);
        assert(ls.push(x).skip(1) =~= seq![x]);
        assert(join_lines(seq![x]) == x);
    } else {
        assert(ls.push(x)[0] == ls[0]);
        assert(ls.push(x).skip(1) =~= ls.skip(1).push(x));
        lemma_join_push(ls.skip(1), x);
        assert(join_lines(ls.push(x)) =~= join_lines(ls) + seq!['\n'] + x);
    }
}

/// Split `text` into its lines.
pub fn split_lines(text: &str) -> (r: Vec<String>)
    ensures
        r.deep_view() == text_lines(text@),
        r@.len() >= 1,
{
    let ghost s = text@;
    let n = text.unicode_len();
    let mut result: Vec<String> = Vec::new();
    let mut start: usize = 0;
    let mut i: usize = 0;
    proof {
        assert(s.skip(0) =~= s);
        assert(result.deep_view() =~= Seq::<Seq<char>>::empty());
        assert(result.deep_view() + text_lines(s) =~= text_lines(s));
    }
    while i < n
        invariant
            start <= i <= n,
            n == s.len(),
            s == text@,
            forall|j: int| start <= j < i ==> s[j] != '\n',
            text_lines(s) == result.deep_view() + text_lines(s.skip(start as int)),
        decreases n - i,
    {
        if text.get_char(i) == '\n' {
            let line = text.substring_char(start, i);
            result.push(line.to_owned());
            proof {
                let a = s.subrange(start as int, i as int);
                let b = s.skip(i as int + 1);
                assert(s.skip(start as int) =~= a + seq!['\n'] + b);
                lemma_text_lines_concat(a, b);
                assert(result.deep_view() =~= result.deep_view().drop_last().push(a));
                assert(result.deep_view().drop_last() + (seq![a] + text_lines(b))
                    =~= result.deep_view() + text_lines(b));
            }
            start = i + 1;
        }
        i = i + 1;
    }
    let last = text.substring_char(start, n);
    result.push(last.to_owned());
    proof {
        let a = s.subrange(start as int, n as int);
        assert(s.skip(start as int) =~= a);
        lemma_text_lines_single(a);
        assert(result.deep_view() =~= result.deep_view().drop_last().push(a));
        assert(result.deep_view().drop_last() + seq![a] =~= result.deep_view());
        assert(result.deep_view() =~= text_lines(s));
    }
    result
}

/// Splitting and then joining restores the text.
pub proof fn lemma_join_split(s: Seq<char>)
    ensures
        join_lines(text_lines(s)) == s,
    decreases s.len(),
{
    reveal_with_fuel(join_lines, 3);
    if s.len() == 0 {
        assert(join_lines(text_lines(s)) =~= s);
    } else if s[0] == '\n' {
        lemma_join_split(s.skip(1));
        lemma_text_lines_len(s.skip(1));
        let tl = text_lines(s);
        assert(tl[0] =~= Seq::<char>::empty());
        assert(tl.skip(1) =~= text_lines(s.skip(1)));
        assert(join_lines(tl) =~= s);
    } else {
        lemma_join_split(s.skip(1));
        let r = text_lines(s.skip(1));
        lemma_text_lines_len(s.skip(1));
        let tl = text_lines(s);
        assert(tl[0] == seq![s[0]] + r[0]);
        assert(tl.skip(1) =~= r.skip(1));
        if r.len() == 1 {
            assert(tl.len() == 1);
            assert(join_lines(r) == r[0]);
            assert(join_lines(tl) == tl[0]);
            assert(join_lines(tl) =~= s);
        } else {
            assert(tl.len() >= 2);
            assert(join_lines(tl) == tl[0] + seq!['\n'] + join_lines(tl.skip(1)));
            assert(join_lines(r) == r[0] + seq!['\n'] + join_lines(r.skip(1)));
            assert(join_lines(tl) =~= seq![s[0]] + join_lines(r));
            assert(seq![s[0]] + s.skip(1) =~= s);
        }
    }
}

/// The character offset of `(line, col)` within joined lines: the lengths
/// of the lines before it, one separator each, plus the column.
pub open spec fn flat_offset(ls: Seq<Seq<char>>, line: int, col: int) -> int
    decreases line,
{
    if line <= 0 {
        col
    } else {
        ls[0].len() + 1 + flat_offset(ls.skip(1), line - 1, col)
    }
}

/// A valid position's offset lies within the joined text.
pub proof fn lemma_flat_offset_bound(ls: Seq<Seq<char>>, line: int, col: int)
    requires
        0 <= line < ls.len(),
        0 <= col <= ls[line].len(),
    ensures
        0 <= flat_offset(ls, line, col) <= join_lines(ls).len(),
    decreases line,
{
    if line == 0 {
        if ls.len() == 1 {
            assert(join_lines(ls) == ls[0]);
        } else {
            assert(join_lines(ls) == ls[0] + seq!['\n'] + join_lines(ls.skip(1)));
        }
    } else {
        assert(ls.len() >= 2);
        assert(join_lines(ls) == ls[0] + seq!['\n'] + join_lines(ls.skip(1)));
        assert(ls.skip(1)[line - 1] == ls[line]);
        lemma_flat_offset_bound(ls.skip(1), line - 1, col);
    }
}

} // verus!
