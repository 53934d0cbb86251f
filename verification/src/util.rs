//! Extracting a numeric image key from a rendered line.
//!
//! The renderer tags a line that carries an inline picture with
//! `[image(<n>)]`, where `<n>` is the numeric key of the texture to draw.
//! [`extract_image_id`] recovers that key: it finds the first opening tag,
//! the first closing bracket pair after it, and reads the characters
//! between as a decimal number the way `usize::from_str` does (an optional
//! leading `+`, then decimal digits, rejecting anything else or a value
//! beyond the machine range).

use vstd::prelude::*;

use crate::strings::substring_copy;

verus! {

/// `pat` occurs in `s` starting at position `i`.
pub open spec fn occurs_at(s: Seq<char>, pat: Seq<char>, i: int) -> bool {
    &&& 0 <= i
    &&& i + pat.len() <= s.len()
    &&& s.subrange(i, i + pat.len()) == pat
}

/// `i` is the first position at which `pat` occurs in `s`.
pub open spec fn first_occurrence(s: Seq<char>, pat: Seq<char>, i: int) -> bool {
    &&& occurs_at(s, pat, i)
    &&& forall|j: int| 0 <= j < i ==> !occurs_at(s, pat, j)
}

/// The position of the first occurrence of `pat` in `s`, if any.
pub fn find_pattern(s: &str, pat: &str) -> (r: Option<usize>)
    requires
        pat@.len() >= 1,
    ensures
        r matches Some(i) ==> first_occurrence(s@, pat@, i as int),
        r is None ==> forall|j: int| !occurs_at(s@, pat@, j),
{
    let n = s.unicode_len();
    let m = pat.unicode_len();
    if m > n {
        return None;
    }
    let mut i: usize = 0;
    while i <= n - m
        invariant
            m >= 1,
            m <= n,
            i <= n - m + 1,
            n == s@.len(),
            m == pat@.len(),
            forall|j: int| 0 <= j < i ==> !occurs_at(s@, pat@, j),
        decreases n - i,
    {
        let mut k: usize = 0;
        let mut matched = true;
        while k < m
            invariant
                k <= m,
                i + m <= n,
                n == s@.len(),
                m == pat@.len(),
                matched ==> forall|q: int| 0 <= q < k ==> s@[i + q] == pat@[q],
                !matched ==> !occurs_at(s@, pat@, i as int),
            decreases m - k,
        {
            if s.get_char(i + k) != pat.get_char(k) {
                proof {
                    if occurs_at(s@, pat@, i as int) {
                        assert(s@.subrange(i as int, i as int + m) == pat@);
                        assert(s@.subrange(i as int, i as int + m)[k as int] == s@[i + k]);
                    }
                }
                matched = false;
                k = m;
            } else {
                k = k + 1;
            }
        }
        if matched {
            proof {
                assert(s@.subrange(i as int, i as int + m) =~= pat@);
            }
            return Some(i);
        }
        i = i + 1;
    }
    proof {
        assert forall|j: int| !occurs_at(s@, pat@, j) by {
            if 0 <= j && j + m <= n {
                assert(j < i);
            }
        }
    }
    None
}

/// The digits of a decimal literal after an optional leading `+`.
pub open spec fn digits_part(s: Seq<char>) -> Seq<char> {
    if s.len() > 0 && s[0] == '+' {
        s.skip(1)
    } else {
        s
    }
}

/// A non-empty run of ASCII decimal digits.
pub open spec fn all_digits(d: Seq<char>) -> bool {
    &&& d.len() >= 1
    &&& forall|j: int| 0 <= j < d.len() ==> 48 <= #[trigger] (d[j] as u32) <= 57
}

/// The value of a run of decimal digits, most significant first.
pub open spec fn digits_value(d: Seq<char>) -> int
    decreases d.len(),
{
    if d.len() == 0 {
        0
    } else {
        digits_value(d.drop_last()) * 10 + ((d.last() as u32) - 48)
    }
}

/// What `usize::from_str` accepts and returns: an optional leading `+`,
/// then decimal digits whose value fits the machine range.
pub open spec fn parsed_usize(s: Seq<char>) -> Option<int> {
    if all_digits(digits_part(s)) && digits_value(digits_part(s)) <= usize::MAX {
        Some(digits_value(digits_part(s)))
    } else {
        None
    }
}

/// A digit run's value is never negative.
proof fn lemma_digits_value_nonneg(d: Seq<char>)
    requires
        forall|j: int| 0 <= j < d.len() ==> 48 <= #[trigger] (d[j] as u32) <= 57,
    ensures
        digits_value(d) >= 0,
    decreases d.len(),
{
    if d.len() > 0 {
        lemma_digits_value_nonneg(d.drop_last());
    }
}

/// Extending a digit run never shrinks its value.
proof fn lemma_digits_value_prefix(d: Seq<char>, k: int)
    requires
        0 <= k <= d.len(),
        forall|j: int| 0 <= j < d.len() ==> 48 <= #[trigger] (d[j] as u32) <= 57,
    ensures
        digits_value(d.take(k)) <= digits_value(d),
    decreases d.len() - k,
{
    if k == d.len() {
        assert(d.take(k) =~= d);
    } else {
        assert(d.take(k + 1).drop_last() =~= d.take(k));
        assert(d.take(k + 1).last() == d[k]);
        lemma_digits_value_nonneg(d.take(k));
        lemma_digits_value_prefix(d, k + 1);
    }
}

/// Read `s` as `usize::from_str` would.
pub fn parse_usize(s: &str) -> (r: Option<usize>)
    ensures
        r is Some <==> parsed_usize(s@) is Some,
        r matches Some(v) ==> parsed_usize(s@) == Some(v as int),
{
    let n = s.unicode_len();
    let start: usize = if n > 0 && s.get_char(0) == '+' {
        1
    } else {
        0
    };
    let ghost d = digits_part(s@);
    proof {
        assert(d =~= s@.subrange(start as int, n as int));
    }
    if start == n {
        return None;
    }
    let mut acc: usize = 0;
    let mut k: usize = start;
    proof {
        assert(d.take(0) =~= Seq::<char>::empty());
    }
    while k < n
        invariant
            start <= k <= n,
            n == s@.len(),
            d == digits_part(s@),
            d =~= s@.subrange(start as int, n as int),
            forall|j: int| 0 <= j < k - start ==> 48 <= #[trigger] (d[j] as u32) <= 57,
            acc == digits_value(d.take(k - start)),
        decreases n - k,
    {
        let c = s.get_char(k);
        let u = c as u32;
        if u < 48 || u > 57 {
            proof {
                assert(d[k - start] == c);
                assert(!all_digits(d));
            }
            return None;
        }
        let digit = (u - 48) as usize;
        proof {
            assert(d.take(k - start + 1).drop_last() =~= d.take(k - start));
            assert(d.take(k - start + 1).last() == d[k - start]);
            lemma_digits_value_nonneg(d.take(k - start));
        }
        if acc > (usize::MAX - digit) / 10 {
            proof {
                assert(acc * 10 + digit > usize::MAX) by (nonlinear_arith)
                    requires
                        acc > (usize::MAX - digit) / 10,
                        digit <= 9,
                {}
                assert(digits_value(d.take(k - start + 1)) > usize::MAX);
                if all_digits(d) {
                    lemma_digits_value_prefix(d, k - start + 1);
                    assert(digits_value(d) > usize::MAX);
                }
            }
            return None;
        }
        acc = acc * 10 + digit;
        k = k + 1;
    }
    proof {
        assert(d.take(n - start) =~= d);
        assert(all_digits(d));
        lemma_digits_value_nonneg(d);
    }
    Some(acc)
}

/// Recover the numeric key of an `[image(<n>)]` tag, if the line carries
/// one: the first opening tag, the first closing `)]` after it, and the
/// characters between read as a decimal number. Returns `None` when either
/// bracket is missing or the characters between are not a machine-range
/// decimal number.
pub fn extract_image_id(line: &str) -> (r: Option<usize>)
    ensures
        ({
            let s = line@;
            &&& (forall|j: int| !occurs_at(s, "[image("@, j)) ==> r is None
            &&& forall|i: int|
                first_occurrence(s, "[image("@, i) ==> ({
                    let rest = s.skip(i + 7);
                    &&& (forall|j: int| !occurs_at(rest, ")]"@, j)) ==> r is None
                    &&& forall|j: int|
                        first_occurrence(rest, ")]"@, j) ==> ({
                            &&& r is Some <==> parsed_usize(rest.take(j)) is Some
                            &&& r matches Some(v) ==> parsed_usize(rest.take(j)) == Some(v as int)
                        })
                })
        }),
{
    let open_tag = "[image(";
    let close_tag = ")]";
    proof {
        reveal_strlit("[image(");
        reveal_strlit(")]");
        assert(open_tag@.len() == 7);
        assert(close_tag@.len() == 2);
    }
    let n = line.unicode_len();
    match find_pattern(line, open_tag) {
        None => None,
        Some(start) => {
            proof {
                assert(start + 7 <= n);
            }
            let rest = substring_copy(line, start + 7, n);
            match find_pattern(rest.as_str(), close_tag) {
                None => None,
                Some(end) => {
                    let id_str = substring_copy(rest.as_str(), 0, end);
                    proof {
                        assert(id_str@ =~= line@.skip(start + 7).take(end as int));
                    }
                    parse_usize(id_str.as_str())
                },
            }
        },
    }
}

} // verus!
