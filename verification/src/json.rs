//! The sidecar metadata record, framed as JSON text.
//!
//! The library writes the sidecar record itself so that its exact content
//! is pinned down: a single object `{"images":{...}}` whose inner object
//! maps each image identifier to `{"id":...,"data":...,"width":W,
//! "height":H}`. String values are escaped per JSON rules; numbers are
//! plain decimal.

use vstd::prelude::*;

use crate::metadata::{DocumentMetadata, ImageMetadata, ImageMetaModel};
use crate::strings::substring_copy;

verus! {

/// The lowercase hexadecimal digit for `n`.
pub open spec fn hex_digit(n: int) -> char {
    if n == 0 {
        '0'
    } else if n == 1 {
        '1'
    } else if n == 2 {
        '2'
    } else if n == 3 {
        '3'
    } else if n == 4 {
        '4'
    } else if n == 5 {
        '5'
    } else if n == 6 {
        '6'
    } else if n == 7 {
        '7'
    } else if n == 8 {
        '8'
    } else if n == 9 {
        '9'
    } else if n == 10 {
        'a'
    } else if n == 11 {
        'b'
    } else if n == 12 {
        'c'
    } else if n == 13 {
        'd'
    } else if n == 14 {
        'e'
    } else {
        'f'
    }
}

/// The JSON escape of one character: quote and backslash get a backslash,
/// the common control characters their short forms, the remaining control
/// characters a `\u00XX` escape, and every other character stands as is.
pub open spec fn escape_char(c: char) -> Seq<char> {
    if c == '"' {
        seq!['\\', '"']
    } else if c == '\\' {
        seq!['\\', '\\']
    } else if c == '\n' {
        seq!['\\', 'n']
    } else if c == '\r' {
        seq!['\\', 'r']
    } else if c == '\t' {
        seq!['\\', 't']
    } else if (c as u32) < 0x20 {
        seq!['\\', 'u', '0', '0', hex_digit((c as u32) as int / 16), hex_digit((c as u32) as int % 16)]
    } else {
        seq![c]
    }
}

/// The JSON escape of a whole string.
pub open spec fn json_escape(s: Seq<char>) -> Seq<char>
    decreases s.len(),
{
    if s.len() == 0 {
        Seq::empty()
    } else {
        escape_char(s[0]) + json_escape(s.skip(1))
    }
}

/// Escaping one more character appends its escape.
proof fn lemma_json_escape_push(s: Seq<char>, c: char)
    ensures
        json_escape(s.push(c)) == json_escape(s) + escape_char(c),
    decreases s.len(),
{
    reveal_with_fuel(json_escape, 3);
    if s.len() == 0 {
        assert(s.push(c)[0] == c);
        assert(s.push(c).skip(1) =~= Seq::<char>::empty());
        assert(json_escape(s.push(c)) =~= json_escape(s) + escape_char(c));
    } else {
        assert(s.push(c)[0] == s[0]);
        assert(s.push(c).skip(1) =~= s.skip(1).push(c));
        lemma_json_escape_push(s.skip(1), c);
        assert(json_escape(s.push(c)) =~= json_escape(s) + escape_char(c));
    }
}

/// The decimal digits of `n`, most significant first.
pub open spec fn dec_digits(n: int) -> Seq<char>
    decreases n,
{
    if n <= 9 {
        seq![hex_digit(if n < 0 { 0 } else { n })]
    } else {
        dec_digits(n / 10).push(hex_digit(n % 10))
    }
}

/// Append the JSON escape of `s` to `out`.
fn append_escaped(out: &mut String, s: &str)
    ensures
        final(out)@ == old(out)@ + json_escape(s@),
{
    let n = s.unicode_len();
    let mut i: usize = 0;
    proof {
        assert(json_escape(s@.take(0)) =~= Seq::<char>::empty());
        assert(old(out)@ + json_escape(s@.take(0)) =~= old(out)@);
    }
    while i < n
        invariant
            i <= n,
            n == s@.len(),
            out@ == old(out)@ + json_escape(s@.take(i as int)),
        decreases n - i,
    {
        let c = s.get_char(i);
        let u = c as u32;
        if c == '"' {
            out.push('\\');
            out.push('"');
        } else if c == '\\' {
            out.push('\\');
            out.push('\\');
        } else if c == '\n' {
            out.push('\\');
            out.push('n');
        } else if c == '\r' {
            out.push('\\');
            out.push('r');
        } else if c == '\t' {
            out.push('\\');
            out.push('t');
        } else if u < 0x20 {
            out.push('\\');
            out.push('u');
            out.push('0');
            out.push('0');
            out.push(hex_char(u / 16));
            out.push(hex_char(u % 16));
        } else {
            out.push(c);
        }
        proof {
            assert(s@.take(i as int + 1) =~= s@.take(i as int).push(c));
            lemma_json_escape_push(s@.take(i as int), c);
            assert(out@ =~= old(out)@ + json_escape(s@.take(i as int + 1)));
        }
        i = i + 1;
    }
    proof {
        assert(s@.take(n as int) =~= s@);
    }
}

/// The lowercase hexadecimal digit character for `n < 16`.
fn hex_char(n: u32) -> (r: char)
    requires
        n < 16,
    ensures
        r == hex_digit(n as int),
{
    if n == 0 {
        '0'
    } else if n == 1 {
        '1'
    } else if n == 2 {
        '2'
    } else if n == 3 {
        '3'
    } else if n == 4 {
        '4'
    } else if n == 5 {
        '5'
    } else if n == 6 {
        '6'
    } else if n == 7 {
        '7'
    } else if n == 8 {
        '8'
    } else if n == 9 {
        '9'
    } else if n == 10 {
        'a'
    } else if n == 11 {
        'b'
    } else if n == 12 {
        'c'
    } else if n == 13 {
        'd'
    } else if n == 14 {
        'e'
    } else {
        'f'
    }
}

/// Append the decimal digits of `n` to `out`.
fn append_decimal(out: &mut String, n: u32)
    ensures
        final(out)@ == old(out)@ + dec_digits(n as int),
    decreases n,
{
    if n <= 9 {
        out.push(hex_char(n));
        proof {
            assert(old(out)@ + dec_digits(n as int) =~= old(out)@.push(hex_digit(n as int)));
        }
    } else {
        append_decimal(out, n / 10);
        out.push(hex_char(n % 10));
        proof {
            assert(old(out)@ + dec_digits(n as int) =~= (old(out)@ + dec_digits(
                n as int / 10,
            )).push(hex_digit(n as int % 10)));
        }
    }
}

/// The JSON object text for one image record.
pub open spec fn json_of_image(m: ImageMetaModel) -> Seq<char> {
    "{\"id\":\""@ + json_escape(m.id) + "\",\"data\":\""@ + json_escape(m.data)
        + "\",\"width\":"@ + dec_digits(m.width as int) + ",\"height\":"@ + dec_digits(
        m.height as int,
    ) + "}"@
}

/// The key/value entry text for one image record inside the inner object.
pub open spec fn json_of_entry(m: ImageMetaModel) -> Seq<char> {
    seq!['"'] + json_escape(m.id) + "\":"@ + json_of_image(m)
}

/// The comma-separated entries of the inner object.
pub open spec fn json_of_entries(ms: Seq<ImageMetaModel>) -> Seq<char>
    decreases ms.len(),
{
    if ms.len() == 0 {
        Seq::empty()
    } else if ms.len() == 1 {
        json_of_entry(ms[0])
    } else {
        json_of_entries(ms.drop_last()) + seq![','] + json_of_entry(ms.last())
    }
}

/// The whole sidecar record for a metadata mapping.
pub open spec fn json_of_metadata(ms: Seq<ImageMetaModel>) -> Seq<char> {
    "{\"images\":{"@ + json_of_entries(ms) + "}}"@
}

/// Append the entry text for one image record to `out`.
fn append_entry(out: &mut String, m: &ImageMetadata)
    ensures
        final(out)@ == old(out)@ + json_of_entry(m@),
{
    out.push('"');
    append_escaped(out, m.id.as_str());
    out.append("\":");
    out.append("{\"id\":\"");
    append_escaped(out, m.id.as_str());
    out.append("\",\"data\":\"");
    append_escaped(out, m.data.as_str());
    out.append("\",\"width\":");
    append_decimal(out, m.width);
    out.append(",\"height\":");
    append_decimal(out, m.height);
    out.append("}");
    proof {
        assert(out@ =~= old(out)@ + json_of_entry(m@));
    }
}

/// Serialize the metadata mapping to its JSON sidecar text: an object with
/// a single `"images"` member mapping each identifier to its record, in the
/// mapping's storage order.
pub fn metadata_to_json(meta: &DocumentMetadata) -> (r: String)
    ensures
        r@ == json_of_metadata(meta.images.deep_view()),
{
    let ghost ms = meta.images.deep_view();
    let mut out = String::new();
    out.append("{\"images\":{");
    let n = meta.images.len();
    let mut i: usize = 0;
    proof {
        assert(out@ =~= "{\"images\":{"@ + json_of_entries(ms.take(0)));
    }
    while i < n
        invariant
            i <= n,
            n == meta.images@.len(),
            ms == meta.images.deep_view(),
            out@ == "{\"images\":{"@ + json_of_entries(ms.take(i as int)),
        decreases n - i,
    {
        if i > 0 {
            out.push(',');
        }
        append_entry(&mut out, &meta.images[i]);
        proof {
            assert(ms.take(i as int + 1).drop_last() =~= ms.take(i as int));
            assert(ms.take(i as int + 1).last() == ms[i as int]);
            if i == 0 {
                assert(json_of_entries(ms.take(1)) == json_of_entry(ms[0]));
                assert(out@ =~= "{\"images\":{"@ + json_of_entries(ms.take(1)));
            } else {
                assert(json_of_entries(ms.take(i as int + 1)) == json_of_entries(ms.take(i as int))
                    + seq![','] + json_of_entry(ms[i as int]));
                assert(out@ =~= "{\"images\":{"@ + json_of_entries(ms.take(i as int + 1)));
            }
        }
        i = i + 1;
    }
    proof {
        assert(ms.take(n as int) =~= ms);
    }
    out.append("}}");
    proof {
        assert(out@ =~= json_of_metadata(ms));
    }
    out
}

} // verus!
