//! Plain data exchanged with the window shell.
//!
//! The shell renders menus and a status line; the library supplies the
//! figures and receives the chosen actions as plain flags.

use vstd::prelude::*;

use crate::document::{DocumentLine, LineModel};

verus! {

/// The actions a menu pass can request, one flag each.
#[derive(Clone, Copy, Debug)]
pub struct MenuActions {
    pub new_file: bool,
    pub open_file: bool,
    pub save_file: bool,
    pub save_as: bool,
    pub exit: bool,
    pub paste_image: bool,
    pub insert_sample_image: bool,
}

impl Default for MenuActions {
    /// No action requested.
    fn default() -> (r: Self)
        ensures
            !r.new_file,
            !r.open_file,
            !r.save_file,
            !r.save_as,
            !r.exit,
            !r.paste_image,
            !r.insert_sample_image,
    {
        MenuActions {
            new_file: false,
            open_file: false,
            save_file: false,
            save_as: false,
            exit: false,
            paste_image: false,
            insert_sample_image: false,
        }
    }
}

/// What one line contributes to the character count: its character count
/// for a text line, one for an image line.
pub open spec fn line_stat(m: LineModel) -> int {
    match m {
        LineModel::Text(t) => t.len() as int,
        LineModel::Image { .. } => 1,
    }
}

/// The total character count of a document: text characters plus one per
/// embedded image.
pub open spec fn doc_stats(doc: Seq<LineModel>) -> int
    decreases doc.len(),
{
    if doc.len() == 0 {
        0
    } else {
        doc_stats(doc.drop_last()) + line_stat(doc.last())
    }
}

/// A character count is never negative.
proof fn lemma_doc_stats_nonneg(doc: Seq<LineModel>)
    ensures
        doc_stats(doc) >= 0,
    decreases doc.len(),
{
    if doc.len() > 0 {
        lemma_doc_stats_nonneg(doc.drop_last());
    }
}

/// A prefix counts no more characters than the whole document.
proof fn lemma_doc_stats_prefix(doc: Seq<LineModel>, k: int)
    requires
        0 <= k <= doc.len(),
    ensures
        doc_stats(doc.take(k)) <= doc_stats(doc),
    decreases doc.len() - k,
{
    if k == doc.len() {
        assert(doc.take(k) =~= doc);
    } else {
        assert(doc.take(k + 1).drop_last() =~= doc.take(k));
        assert(doc.take(k + 1).last() == doc[k]);
        lemma_doc_stats_prefix(doc, k + 1);
    }
}

/// The figures shown in the status line.
pub struct StatusBar;

impl StatusBar {
    /// Line count and character count of the document. The character count
    /// sums each line's character count and counts each embedded image as
    /// one character.
    pub fn get_stats(lines: &Vec<DocumentLine>) -> (r: (usize, usize))
        requires
            doc_stats(lines.deep_view()) <= usize::MAX,
        ensures
            r.0 == lines@.len(),
            r.1 == doc_stats(lines.deep_view()),
    {
        let ghost doc = lines.deep_view();
        let n = lines.len();
        let mut count: usize = 0;
        let mut i: usize = 0;
        proof {
            assert(doc.take(0) =~= Seq::<LineModel>::empty());
        }
        while i < n
            invariant
                i <= n,
                n == lines@.len(),
                doc == lines.deep_view(),
                doc_stats(doc) <= usize::MAX,
                count == doc_stats(doc.take(i as int)),
            decreases n - i,
        {
            proof {
                assert(doc.take(i as int + 1).drop_last() =~= doc.take(i as int));
                assert(doc.take(i as int + 1).last() == doc[i as int]);
                lemma_doc_stats_prefix(doc, i as int + 1);
                lemma_doc_stats_nonneg(doc.take(i as int));
            }
            match &lines[i].element {
                crate::document::LineElement::Text(t) => {
                    let len = t.as_str().unicode_len();
                    count = count + len;
                },
                crate::document::LineElement::Image { .. } => {
                    count = count + 1;
                },
            }
            i = i + 1;
        }
        proof {
            assert(doc.take(n as int) =~= doc);
        }
        (n, count)
    }
}

} // verus!
