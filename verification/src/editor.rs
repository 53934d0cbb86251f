//! The text mutation engine and selection manager.
//!
//! [`EditorCore`] tracks the cursor and the optional selection anchors in
//! character coordinates, and applies single logical edits to the document
//! (a vector of [`DocumentLine`]), keeping the cursor consistent after each
//! mutation. Every operation's effect on the document is stated through the
//! spec transition functions below, so that laws about sequences of edits
//! can be proved from the contracts alone.

use vstd::prelude::*;

use crate::document::{DocumentLine, LineElement, LineModel, empty_line_model, model_text};
use crate::strings::{insert_chars, remove_char, string_remove, substring_copy};

verus! {

/// Cursor position and selection anchors of an editing session.
///
/// The cursor may rest one position past the last stored line (the phantom
/// trailing line): inserting there first materializes a fresh empty line.
#[derive(Clone, Debug)]
pub struct EditorCore {
    pub cursor_line: usize,
    pub cursor_col: usize,
    pub selection_start: Option<(usize, usize)>,
    pub selection_end: Option<(usize, usize)>,
}

/// The text of line `li` of the document model; the empty sequence for an
/// image line and for the phantom line one past the end.
pub open spec fn text_at(doc: Seq<LineModel>, li: int) -> Seq<char> {
    if 0 <= li < doc.len() {
        model_text(doc[li])
    } else {
        Seq::empty()
    }
}

/// A cursor coordinate pair addresses a position that exists: the line index
/// is at most the line count (the phantom trailing line included), and the
/// column is at most the character count of the addressed line.
pub open spec fn pos_wf(doc: Seq<LineModel>, line: int, col: int) -> bool {
    &&& 0 <= line <= doc.len()
    &&& 0 <= col <= text_at(doc, line).len()
}

/// A selection anchor addresses a stored line (not the phantom line).
pub open spec fn anchor_wf(doc: Seq<LineModel>, a: Option<(usize, usize)>) -> bool {
    a matches Some(p) ==> p.0 < doc.len() && p.1 <= text_at(doc, p.0 as int).len()
}

impl EditorCore {
    /// The cursor addresses a valid position of `doc`.
    pub open spec fn cursor_wf(self, doc: Seq<LineModel>) -> bool {
        pos_wf(doc, self.cursor_line as int, self.cursor_col as int)
    }

    /// Cursor and both selection anchors address valid positions of `doc`.
    pub open spec fn wf(self, doc: Seq<LineModel>) -> bool {
        &&& self.cursor_wf(doc)
        &&& anchor_wf(doc, self.selection_start)
        &&& anchor_wf(doc, self.selection_end)
    }

    /// Both anchors are present and differ.
    pub open spec fn spec_has_selection(self) -> bool {
        &&& self.selection_start is Some
        &&& self.selection_end is Some
        &&& self.selection_start != self.selection_end
    }
}

/// The outcome of one editing step: the document model, the cursor
/// position, and whether the document was modified.
#[verifier::ext_equal]
pub struct EditOutcome {
    pub doc: Seq<LineModel>,
    pub line: int,
    pub col: int,
    pub modified: bool,
}

/// `doc` with the phantom trailing line materialized when the cursor rests
/// there.
pub open spec fn with_line_at(doc: Seq<LineModel>, li: int) -> Seq<LineModel> {
    if li == doc.len() {
        doc.push(empty_line_model())
    } else {
        doc
    }
}

/// Effect of inserting character `c` at `(li, col)`: the character joins the
/// line's text run and the cursor advances one column. An image line does
/// not accept text, so the step leaves the document unchanged there.
pub open spec fn step_insert_char(doc: Seq<LineModel>, li: int, col: int, c: char) -> EditOutcome {
    let base = with_line_at(doc, li);
    match base[li] {
        LineModel::Text(t) => EditOutcome {
            doc: base.update(li, LineModel::Text(insert_chars(t, col, seq![c]))),
            line: li,
            col: col + 1,
            modified: true,
        },
        LineModel::Image { .. } => EditOutcome { doc: base, line: li, col: col, modified: false },
    }
}

/// Effect of a newline at `(li, col)`: the line's text is split at the
/// cursor, the part from the cursor onward moves to a fresh line inserted
/// immediately after, and the cursor moves to the start of that line. On an
/// image line only the fresh empty line is inserted.
pub open spec fn step_enter(doc: Seq<LineModel>, li: int, col: int) -> EditOutcome {
    let base = with_line_at(doc, li);
    match base[li] {
        LineModel::Text(t) => EditOutcome {
            doc: base.update(li, LineModel::Text(t.take(col))).insert(
                li + 1,
                LineModel::Text(t.skip(col)),
            ),
            line: li + 1,
            col: 0,
            modified: true,
        },
        LineModel::Image { .. } => EditOutcome {
            doc: base.insert(li + 1, empty_line_model()),
            line: li + 1,
            col: 0,
            modified: true,
        },
    }
}

/// Effect of a backspace at `(li, col)`: within a line it removes the
/// character before the cursor; at the start of a stored line it removes
/// that line and appends its text to the previous line, placing the cursor
/// at the join point. At the start of the phantom trailing line the cursor
/// merely moves to the end of the last stored line; at the start of the
/// document nothing happens.
pub open spec fn step_backspace(doc: Seq<LineModel>, li: int, col: int) -> EditOutcome {
    if col > 0 {
        match doc[li] {
            LineModel::Text(t) => EditOutcome {
                doc: doc.update(li, LineModel::Text(remove_char(t, col - 1))),
                line: li,
                col: col - 1,
                modified: true,
            },
            LineModel::Image { .. } => EditOutcome {
                doc: doc,
                line: li,
                col: col,
                modified: false,
            },
        }
    } else if li > 0 && li < doc.len() {
        let merged = doc.remove(li);
        match merged[li - 1] {
            LineModel::Text(p) => EditOutcome {
                doc: merged.update(li - 1, LineModel::Text(p + model_text(doc[li]))),
                line: li - 1,
                col: p.len() as int,
                modified: true,
            },
            LineModel::Image { .. } => EditOutcome {
                doc: merged,
                line: li - 1,
                col: 0,
                modified: true,
            },
        }
    } else if li > 0 {
        EditOutcome {
            doc: doc,
            line: li - 1,
            col: text_at(doc, li - 1).len() as int,
            modified: false,
        }
    } else {
        EditOutcome { doc: doc, line: li, col: col, modified: false }
    }
}

/// Effect of a forward delete at `(li, col)`: within a line's text it
/// removes the character at the cursor; at the end of a stored text line it
/// merges the next line's text onto this line and removes that next line.
/// Elsewhere nothing happens.
pub open spec fn step_delete(doc: Seq<LineModel>, li: int, col: int) -> EditOutcome {
    if 0 <= li < doc.len() && doc[li] is Text {
        let t = doc[li]->Text_0;
        if col < t.len() {
            EditOutcome {
                doc: doc.update(li, LineModel::Text(remove_char(t, col))),
                line: li,
                col: col,
                modified: true,
            }
        } else if li < doc.len() - 1 {
            EditOutcome {
                doc: doc.update(li, LineModel::Text(t + model_text(doc[li + 1]))).remove(li + 1),
                line: li,
                col: col,
                modified: true,
            }
        } else {
            EditOutcome { doc: doc, line: li, col: col, modified: false }
        }
    } else {
        EditOutcome { doc: doc, line: li, col: col, modified: false }
    }
}

/// Where the cursor lands moving one position left from `(li, col)`.
pub open spec fn left_pos(doc: Seq<LineModel>, li: int, col: int) -> (int, int) {
    if col > 0 {
        (li, col - 1)
    } else if li > 0 {
        (li - 1, text_at(doc, li - 1).len() as int)
    } else {
        (li, col)
    }
}

/// Where the cursor lands moving one position right from `(li, col)`.
pub open spec fn right_pos(doc: Seq<LineModel>, li: int, col: int) -> (int, int) {
    if col < text_at(doc, li).len() {
        (li, col + 1)
    } else if li < doc.len() - 1 {
        (li + 1, 0)
    } else {
        (li, col)
    }
}

/// Where the cursor lands moving one line up from `(li, col)`.
pub open spec fn up_pos(doc: Seq<LineModel>, li: int, col: int) -> (int, int) {
    if li > 0 {
        (li - 1, vstd::math::min(col, text_at(doc, li - 1).len() as int))
    } else {
        (li, col)
    }
}

/// Where the cursor lands moving one line down from `(li, col)`.
pub open spec fn down_pos(doc: Seq<LineModel>, li: int, col: int) -> (int, int) {
    if li < doc.len() - 1 {
        (li + 1, vstd::math::min(col, text_at(doc, li + 1).len() as int))
    } else {
        (li, col)
    }
}

/// `(a_line, a_col)` textually precedes `(b_line, b_col)`: line order first,
/// column order second.
pub open spec fn sel_before(a: (usize, usize), b: (usize, usize)) -> bool {
    a.0 < b.0 || (a.0 == b.0 && a.1 < b.1)
}

/// Effect of deleting the selected range from `(sl, sc)` to `(el, ec)`
/// (already normalized so the first pair textually precedes the second).
/// Within one text line the column range `[sc, ec)` is removed. Across
/// lines, the whole lines strictly between are removed, the start line keeps
/// its text before `sc` followed by the end line's text from `ec` onward,
/// and the end line is removed. An image line's content is never edited. The
/// cursor moves to the start of the deleted range.
pub open spec fn step_delete_selection(
    doc: Seq<LineModel>,
    sl: int,
    sc: int,
    el: int,
    ec: int,
) -> EditOutcome {
    if sl == el {
        match doc[sl] {
            LineModel::Text(t) => EditOutcome {
                doc: doc.update(sl, LineModel::Text(t.take(sc) + t.skip(ec))),
                line: sl,
                col: sc,
                modified: true,
            },
            LineModel::Image { .. } => EditOutcome { doc: doc, line: sl, col: sc, modified: true },
        }
    } else {
        let mid = doc.take(sl + 1) + doc.skip(el);
        let rem_end = if doc[el] is Text {
            doc[el]->Text_0.skip(ec)
        } else {
            Seq::empty()
        };
        match doc[sl] {
            LineModel::Text(st) => EditOutcome {
                doc: mid.update(sl, LineModel::Text(st.take(sc) + rem_end)).remove(sl + 1),
                line: sl,
                col: sc,
                modified: true,
            },
            LineModel::Image { .. } => EditOutcome {
                doc: mid.remove(sl + 1),
                line: sl,
                col: sc,
                modified: true,
            },
        }
    }
}

/// The state after the selection (if active) has been deleted: the outcome
/// of [`step_delete_selection`] on the normalized anchors, or the unchanged
/// state when no selection is active.
pub open spec fn sel_delete_outcome(o: EditorCore, doc: Seq<LineModel>) -> EditOutcome {
    if o.spec_has_selection() {
        let s = o.selection_start->Some_0;
        let e = o.selection_end->Some_0;
        let first = if sel_before(s, e) { s } else { e };
        let second = if sel_before(s, e) { e } else { s };
        step_delete_selection(doc, first.0 as int, first.1 as int, second.0 as int, second.1 as int)
    } else {
        EditOutcome { doc: doc, line: o.cursor_line as int, col: o.cursor_col as int, modified: false }
    }
}

/// A control character per Unicode's `Cc` category; typed text skips these.
pub open spec fn is_control_char(c: char) -> bool {
    (c as u32) < 0x20 || (0x7f <= c as u32 && c as u32 <= 0x9f)
}

/// Whether any character of `cs` is printable (not a control character).
pub open spec fn has_printable(cs: Seq<char>) -> bool {
    exists|i: int| 0 <= i < cs.len() && !is_control_char(cs[i])
}

/// Whether `c` is a control character.
pub fn is_control(c: char) -> (r: bool)
    ensures
        r == is_control_char(c),
{
    let u = c as u32;
    u < 0x20 || (0x7f <= u && u <= 0x9f)
}

/// Effect of typing the characters of `cs` in order at `(li, col)`: each
/// printable character is inserted as by [`step_insert_char`]; control
/// characters are skipped.
pub open spec fn step_type_text(
    doc: Seq<LineModel>,
    li: int,
    col: int,
    cs: Seq<char>,
) -> EditOutcome
    decreases cs.len(),
{
    if cs.len() == 0 {
        EditOutcome { doc: doc, line: li, col: col, modified: false }
    } else if is_control_char(cs[0]) {
        step_type_text(doc, li, col, cs.skip(1))
    } else {
        let st = step_insert_char(doc, li, col, cs[0]);
        let rest = step_type_text(st.doc, st.line, st.col, cs.skip(1));
        EditOutcome {
            doc: rest.doc,
            line: rest.line,
            col: rest.col,
            modified: st.modified || rest.modified,
        }
    }
}

/// Typing `cs` and then one more character `x` is the same as typing
/// `cs.push(x)`.
pub proof fn lemma_step_type_text_push(
    doc: Seq<LineModel>,
    li: int,
    col: int,
    cs: Seq<char>,
    x: char,
)
    ensures
        step_type_text(doc, li, col, cs.push(x)) == ({
            let st = step_type_text(doc, li, col, cs);
            if is_control_char(x) {
                st
            } else {
                let s2 = step_insert_char(st.doc, st.line, st.col, x);
                EditOutcome {
                    doc: s2.doc,
                    line: s2.line,
                    col: s2.col,
                    modified: st.modified || s2.modified,
                }
            }
        }),
    decreases cs.len(),
{
    let goal = ({
        let st = step_type_text(doc, li, col, cs);
        if is_control_char(x) {
            st
        } else {
            let s2 = step_insert_char(st.doc, st.line, st.col, x);
            EditOutcome {
                doc: s2.doc,
                line: s2.line,
                col: s2.col,
                modified: st.modified || s2.modified,
            }
        }
    });
    if cs.len() == 0 {
        assert(cs.push(x)[0] == x);
        assert(cs.push(x).skip(1) =~= Seq::<char>::empty());
        reveal_with_fuel(step_type_text, 3);
        assert(step_type_text(doc, li, col, cs.push(x)) =~= goal);
    } else {
        assert(cs.push(x)[0] == cs[0]);
        assert(cs.push(x).skip(1) =~= cs.skip(1).push(x));
        if is_control_char(cs[0]) {
            lemma_step_type_text_push(doc, li, col, cs.skip(1), x);
            assert(step_type_text(doc, li, col, cs.push(x)) =~= goal);
        } else {
            let st0 = step_insert_char(doc, li, col, cs[0]);
            lemma_step_type_text_push(st0.doc, st0.line, st0.col, cs.skip(1), x);
            assert(step_type_text(doc, li, col, cs.push(x)) =~= goal);
        }
    }
}

/// Appending a character to a sequence adds a printable character exactly
/// when the character itself is printable.
pub proof fn lemma_has_printable_push(cs: Seq<char>, x: char)
    ensures
        has_printable(cs.push(x)) == (has_printable(cs) || !is_control_char(x)),
{
    if !is_control_char(x) {
        assert(cs.push(x)[cs.len() as int] == x);
        assert(has_printable(cs.push(x)));
    }
    if has_printable(cs) {
        let j = choose|j: int| 0 <= j < cs.len() && !is_control_char(cs[j]);
        assert(cs.push(x)[j] == cs[j]);
        assert(has_printable(cs.push(x)));
    }
    if has_printable(cs.push(x)) && is_control_char(x) {
        let j = choose|j: int|
            0 <= j < cs.push(x).len() && !is_control_char(cs.push(x)[j]);
        assert(j < cs.len());
        assert(cs[j] == cs.push(x)[j]);
        assert(has_printable(cs));
    }
}

/// One keyboard or paste event, as the editing session understands it.
#[derive(Clone, Debug)]
pub enum InputEvent {
    /// Typed or pasted text; control characters in it are ignored.
    Text(String),
    Enter,
    Backspace,
    Delete,
    ArrowLeft { shift: bool },
    ArrowRight { shift: bool },
    ArrowUp { shift: bool },
    ArrowDown { shift: bool },
    SelectAll,
}

impl Default for EditorCore {
    /// A fresh editing session: cursor at the origin, no selection.
    fn default() -> (r: Self)
        ensures
            r.cursor_line == 0,
            r.cursor_col == 0,
            r.selection_start is None,
            r.selection_end is None,
    {
        EditorCore {
            cursor_line: 0,
            cursor_col: 0,
            selection_start: None,
            selection_end: None,
        }
    }
}

impl EditorCore {
    /// A fresh editing session: cursor at the origin, no selection.
    pub fn new() -> (r: Self)
        ensures
            r.cursor_line == 0,
            r.cursor_col == 0,
            r.selection_start is None,
            r.selection_end is None,
    {
        EditorCore {
            cursor_line: 0,
            cursor_col: 0,
            selection_start: None,
            selection_end: None,
        }
    }

    /// Return cursor and selection to the initial state.
    pub fn reset(&mut self)
        ensures
            final(self).cursor_line == 0,
            final(self).cursor_col == 0,
            final(self).selection_start is None,
            final(self).selection_end is None,
    {
        self.cursor_line = 0;
        self.cursor_col = 0;
        self.selection_start = None;
        self.selection_end = None;
    }

    /// Drop both selection anchors.
    pub fn clear_selection(&mut self)
        ensures
            final(self).selection_start is None,
            final(self).selection_end is None,
            final(self).cursor_line == old(self).cursor_line,
            final(self).cursor_col == old(self).cursor_col,
    {
        self.selection_start = None;
        self.selection_end = None;
    }

    /// Anchor both ends of the selection at the cursor.
    pub fn start_selection(&mut self)
        ensures
            final(self).selection_start == Some((old(self).cursor_line, old(self).cursor_col)),
            final(self).selection_end == Some((old(self).cursor_line, old(self).cursor_col)),
            final(self).cursor_line == old(self).cursor_line,
            final(self).cursor_col == old(self).cursor_col,
    {
        self.selection_start = Some((self.cursor_line, self.cursor_col));
        self.selection_end = Some((self.cursor_line, self.cursor_col));
    }

    /// Move the end anchor to the cursor, if a selection was started.
    pub fn update_selection(&mut self)
        ensures
            final(self).selection_start == old(self).selection_start,
            old(self).selection_start is Some ==> final(self).selection_end == Some(
                (old(self).cursor_line, old(self).cursor_col),
            ),
            old(self).selection_start is None ==> final(self).selection_end == old(
                self,
            ).selection_end,
            final(self).cursor_line == old(self).cursor_line,
            final(self).cursor_col == old(self).cursor_col,
    {
        if self.selection_start.is_some() {
            self.selection_end = Some((self.cursor_line, self.cursor_col));
        }
    }

    /// Insert character `c` at the cursor. The cursor's column advances past
    /// the inserted character, and any selection anchors are dropped. An
    /// image line does not accept text; the document is then unchanged and
    /// the result reports that nothing was modified.
    pub fn insert_char(&mut self, c: char, lines: &mut Vec<DocumentLine>) -> (r: bool)
        requires
            old(self).cursor_wf(old(lines).deep_view()),
        ensures
            ({
                let st = step_insert_char(
                    old(lines).deep_view(),
                    old(self).cursor_line as int,
                    old(self).cursor_col as int,
                    c,
                );
                &&& final(lines).deep_view() =~= st.doc
                &&& final(self).cursor_line == st.line
                &&& final(self).cursor_col == st.col
                &&& r == st.modified
            }),
            final(self).selection_start is None,
            final(self).selection_end is None,
            final(self).cursor_wf(final(lines).deep_view()),
    {
        let ghost doc0 = lines.deep_view();
        let ghost li0 = self.cursor_line as int;
        let ghost st = step_insert_char(doc0, li0, self.cursor_col as int, c);
        if self.cursor_line == lines.len() {
            lines.push(DocumentLine::new());
        }
        proof {
            assert(lines.deep_view() =~= with_line_at(doc0, li0));
        }
        let li = self.cursor_line;
        let col = self.cursor_col;
        let old_line = lines.remove(li);
        let modified: bool;
        match old_line.element {
            LineElement::Text(t) => {
                let n = t.as_str().unicode_len();
                let mut nt = substring_copy(t.as_str(), 0, col);
                nt.push(c);
                nt.append(t.as_str().substring_char(col, n));
                proof {
                    assert(nt@ =~= insert_chars(t@, col as int, seq![c]));
                }
                let m = nt.as_str().unicode_len();
                proof {
                    assert(col < m);
                }
                lines.insert(li, DocumentLine { element: LineElement::Text(nt) });
                self.cursor_col = col + 1;
                modified = true;
                proof {
                    assert(lines.deep_view() =~= st.doc);
                }
            },
            LineElement::Image { id, width, height } => {
                lines.insert(li, DocumentLine { element: LineElement::Image { id, width, height } });
                modified = false;
                proof {
                    assert(lines.deep_view() =~= st.doc);
                }
            },
        }
        self.selection_start = None;
        self.selection_end = None;
        modified
    }

    /// Split the line at the cursor: the text from the cursor onward moves
    /// to a fresh line inserted immediately below, and the cursor moves to
    /// the start of that line. On an image line only the fresh empty line is
    /// inserted.
    pub fn handle_enter(&mut self, lines: &mut Vec<DocumentLine>) -> (r: bool)
        requires
            old(self).cursor_wf(old(lines).deep_view()),
        ensures
            ({
                let st = step_enter(
                    old(lines).deep_view(),
                    old(self).cursor_line as int,
                    old(self).cursor_col as int,
                );
                &&& final(lines).deep_view() =~= st.doc
                &&& final(self).cursor_line == st.line
                &&& final(self).cursor_col == st.col
                &&& r == st.modified
            }),
            final(self).selection_start == old(self).selection_start,
            final(self).selection_end == old(self).selection_end,
            final(self).cursor_wf(final(lines).deep_view()),
    {
        let ghost doc0 = lines.deep_view();
        let ghost li0 = self.cursor_line as int;
        let ghost st = step_enter(doc0, li0, self.cursor_col as int);
        if self.cursor_line == lines.len() {
            lines.push(DocumentLine::new());
        }
        proof {
            assert(lines.deep_view() =~= with_line_at(doc0, li0));
        }
        let li = self.cursor_line;
        let col = self.cursor_col;
        let old_line = lines.remove(li);
        match old_line.element {
            LineElement::Text(t) => {
                let n = t.as_str().unicode_len();
                let kept = substring_copy(t.as_str(), 0, col);
                let moved = substring_copy(t.as_str(), col, n);
                lines.insert(li, DocumentLine { element: LineElement::Text(moved) });
                lines.insert(li, DocumentLine { element: LineElement::Text(kept) });
                proof {
                    assert(lines.deep_view() =~= st.doc);
                }
            },
            LineElement::Image { id, width, height } => {
                lines.insert(li, DocumentLine::new());
                lines.insert(li, DocumentLine { element: LineElement::Image { id, width, height } });
                proof {
                    assert(lines.deep_view() =~= st.doc);
                }
            },
        }
        let total = lines.len();
        proof {
            assert(li + 2 <= total);
        }
        self.cursor_line = li + 1;
        self.cursor_col = 0;
        true
    }

    /// Remove the character before the cursor, or at the start of a stored
    /// line merge it into the previous line. At the very start of the
    /// document this is a no-op; at the start of the phantom trailing line
    /// the cursor moves to the end of the last stored line without touching
    /// the document.
    pub fn handle_backspace(&mut self, lines: &mut Vec<DocumentLine>) -> (r: bool)
        requires
            old(self).cursor_wf(old(lines).deep_view()),
        ensures
            ({
                let st = step_backspace(
                    old(lines).deep_view(),
                    old(self).cursor_line as int,
                    old(self).cursor_col as int,
                );
                &&& final(lines).deep_view() =~= st.doc
                &&& final(self).cursor_line == st.line
                &&& final(self).cursor_col == st.col
                &&& r == st.modified
            }),
            final(self).selection_start == old(self).selection_start,
            final(self).selection_end == old(self).selection_end,
            final(self).cursor_wf(final(lines).deep_view()),
    {
        let ghost doc0 = lines.deep_view();
        let ghost st = step_backspace(doc0, self.cursor_line as int, self.cursor_col as int);
        let li = self.cursor_line;
        let col = self.cursor_col;
        if col > 0 {
            proof {
                assert(li < doc0.len() && doc0[li as int] is Text);
            }
            let old_line = lines.remove(li);
            match old_line.element {
                LineElement::Text(t) => {
                    let nt = string_remove(t.as_str(), col - 1);
                    lines.insert(li, DocumentLine { element: LineElement::Text(nt) });
                    self.cursor_col = col - 1;
                    proof {
                        assert(lines.deep_view() =~= st.doc);
                    }
                    true
                },
                LineElement::Image { id, width, height } => {
                    lines.insert(
                        li,
                        DocumentLine { element: LineElement::Image { id, width, height } },
                    );
                    proof {
                        assert(lines.deep_view() =~= st.doc);
                    }
                    false
                },
            }
        } else if li > 0 && li < lines.len() {
            let removed = lines.remove(li);
            let prev = lines.remove(li - 1);
            match prev.element {
                LineElement::Text(p) => {
                    let plen = p.as_str().unicode_len();
                    let mut np = p;
                    let tail = removed.text_content();
                    np.append(tail.as_str());
                    lines.insert(li - 1, DocumentLine { element: LineElement::Text(np) });
                    self.cursor_line = li - 1;
                    self.cursor_col = plen;
                    proof {
                        assert(lines.deep_view() =~= st.doc);
                    }
                },
                LineElement::Image { id, width, height } => {
                    lines.insert(
                        li - 1,
                        DocumentLine { element: LineElement::Image { id, width, height } },
                    );
                    self.cursor_line = li - 1;
                    self.cursor_col = 0;
                    proof {
                        assert(lines.deep_view() =~= st.doc);
                    }
                },
            }
            true
        } else if li > 0 {
            self.cursor_line = li - 1;
            let last = lines.len() - 1;
            proof {
                assert(li - 1 == lines@.len() - 1);
            }
            self.cursor_col = lines[last].text_content().as_str().unicode_len();
            false
        } else {
            false
        }
    }

    /// Remove the character at the cursor, or at the end of a stored text
    /// line merge the next line's text onto this line and remove that next
    /// line. Elsewhere this is a no-op.
    pub fn handle_delete(&mut self, lines: &mut Vec<DocumentLine>) -> (r: bool)
        requires
            old(self).cursor_wf(old(lines).deep_view()),
        ensures
            ({
                let st = step_delete(
                    old(lines).deep_view(),
                    old(self).cursor_line as int,
                    old(self).cursor_col as int,
                );
                &&& final(lines).deep_view() =~= st.doc
                &&& final(self).cursor_line == st.line
                &&& final(self).cursor_col == st.col
                &&& r == st.modified
            }),
            final(self).selection_start == old(self).selection_start,
            final(self).selection_end == old(self).selection_end,
            final(self).cursor_wf(final(lines).deep_view()),
    {
        let ghost doc0 = lines.deep_view();
        let ghost st = step_delete(doc0, self.cursor_line as int, self.cursor_col as int);
        let li = self.cursor_line;
        let col = self.cursor_col;
        if li >= lines.len() {
            return false;
        }
        let old_line = lines.remove(li);
        match old_line.element {
            LineElement::Text(t) => {
                let n = t.as_str().unicode_len();
                if col < n {
                    let nt = string_remove(t.as_str(), col);
                    lines.insert(li, DocumentLine { element: LineElement::Text(nt) });
                    proof {
                        assert(lines.deep_view() =~= st.doc);
                    }
                    true
                } else if li < lines.len() {
                    let next = lines.remove(li);
                    let mut nt = t;
                    let tail = next.text_content();
                    nt.append(tail.as_str());
                    lines.insert(li, DocumentLine { element: LineElement::Text(nt) });
                    proof {
                        assert(lines.deep_view() =~= st.doc);
                    }
                    true
                } else {
                    lines.insert(li, DocumentLine { element: LineElement::Text(t) });
                    proof {
                        assert(lines.deep_view() =~= st.doc);
                    }
                    false
                }
            },
            LineElement::Image { id, width, height } => {
                lines.insert(li, DocumentLine { element: LineElement::Image { id, width, height } });
                proof {
                    assert(lines.deep_view() =~= st.doc);
                }
                false
            },
        }
    }

    /// Move the cursor one position to the left: back one column, or to the
    /// end of the previous line when at a line start.
    pub fn move_cursor_left(&mut self, lines: &Vec<DocumentLine>)
        requires
            old(self).cursor_wf(lines.deep_view()),
        ensures
            ({
                let f = *final(self);
                (f.cursor_line as int, f.cursor_col as int) == left_pos(
                    lines.deep_view(),
                    old(self).cursor_line as int,
                    old(self).cursor_col as int,
                )
            }),
            final(self).cursor_wf(lines.deep_view()),
            final(self).selection_start == old(self).selection_start,
            final(self).selection_end == old(self).selection_end,
    {
        if self.cursor_col > 0 {
            self.cursor_col = self.cursor_col - 1;
        } else if self.cursor_line > 0 {
            self.cursor_line = self.cursor_line - 1;
            let t = lines[self.cursor_line].text_content();
            self.cursor_col = t.as_str().unicode_len();
        }
    }

    /// Move the cursor one position to the right: forward one column, or to
    /// the start of the next line when at a line end.
    pub fn move_cursor_right(&mut self, lines: &Vec<DocumentLine>)
        requires
            old(self).cursor_wf(lines.deep_view()),
            lines@.len() >= 1,
        ensures
            ({
                let f = *final(self);
                (f.cursor_line as int, f.cursor_col as int) == right_pos(
                    lines.deep_view(),
                    old(self).cursor_line as int,
                    old(self).cursor_col as int,
                )
            }),
            final(self).cursor_wf(lines.deep_view()),
            final(self).selection_start == old(self).selection_start,
            final(self).selection_end == old(self).selection_end,
    {
        let current_line_len: usize = if self.cursor_line < lines.len() {
            let t = lines[self.cursor_line].text_content();
            t.as_str().unicode_len()
        } else {
            0
        };
        if self.cursor_col < current_line_len {
            self.cursor_col = self.cursor_col + 1;
        } else if self.cursor_line < lines.len() - 1 {
            self.cursor_line = self.cursor_line + 1;
            self.cursor_col = 0;
        }
    }

    /// Move the cursor one line up, clamping the column to the new line's
    /// character count.
    pub fn move_cursor_up(&mut self, lines: &Vec<DocumentLine>)
        requires
            old(self).cursor_wf(lines.deep_view()),
        ensures
            ({
                let f = *final(self);
                (f.cursor_line as int, f.cursor_col as int) == up_pos(
                    lines.deep_view(),
                    old(self).cursor_line as int,
                    old(self).cursor_col as int,
                )
            }),
            final(self).cursor_wf(lines.deep_view()),
            final(self).selection_start == old(self).selection_start,
            final(self).selection_end == old(self).selection_end,
    {
        if self.cursor_line > 0 {
            self.cursor_line = self.cursor_line - 1;
            let t = lines[self.cursor_line].text_content();
            let n = t.as_str().unicode_len();
            if self.cursor_col > n {
                self.cursor_col = n;
            }
        }
    }

    /// Move the cursor one line down, clamping the column to the new line's
    /// character count.
    pub fn move_cursor_down(&mut self, lines: &Vec<DocumentLine>)
        requires
            old(self).cursor_wf(lines.deep_view()),
            lines@.len() >= 1,
        ensures
            ({
                let f = *final(self);
                (f.cursor_line as int, f.cursor_col as int) == down_pos(
                    lines.deep_view(),
                    old(self).cursor_line as int,
                    old(self).cursor_col as int,
                )
            }),
            final(self).cursor_wf(lines.deep_view()),
            final(self).selection_start == old(self).selection_start,
            final(self).selection_end == old(self).selection_end,
    {
        if self.cursor_line < lines.len() - 1 {
            self.cursor_line = self.cursor_line + 1;
            let t = lines[self.cursor_line].text_content();
            let n = t.as_str().unicode_len();
            if self.cursor_col > n {
                self.cursor_col = n;
            }
        }
    }

    /// Delete the selected range and clear the selection. Returns whether a
    /// deletion took place (false when no selection is active). Afterward no
    /// selection is ever active.
    #[verifier::rlimit(80)]
    #[verifier::spinoff_prover]
    pub fn delete_selection(&mut self, lines: &mut Vec<DocumentLine>) -> (r: bool)
        requires
            old(self).wf(old(lines).deep_view()),
        ensures
            ({
                let o = *old(self);
                let f = *final(self);
                let doc0 = old(lines).deep_view();
                &&& !o.spec_has_selection() ==> final(lines).deep_view() == doc0 && f == o && r
                    == false
                &&& o.spec_has_selection() ==> ({
                    let st = sel_delete_outcome(o, doc0);
                    &&& final(lines).deep_view() =~= st.doc
                    &&& f.cursor_line == st.line
                    &&& f.cursor_col == st.col
                    &&& r == st.modified
                    &&& f.selection_start is None
                    &&& f.selection_end is None
                })
            }),
            !final(self).spec_has_selection(),
            final(self).cursor_wf(final(lines).deep_view()),
    {
        let ghost doc0 = lines.deep_view();
        if !self.has_selection() {
            return false;
        }
        let s = self.selection_start.unwrap();
        let e = self.selection_end.unwrap();
        let first_is_s = s.0 < e.0 || (s.0 == e.0 && s.1 < e.1);
        let first: (usize, usize) = if first_is_s { s } else { e };
        let second: (usize, usize) = if first_is_s { e } else { s };
        let sl: usize = first.0;
        let sc: usize = first.1;
        let el: usize = second.0;
        let ec: usize = second.1;
        let ghost st = step_delete_selection(doc0, sl as int, sc as int, el as int, ec as int);
        if sl == el {
            let old_line = lines.remove(sl);
            match old_line.element {
                LineElement::Text(t) => {
                    let n = t.as_str().unicode_len();
                    let mut nt = substring_copy(t.as_str(), 0, sc);
                    nt.append(t.as_str().substring_char(ec, n));
                    lines.insert(sl, DocumentLine { element: LineElement::Text(nt) });
                    proof {
                        assert(lines.deep_view() =~= st.doc);
                    }
                },
                LineElement::Image { id, width, height } => {
                    lines.insert(
                        sl,
                        DocumentLine { element: LineElement::Image { id, width, height } },
                    );
                    proof {
                        assert(lines.deep_view() =~= st.doc);
                    }
                },
            }
        } else {
            let ghost mid = doc0.take(sl as int + 1) + doc0.skip(el as int);
            let mut k: usize = el - sl - 1;
            proof {
                assert(lines.deep_view() =~= doc0.take(sl as int + 1) + doc0.skip(
                    el as int - k as int,
                ));
            }
            while k > 0
                invariant
                    sl < el < doc0.len(),
                    k <= el - sl - 1,
                    lines@.len() == sl + 1 + doc0.len() - el + k,
                    lines.deep_view() =~= doc0.take(sl as int + 1) + doc0.skip(
                        el as int - k as int,
                    ),
                decreases k,
            {
                let ghost pre = lines.deep_view();
                lines.remove(sl + 1);
                k = k - 1;
                proof {
                    assert(lines.deep_view() =~= pre.remove(sl as int + 1));
                    assert(lines.deep_view() =~= doc0.take(sl as int + 1) + doc0.skip(
                        el as int - k as int,
                    ));
                }
            }
            proof {
                assert(lines.deep_view() =~= mid);
            }
            let end_line = lines.remove(sl + 1);
            proof {
                assert(end_line@ == mid[sl as int + 1]);
                assert(mid[sl as int + 1] == doc0[el as int]);
                assert(lines.deep_view() =~= mid.remove(sl as int + 1));
            }
            let rem_end: String = match end_line.element {
                LineElement::Text(et) => {
                    let n = et.as_str().unicode_len();
                    substring_copy(et.as_str(), ec, n)
                },
                LineElement::Image { .. } => String::new(),
            };
            let ghost pre2 = mid.remove(sl as int + 1);
            let start_line = lines.remove(sl);
            proof {
                assert(start_line@ == pre2[sl as int]);
                assert(pre2[sl as int] == doc0[sl as int]);
                assert(lines.deep_view() =~= pre2.remove(sl as int));
            }
            match start_line.element {
                LineElement::Text(stx) => {
                    let mut nt = substring_copy(stx.as_str(), 0, sc);
                    nt.append(rem_end.as_str());
                    lines.insert(sl, DocumentLine { element: LineElement::Text(nt) });
                    proof {
                        assert(lines.deep_view() =~= st.doc);
                    }
                },
                LineElement::Image { id, width, height } => {
                    lines.insert(
                        sl,
                        DocumentLine { element: LineElement::Image { id, width, height } },
                    );
                    proof {
                        assert(lines.deep_view() =~= st.doc);
                    }
                },
            }
        }
        self.cursor_line = sl;
        self.cursor_col = sc;
        self.selection_start = None;
        self.selection_end = None;
        true
    }

    /// Whether a selection is active: both anchors present and unequal.
    pub fn has_selection(&self) -> (r: bool)
        ensures
            r == self.spec_has_selection(),
    {
        match (&self.selection_start, &self.selection_end) {
            (Some(s), Some(e)) => s.0 != e.0 || s.1 != e.1,
            _ => false,
        }
    }

    /// Apply one input event to the session. Typed text, enter, backspace,
    /// and forward delete first replace an active selection; shift-modified
    /// arrows grow the selection while plain arrows clear it and move the
    /// cursor. Returns whether the document was modified.
    ///
    /// After any mutation event no selection anchors remain: a document
    /// edit invalidates stored anchors, so dropping them keeps every anchor
    /// addressing a position that still exists. The contract pins the whole
    /// outcome: the resulting document and cursor equal the spec
    /// transitions composed with the selection deletion, and the anchors
    /// afterwards are exactly as described per event.
    #[verifier::rlimit(100)]
    #[verifier::spinoff_prover]
    pub fn handle_event(&mut self, event: &InputEvent, lines: &mut Vec<DocumentLine>) -> (r: bool)
        requires
            old(self).wf(old(lines).deep_view()),
            old(self).cursor_line < old(lines)@.len(),
        ensures
            ({
                let o = *old(self);
                let f = *final(self);
                let doc0 = old(lines).deep_view();
                let doc1 = final(lines).deep_view();
                let sd = sel_delete_outcome(o, doc0);
                &&& (event matches InputEvent::Text(t) ==> ({
                    let st = step_type_text(sd.doc, sd.line, sd.col, t@);
                    &&& doc1 =~= st.doc
                    &&& f.cursor_line == st.line
                    &&& f.cursor_col == st.col
                    &&& r == (sd.modified || st.modified)
                    &&& (o.spec_has_selection() || has_printable(t@)) ==> f.selection_start
                        is None && f.selection_end is None
                    &&& !(o.spec_has_selection() || has_printable(t@)) ==> f.selection_start
                        == o.selection_start && f.selection_end == o.selection_end
                }))
                &&& (event is Enter ==> ({
                    let st = step_enter(sd.doc, sd.line, sd.col);
                    &&& doc1 =~= st.doc
                    &&& f.cursor_line == st.line
                    &&& f.cursor_col == st.col
                    &&& r == (sd.modified || st.modified)
                    &&& f.selection_start is None
                    &&& f.selection_end is None
                }))
                &&& (event is Backspace ==> ({
                    let st = if o.spec_has_selection() {
                        sd
                    } else {
                        step_backspace(doc0, o.cursor_line as int, o.cursor_col as int)
                    };
                    &&& doc1 =~= st.doc
                    &&& f.cursor_line == st.line
                    &&& f.cursor_col == st.col
                    &&& r == st.modified
                    &&& f.selection_start is None
                    &&& f.selection_end is None
                }))
                &&& (event is Delete ==> ({
                    let st = if o.spec_has_selection() {
                        sd
                    } else {
                        step_delete(doc0, o.cursor_line as int, o.cursor_col as int)
                    };
                    &&& doc1 =~= st.doc
                    &&& f.cursor_line == st.line
                    &&& f.cursor_col == st.col
                    &&& r == st.modified
                    &&& f.selection_start is None
                    &&& f.selection_end is None
                }))
                &&& (event matches InputEvent::ArrowLeft { shift } ==> arrow_post(
                    o,
                    f,
                    doc0,
                    doc1,
                    left_pos(doc0, o.cursor_line as int, o.cursor_col as int),
                    *shift,
                    r,
                ))
                &&& (event matches InputEvent::ArrowRight { shift } ==> arrow_post(
                    o,
                    f,
                    doc0,
                    doc1,
                    right_pos(doc0, o.cursor_line as int, o.cursor_col as int),
                    *shift,
                    r,
                ))
                &&& (event matches InputEvent::ArrowUp { shift } ==> arrow_post(
                    o,
                    f,
                    doc0,
                    doc1,
                    up_pos(doc0, o.cursor_line as int, o.cursor_col as int),
                    *shift,
                    r,
                ))
                &&& (event matches InputEvent::ArrowDown { shift } ==> arrow_post(
                    o,
                    f,
                    doc0,
                    doc1,
                    down_pos(doc0, o.cursor_line as int, o.cursor_col as int),
                    *shift,
                    r,
                ))
                &&& (event is SelectAll ==> ({
                    &&& doc1 == doc0
                    &&& f.cursor_line == o.cursor_line
                    &&& f.cursor_col == o.cursor_col
                    &&& r == false
                    &&& f.selection_start == Some((0usize, 0usize))
                    &&& f.selection_end matches Some(p) && p.0 == doc0.len() - 1 && p.1
                        == text_at(doc0, doc0.len() - 1).len()
                }))
            }),
            final(self).wf(final(lines).deep_view()),
            final(self).cursor_line < final(lines)@.len(),
    {
        match event {
            InputEvent::Text(t) => {
                let mut modified = false;
                if self.has_selection() {
                    if self.delete_selection(lines) {
                        modified = true;
                    }
                }
                let ghost base = lines.deep_view();
                let ghost l1 = self.cursor_line as int;
                let ghost c1 = self.cursor_col as int;
                let ghost sel_s = self.selection_start;
                let ghost sel_e = self.selection_end;
                let mut text_mod = false;
                let n = t.as_str().unicode_len();
                let mut i: usize = 0;
                while i < n
                    invariant
                        i <= n,
                        n == t@.len(),
                        self.cursor_wf(lines.deep_view()),
                        self.cursor_line < lines@.len(),
                        ({
                            let st = step_type_text(base, l1, c1, t@.take(i as int));
                            &&& lines.deep_view() =~= st.doc
                            &&& self.cursor_line == st.line
                            &&& self.cursor_col == st.col
                            &&& text_mod == st.modified
                        }),
                        has_printable(t@.take(i as int)) ==> self.selection_start is None
                            && self.selection_end is None,
                        !has_printable(t@.take(i as int)) ==> self.selection_start == sel_s
                            && self.selection_end == sel_e,
                        !has_printable(t@.take(i as int)) ==> lines.deep_view() == base
                            && self.cursor_line as int == l1 && self.cursor_col as int == c1,
                        anchor_wf(base, sel_s),
                        anchor_wf(base, sel_e),
                    decreases n - i,
                {
                    let c = t.as_str().get_char(i);
                    proof {
                        assert(t@.take(i as int + 1) =~= t@.take(i as int).push(c));
                        lemma_step_type_text_push(base, l1, c1, t@.take(i as int), c);
                        lemma_has_printable_push(t@.take(i as int), c);
                    }
                    if !is_control(c) {
                        if self.insert_char(c, lines) {
                            text_mod = true;
                        }
                    }
                    i = i + 1;
                }
                proof {
                    assert(t@.take(n as int) =~= t@);
                }
                if text_mod {
                    modified = true;
                }
                modified
            },
            InputEvent::Enter => {
                let mut modified = false;
                if self.has_selection() {
                    if self.delete_selection(lines) {
                        modified = true;
                    }
                }
                if self.handle_enter(lines) {
                    modified = true;
                }
                self.selection_start = None;
                self.selection_end = None;
                modified
            },
            InputEvent::Backspace => {
                let modified: bool = if self.has_selection() {
                    self.delete_selection(lines)
                } else {
                    self.handle_backspace(lines)
                };
                self.selection_start = None;
                self.selection_end = None;
                modified
            },
            InputEvent::Delete => {
                let modified: bool = if self.has_selection() {
                    self.delete_selection(lines)
                } else {
                    self.handle_delete(lines)
                };
                self.selection_start = None;
                self.selection_end = None;
                modified
            },
            InputEvent::ArrowLeft { shift } => {
                if *shift {
                    if self.selection_start.is_none() {
                        self.start_selection();
                    }
                } else {
                    self.clear_selection();
                }
                self.move_cursor_left(lines);
                if *shift {
                    self.update_selection();
                }
                false
            },
            InputEvent::ArrowRight { shift } => {
                if *shift {
                    if self.selection_start.is_none() {
                        self.start_selection();
                    }
                } else {
                    self.clear_selection();
                }
                self.move_cursor_right(lines);
                if *shift {
                    self.update_selection();
                }
                false
            },
            InputEvent::ArrowUp { shift } => {
                if *shift {
                    if self.selection_start.is_none() {
                        self.start_selection();
                    }
                } else {
                    self.clear_selection();
                }
                self.move_cursor_up(lines);
                if *shift {
                    self.update_selection();
                }
                false
            },
            InputEvent::ArrowDown { shift } => {
                if *shift {
                    if self.selection_start.is_none() {
                        self.start_selection();
                    }
                } else {
                    self.clear_selection();
                }
                self.move_cursor_down(lines);
                if *shift {
                    self.update_selection();
                }
                false
            },
            InputEvent::SelectAll => {
                self.selection_start = Some((0, 0));
                let len = lines.len();
                let t = lines[len - 1].text_content();
                self.selection_end = Some((len - 1, t.as_str().unicode_len()));
                false
            },
        }
    }
}

/// Law: inserting a single character at a valid position of a text line and
/// then backspacing at the advanced cursor restores the original document,
/// line text, and column — insertion and backspace are mutual inverses for
/// single characters.
pub proof fn lemma_insert_then_backspace(doc: Seq<LineModel>, li: int, col: int, c: char)
    requires
        0 <= li < doc.len(),
        doc[li] is Text,
        0 <= col <= text_at(doc, li).len(),
    ensures
        ({
            let st = step_insert_char(doc, li, col, c);
            let bk = step_backspace(st.doc, st.line, st.col);
            &&& bk.doc == doc
            &&& bk.line == li
            &&& bk.col == col
            &&& st.modified
            &&& bk.modified
        }),
{
    let t = doc[li]->Text_0;
    let st = step_insert_char(doc, li, col, c);
    let inserted = insert_chars(t, col, seq![c]);
    assert(st.doc[li] == LineModel::Text(inserted));
    assert(inserted.len() == t.len() + 1);
    let bk = step_backspace(st.doc, st.line, st.col);
    assert(remove_char(inserted, col) =~= t);
    assert(bk.doc =~= doc);
}

/// Law: splitting a line with a newline at a valid position and then
/// backspacing at the start of the freshly created line restores the
/// original document, and the cursor returns to the split point.
pub proof fn lemma_enter_then_backspace(doc: Seq<LineModel>, li: int, col: int)
    requires
        0 <= li < doc.len(),
        0 <= col <= text_at(doc, li).len(),
    ensures
        ({
            let st = step_enter(doc, li, col);
            let bk = step_backspace(st.doc, st.line, st.col);
            &&& bk.doc == doc
            &&& bk.line == li
            &&& bk.col == col
        }),
{
    let st = step_enter(doc, li, col);
    let bk = step_backspace(st.doc, st.line, st.col);
    match doc[li] {
        LineModel::Text(t) => {
            let split = doc.update(li, LineModel::Text(t.take(col))).insert(
                li + 1,
                LineModel::Text(t.skip(col)),
            );
            assert(st.doc == split);
            let merged = split.remove(li + 1);
            assert(merged =~= doc.update(li, LineModel::Text(t.take(col))));
            assert(merged[li] == LineModel::Text(t.take(col)));
            assert(t.take(col) + t.skip(col) =~= t);
            assert(bk.doc =~= doc);
            assert(bk.col == t.take(col).len());
        },
        LineModel::Image { .. } => {
            let split = doc.insert(li + 1, empty_line_model());
            assert(st.doc == split);
            let merged = split.remove(li + 1);
            assert(merged =~= doc);
            assert(merged[li] is Image);
            assert(bk.doc =~= doc);
        },
    }
}

/// What holds after an arrow event: the document is untouched, the cursor
/// lands on `p`, and the anchors either follow the shift-selection protocol
/// (start kept or freshly anchored at the old cursor, end at the new cursor)
/// or are cleared.
pub open spec fn arrow_post(
    o: EditorCore,
    f: EditorCore,
    doc0: Seq<LineModel>,
    doc1: Seq<LineModel>,
    p: (int, int),
    shift: bool,
    r: bool,
) -> bool {
    &&& doc1 == doc0
    &&& (f.cursor_line as int, f.cursor_col as int) == p
    &&& r == false
    &&& (shift ==> f.selection_start == (if o.selection_start is Some {
        o.selection_start
    } else {
        Some((o.cursor_line, o.cursor_col))
    }) && f.selection_end == Some((f.cursor_line, f.cursor_col)))
    &&& (!shift ==> f.selection_start is None && f.selection_end is None)
}

} // verus!
