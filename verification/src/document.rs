//! The document model: lines made of a text run or a single embedded image.
//!
//! Every line holds exactly one element. A line is either a run of text
//! (possibly empty) or an image reference; this invariant is enforced by the
//! constructors and kept by every mutation, which removes any ambiguity about
//! which element of a line is being edited.

use vstd::prelude::*;

verus! {

/// The content of one document line: a text run, or an embedded image
/// referenced by an opaque identifier together with its pixel dimensions.
#[derive(Clone, Debug)]
pub enum LineElement {
    Text(String),
    Image { id: String, width: u32, height: u32 },
}

/// The mathematical value of a [`LineElement`]: the same shape, with the
/// text and identifier viewed as character sequences.
#[verifier::ext_equal]
pub enum LineModel {
    Text(Seq<char>),
    Image { id: Seq<char>, width: u32, height: u32 },
}

impl View for LineElement {
    type V = LineModel;

    open spec fn view(&self) -> LineModel {
        match self {
            LineElement::Text(t) => LineModel::Text(t@),
            LineElement::Image { id, width, height } => LineModel::Image {
                id: id@,
                width: *width,
                height: *height,
            },
        }
    }
}

impl DeepView for LineElement {
    type V = LineModel;

    open spec fn deep_view(&self) -> LineModel {
        self.view()
    }
}

/// One row of the document.
#[derive(Clone, Debug)]
pub struct DocumentLine {
    pub element: LineElement,
}

impl View for DocumentLine {
    type V = LineModel;

    open spec fn view(&self) -> LineModel {
        self.element@
    }
}

impl DeepView for DocumentLine {
    type V = LineModel;

    open spec fn deep_view(&self) -> LineModel {
        self.element@
    }
}

/// The text carried by a line model: the characters of a text run, and the
/// empty sequence for an image line.
pub open spec fn model_text(m: LineModel) -> Seq<char> {
    match m {
        LineModel::Text(t) => t,
        LineModel::Image { .. } => Seq::empty(),
    }
}

/// An empty text line, as a model value.
pub open spec fn empty_line_model() -> LineModel {
    LineModel::Text(Seq::empty())
}

impl DocumentLine {
    /// A freshly created line: one empty text element.
    pub fn new() -> (r: Self)
        ensures
            r@ == empty_line_model(),
    {
        DocumentLine { element: LineElement::Text(String::new()) }
    }

    /// The text content of the line: the characters of its text run, or the
    /// empty string for an image line.
    pub fn text_content(&self) -> (r: String)
        ensures
            r@ == model_text(self@),
    {
        match &self.element {
            LineElement::Text(t) => t.clone(),
            LineElement::Image { .. } => String::new(),
        }
    }

    /// Whether the line is an empty text line. An image line is never empty.
    pub fn is_empty(&self) -> (r: bool)
        ensures
            r == (self@ is Text && model_text(self@).len() == 0),
    {
        match &self.element {
            LineElement::Text(t) => t.as_str().unicode_len() == 0,
            LineElement::Image { .. } => false,
        }
    }
}

} // verus!
