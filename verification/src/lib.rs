//! A line-oriented text buffer with cursor, selection, and inline images.
//!
//! The document is an ordered sequence of lines; each line holds either a
//! text run or a single embedded image. A cursor addresses positions in
//! character (Unicode scalar) coordinates, and the mutation engine keeps it
//! consistent across inserts, deletes, line splits, and merges. A
//! serialization bridge flattens the document to plain text with bracketed
//! image placeholders and a sidecar metadata record.

use vstd::prelude::*;

pub mod cursor;
pub mod document;
pub mod editor;
pub mod image_ops;
pub mod json;
pub mod lines;
pub mod metadata;
pub mod serialize;
pub mod strings;
pub mod text_ops;
pub mod ui;
pub mod util;

verus! {

/// The classes of failure that editing and persistence operations report.
#[derive(Clone, Copy, Debug, PartialEq, Eq, Structural)]
pub enum EditorError {
    /// Malformed or unsupported image bytes.
    ImageDecodeError,
    /// The clipboard held no image or could not be accessed.
    ClipboardUnavailable,
    /// A file could not be read or written.
    FileIoError,
    /// The sidecar metadata record is corrupt.
    MetadataParseError,
}

impl EditorError {
    /// A short human-readable description of the error.
    pub fn describe(&self) -> (r: &'static str)
        ensures
            r@ == self.spec_describe(),
    {
        match self {
            EditorError::ImageDecodeError => "could not decode image data",
            EditorError::ClipboardUnavailable => "clipboard image unavailable",
            EditorError::FileIoError => "file could not be read or written",
            EditorError::MetadataParseError => "image metadata is corrupt",
        }
    }

    /// What `describe` returns for each variant.
    pub open spec fn spec_describe(&self) -> Seq<char> {
        match self {
            EditorError::ImageDecodeError => "could not decode image data"@,
            EditorError::ClipboardUnavailable => "clipboard image unavailable"@,
            EditorError::FileIoError => "file could not be read or written"@,
            EditorError::MetadataParseError => "image metadata is corrupt"@,
        }
    }
}

} // verus!
