//! Inserting an image into the document.
//!
//! Raw compressed image bytes are decoded (by the image codec) only to
//! learn their dimensions; the bytes themselves are cached and recorded in
//! the metadata under a freshly drawn identifier, and the document gains an
//! image line followed by an empty text line for continued typing.

use vstd::prelude::*;

use crate::EditorError;
use crate::document::{DocumentLine, LineElement, LineModel, empty_line_model};
use crate::metadata::{DocumentMetadata, ImageEntryModel, ImageMetadata, ImageMetaModel, ImageStore};
use crate::serialize::{b64_encode, base64_encoding};

verus! {

/// What the image codec reports for a byte buffer: `None` when the bytes
/// are not a decodable picture, the pixel width and height otherwise. The
/// result depends on the bytes alone.
pub uninterp spec fn image_dimensions_of(bytes: Seq<u8>) -> Option<(u32, u32)>;

/// Relies on image's `load_from_memory` to decode the buffer and on
/// `GenericImageView::dimensions` for the decoded picture's size; both are
/// functions of the bytes alone.
#[verifier::external_body]
fn decode_image_dimensions(bytes: &Vec<u8>) -> (r: Option<(u32, u32)>)
    ensures
        r == image_dimensions_of(bytes@),
{
    match image::load_from_memory(bytes.as_slice()) {
        Ok(img) => Some(image::GenericImageView::dimensions(&img)),
        Err(_) => None,
    }
}

/// Relies on uuid's `Uuid::new_v4` and its hyphenated rendering: a freshly
/// drawn random identifier. Nothing is promised of the value.
#[verifier::external_body]
fn fresh_image_id() -> String {
    uuid::Uuid::new_v4().to_string()
}

/// Insert the image carried by `image_bytes` into the document after the
/// cursor's line: the image goes onto its own new line, followed by a new
/// empty text line where the cursor lands. The raw bytes are cached in
/// `image_data` and recorded in `metadata` (base64-encoded) under a fresh
/// identifier, which is returned. Fails, changing nothing, exactly when the
/// bytes do not decode as a picture.
pub fn process_image_bytes(
    image_bytes: Vec<u8>,
    lines: &mut Vec<DocumentLine>,
    cursor_line: &mut usize,
    cursor_col: &mut usize,
    image_data: &mut ImageStore,
    metadata: &mut DocumentMetadata,
) -> (r: Result<String, EditorError>)
    requires
        *old(cursor_line) < old(lines)@.len(),
        old(metadata).wf(),
    ensures
        r is Ok <==> image_dimensions_of(image_bytes@) is Some,
        r matches Err(e) ==> ({
            &&& e == EditorError::ImageDecodeError
            &&& final(lines)@ == old(lines)@
            &&& *final(cursor_line) == *old(cursor_line)
            &&& *final(cursor_col) == *old(cursor_col)
            &&& *final(image_data) == *old(image_data)
            &&& *final(metadata) == *old(metadata)
        }),
        r matches Ok(id) ==> ({
            let dims = image_dimensions_of(image_bytes@)->Some_0;
            &&& final(lines).deep_view() =~= old(lines).deep_view().insert(
                *old(cursor_line) + 1,
                LineModel::Image { id: id@, width: dims.0, height: dims.1 },
            ).insert(*old(cursor_line) + 2, empty_line_model())
            &&& *final(cursor_line) == *old(cursor_line) + 2
            &&& *final(cursor_col) == 0
            &&& final(metadata).wf()
            &&& final(metadata).spec_lookup(id@) == Some(
                ImageMetaModel {
                    id: id@,
                    data: base64_encoding(image_bytes@),
                    width: dims.0,
                    height: dims.1,
                },
            )
            &&& forall|x: Seq<char>|
                x != id@ ==> final(metadata).spec_lookup(x) == old(metadata).spec_lookup(x)
            &&& old(image_data).spec_lookup(id@) is None ==> final(image_data).spec_lookup(id@)
                == Some(ImageEntryModel { id: id@, bytes: image_bytes@ })
            &&& old(image_data).spec_lookup(id@) is Some ==> final(image_data).spec_lookup(id@)
                == old(image_data).spec_lookup(id@)
            &&& forall|x: Seq<char>|
                x != id@ ==> final(image_data).spec_lookup(x) == old(image_data).spec_lookup(x)
        }),
{
    let dims = decode_image_dimensions(&image_bytes);
    match dims {
        None => Err(EditorError::ImageDecodeError),
        Some((width, height)) => {
            let ghost doc0 = lines.deep_view();
            let id = fresh_image_id();
            let encoded = b64_encode(&image_bytes);
            let ghost bytes0 = image_bytes@;
            image_data.insert(id.clone(), image_bytes);
            metadata.insert(ImageMetadata { id: id.clone(), data: encoded, width, height });
            let li = *cursor_line;
            let cur_len = lines.len();
            proof {
                assert(li + 1 <= cur_len);
            }
            lines.insert(li + 1, DocumentLine::new());
            lines.insert(
                li + 1,
                DocumentLine { element: LineElement::Image { id: id.clone(), width, height } },
            );
            let total = lines.len();
            proof {
                assert(li + 2 <= total);
                assert(lines.deep_view() =~= doc0.insert(
                    li + 1,
                    LineModel::Image { id: id@, width, height },
                ).insert(li + 2, empty_line_model()));
            }
            *cursor_line = li + 2;
            *cursor_col = 0;
            Ok(id)
        },
    }
}

} // verus!
