//! The serialization bridge: flat text with image placeholders.
//!
//! A document becomes one line of text per document line; an image line is
//! rendered as the bracketed placeholder `[img_load("<id>")]`. Parsing is the
//! inverse: a line matching the placeholder pattern whose identifier is
//! recorded in the metadata becomes an image line (decoding its base64
//! payload into the byte cache on first sight); every other line is literal
//! text, including a placeholder whose identifier is unknown — a deliberate
//! fallback, not an error.

use vstd::prelude::*;

use base64::Engine;

use crate::EditorError;
use crate::document::{DocumentLine, LineElement, LineModel};
use crate::lines::{join_lines, lemma_join_push, lemma_split_join, split_lines, text_lines};
use crate::metadata::{DocumentMetadata, ImageStore, ImageEntryModel, store_lookup};
use crate::strings::substring_copy;

verus! {

/// The characters that open an image placeholder.
pub open spec fn placeholder_open() -> Seq<char> {
    "[img_load(\""@
}

/// The characters that close an image placeholder.
pub open spec fn placeholder_close() -> Seq<char> {
    "\")]"@
}

/// The serialized form of an image line with identifier `id`.
pub open spec fn placeholder_of(id: Seq<char>) -> Seq<char> {
    placeholder_open() + id + placeholder_close()
}

/// Whether `t` matches the placeholder pattern: long enough to hold both
/// delimiters without overlap, opening with one and closing with the other.
pub open spec fn is_placeholder(t: Seq<char>) -> bool {
    &&& t.len() >= placeholder_open().len() + placeholder_close().len()
    &&& t.take(placeholder_open().len() as int) == placeholder_open()
    &&& t.skip(t.len() - placeholder_close().len()) == placeholder_close()
}

/// The identifier carried by a placeholder line.
pub open spec fn placeholder_id(t: Seq<char>) -> Seq<char> {
    t.subrange(placeholder_open().len() as int, t.len() - placeholder_close().len())
}

/// The serialized text of one line model.
pub open spec fn render_line(m: LineModel) -> Seq<char> {
    match m {
        LineModel::Text(t) => t,
        LineModel::Image { id, .. } => placeholder_of(id),
    }
}

/// The serialized text of each line of `doc`.
pub open spec fn render_all(doc: Seq<LineModel>) -> Seq<Seq<char>> {
    Seq::new(doc.len(), |i: int| render_line(doc[i]))
}

/// The flat text of a whole document: rendered lines joined by `'\n'`.
pub open spec fn flat_text(doc: Seq<LineModel>) -> Seq<char> {
    join_lines(render_all(doc))
}

/// The line model a single text line parses to: an image line when the
/// placeholder pattern matches and its identifier is recorded in `meta`,
/// literal text otherwise.
pub open spec fn parse_line(t: Seq<char>, meta: DocumentMetadata) -> LineModel {
    if is_placeholder(t) && meta.spec_lookup(placeholder_id(t)) is Some {
        let im = meta.spec_lookup(placeholder_id(t))->Some_0;
        LineModel::Image { id: placeholder_id(t), width: im.width, height: im.height }
    } else {
        LineModel::Text(t)
    }
}

/// The document that a sequence of text lines parses to.
pub open spec fn parse_lines(ts: Seq<Seq<char>>, meta: DocumentMetadata) -> Seq<LineModel> {
    Seq::new(ts.len(), |i: int| parse_line(ts[i], meta))
}

/// The document that a flat text parses to.
pub open spec fn parse_doc(s: Seq<char>, meta: DocumentMetadata) -> Seq<LineModel> {
    parse_lines(text_lines(s), meta)
}

/// What base64 decoding of the standard alphabet returns: `None` on
/// malformed input, the decoded bytes otherwise. The result depends on the
/// input characters alone.
pub uninterp spec fn base64_decoding(s: Seq<char>) -> Option<Seq<u8>>;

/// What base64 encoding with the standard alphabet returns. The result
/// depends on the input bytes alone.
pub uninterp spec fn base64_encoding(b: Seq<u8>) -> Seq<char>;

/// Relies on base64's `Engine::decode` with the standard engine: a pure
/// function of the input that fails exactly on malformed base64.
#[verifier::external_body]
pub(crate) fn b64_decode(s: &str) -> (r: Option<Vec<u8>>)
    ensures
        r is Some <==> base64_decoding(s@) is Some,
        r matches Some(v) ==> base64_decoding(s@) == Some(v@),
{
    match base64::engine::general_purpose::STANDARD.decode(s) {
        Ok(v) => Some(v),
        Err(_) => None,
    }
}

/// Relies on base64's `Engine::encode` with the standard engine: a pure
/// function of the input bytes.
#[verifier::external_body]
pub(crate) fn b64_encode(b: &Vec<u8>) -> (r: String)
    ensures
        r@ == base64_encoding(b@),
{
    base64::engine::general_purpose::STANDARD.encode(b.as_slice())
}

/// Serialize the document to flat text: one line of text per document line,
/// image lines rendered as their placeholder.
pub fn content_to_text(lines: &Vec<DocumentLine>) -> (r: String)
    ensures
        r@ == flat_text(lines.deep_view()),
{
    let ghost doc = lines.deep_view();
    let mut out = String::new();
    let n = lines.len();
    let mut i: usize = 0;
    proof {
        assert(render_all(doc.take(0)) =~= Seq::<Seq<char>>::empty());
    }
    while i < n
        invariant
            i <= n,
            n == lines@.len(),
            doc == lines.deep_view(),
            out@ == join_lines(render_all(doc.take(i as int))),
        decreases n - i,
    {
        if i > 0 {
            out.push('\n');
        }
        match &lines[i].element {
            LineElement::Text(t) => {
                out.append(t.as_str());
            },
            LineElement::Image { id, .. } => {
                out.append("[img_load(\"");
                out.append(id.as_str());
                out.append("\")]");
            },
        }
        proof {
            let prev = render_all(doc.take(i as int));
            assert(render_all(doc.take(i as int + 1)) =~= prev.push(render_line(doc[i as int])));
            lemma_join_push(prev, render_line(doc[i as int]));
            assert(prev.len() == i);
            if i == 0 {
                assert(out@ =~= render_line(doc[0]));
            } else {
                assert(out@ =~= join_lines(prev) + seq!['\n'] + render_line(doc[i as int]));
            }
        }
        i = i + 1;
    }
    proof {
        assert(doc.take(n as int) =~= doc);
    }
    out
}

/// If `line` matches the placeholder pattern, the identifier it carries.
pub fn parse_placeholder(line: &str) -> (r: Option<String>)
    ensures
        r is Some <==> is_placeholder(line@),
        r matches Some(id) ==> id@ == placeholder_id(line@),
{
    let open_pat = "[img_load(\"";
    let close_pat = "\")]";
    proof {
        reveal_strlit("[img_load(\"");
        reveal_strlit("\")]");
        assert(placeholder_open().len() == 11);
        assert(placeholder_close().len() == 3);
    }
    let n = line.unicode_len();
    if n < 14 {
        return None;
    }
    let mut i: usize = 0;
    while i < 11
        invariant
            i <= 11,
            n == line@.len(),
            n >= 14,
            open_pat@ == placeholder_open(),
            placeholder_open().len() == 11,
            forall|j: int| 0 <= j < i ==> line@[j] == placeholder_open()[j],
        decreases 11 - i,
    {
        if line.get_char(i) != open_pat.get_char(i) {
            proof {
                assert(line@.take(11) != placeholder_open()) by {
                    assert(line@.take(11)[i as int] != placeholder_open()[i as int]);
                }
            }
            return None;
        }
        i = i + 1;
    }
    let mut j: usize = 0;
    while j < 3
        invariant
            j <= 3,
            n == line@.len(),
            n >= 14,
            close_pat@ == placeholder_close(),
            placeholder_close().len() == 3,
            forall|k: int| 0 <= k < j ==> line@[n - 3 + k] == placeholder_close()[k],
        decreases 3 - j,
    {
        if line.get_char(n - 3 + j) != close_pat.get_char(j) {
            proof {
                assert(line@.skip(n as int - 3) != placeholder_close()) by {
                    assert(line@.skip(n as int - 3)[j as int] != placeholder_close()[j as int]);
                }
            }
            return None;
        }
        j = j + 1;
    }
    proof {
        assert(line@.take(11) =~= placeholder_open());
        assert(line@.skip(n as int - 3) =~= placeholder_close());
    }
    Some(substring_copy(line, 11, n - 3))
}

/// Whether parsing line `t` must decode a payload and that decode fails:
/// the line is a recorded placeholder, its payload is not valid base64, and
/// its bytes are not already cached.
pub open spec fn line_decode_fails(
    t: Seq<char>,
    meta: DocumentMetadata,
    store0: Seq<ImageEntryModel>,
) -> bool {
    &&& is_placeholder(t)
    &&& meta.spec_lookup(placeholder_id(t)) matches Some(im) && base64_decoding(im.data) is None
    &&& store_lookup(store0, placeholder_id(t)) is None
}

/// Whether any line of `s` fails to decode as [`line_decode_fails`].
pub open spec fn any_decode_failure(
    s: Seq<char>,
    meta: DocumentMetadata,
    store0: Seq<ImageEntryModel>,
) -> bool {
    exists|i: int|
        0 <= i < text_lines(s).len() && line_decode_fails(text_lines(s)[i], meta, store0)
}

/// Parse flat text back into a document. Lines matching the placeholder
/// pattern with a recorded identifier become image lines, their payload
/// decoded into `image_data` on first sight; all other lines are literal
/// text. Fails with a metadata error exactly when some payload that must be
/// decoded is not valid base64.
pub fn text_to_content(
    text: &str,
    metadata: &DocumentMetadata,
    image_data: &mut ImageStore,
) -> (r: Result<Vec<DocumentLine>, EditorError>)
    ensures
        r is Ok <==> !any_decode_failure(text@, *metadata, old(image_data).entries.deep_view()),
        r matches Err(e) ==> e == EditorError::MetadataParseError,
        r matches Ok(ls) ==> ls.deep_view() == parse_doc(text@, *metadata),
        forall|x: Seq<char>|
            old(image_data).spec_lookup(x) is Some ==> final(image_data).spec_lookup(x) == old(
                image_data,
            ).spec_lookup(x),
        forall|x: Seq<char>|
            old(image_data).spec_lookup(x) is None && final(image_data).spec_lookup(x) is Some
                ==> (metadata.spec_lookup(x) matches Some(im) && base64_decoding(im.data) == Some(
                final(image_data).spec_lookup(x)->Some_0.bytes,
            )),
        r is Ok ==> forall|i: int|
            0 <= i < text_lines(text@).len() && is_placeholder(#[trigger] text_lines(text@)[i])
                && metadata.spec_lookup(placeholder_id(text_lines(text@)[i])) is Some
                ==> (final(image_data)).spec_lookup(placeholder_id(text_lines(text@)[i])) is Some,
    {
        let ghost s = text@;
        let ghost store0 = image_data.entries.deep_view();
        let parts = split_lines(text);
        let mut result: Vec<DocumentLine> = Vec::new();
        let n = parts.len();
        let mut i: usize = 0;
        while i < n
            invariant
                i <= n,
                n == parts@.len(),
                s == text@,
                parts.deep_view() == text_lines(s),
                store0 == old(image_data).entries.deep_view(),
                result.deep_view() =~= parse_lines(text_lines(s).take(i as int), *metadata),
                forall|x: Seq<char>|
                    store_lookup(store0, x) is Some ==> image_data.spec_lookup(x) == store_lookup(
                        store0,
                        x,
                    ),
                forall|x: Seq<char>|
                    store_lookup(store0, x) is None && image_data.spec_lookup(x) is Some ==> (
                    metadata.spec_lookup(x) matches Some(im) && base64_decoding(im.data) == Some(
                        image_data.spec_lookup(x)->Some_0.bytes,
                    )),
                forall|j: int|
                    0 <= j < i ==> !line_decode_fails(text_lines(s)[j], *metadata, store0),
                forall|j: int|
                    0 <= j < i && is_placeholder(#[trigger] text_lines(s)[j])
                        && metadata.spec_lookup(placeholder_id(text_lines(s)[j])) is Some
                        ==> image_data.spec_lookup(placeholder_id(text_lines(s)[j])) is Some,
            decreases n - i,
        {
            let ghost t = text_lines(s)[i as int];
            let maybe_id = parse_placeholder(parts[i].as_str());
            match maybe_id {
                Some(id) => {
                    match metadata.get(id.as_str()) {
                        Some(im) => {
                            let width = im.width;
                            let height = im.height;
                            let data = im.data.clone();
                            result.push(
                                DocumentLine {
                                    element: LineElement::Image { id: id.clone(), width, height },
                                },
                            );
                            if !image_data.contains(id.as_str()) {
                                match b64_decode(data.as_str()) {
                                    Some(bytes) => {
                                        image_data.insert(id, bytes);
                                    },
                                    None => {
                                        proof {
                                            assert(line_decode_fails(t, *metadata, store0));
                                            assert(any_decode_failure(s, *metadata, store0));
                                        }
                                        return Err(EditorError::MetadataParseError);
                                    },
                                }
                            }
                        },
                        None => {
                            result.push(
                                DocumentLine { element: LineElement::Text(parts[i].clone()) },
                            );
                        },
                    }
                },
                None => {
                    result.push(DocumentLine { element: LineElement::Text(parts[i].clone()) });
                },
            }
            proof {
                assert(parse_lines(text_lines(s).take(i as int + 1), *metadata)
                    =~= parse_lines(text_lines(s).take(i as int), *metadata).push(
                    parse_line(t, *metadata),
                ));
                assert(result.deep_view() =~= parse_lines(
                    text_lines(s).take(i as int + 1),
                    *metadata,
                ));
            }
            i = i + 1;
        }
        proof {
            assert(text_lines(s).take(n as int) =~= text_lines(s));
        }
        Ok(result)
    }

/// No character of a placeholder is a line separator, provided the
/// identifier itself holds none.
pub proof fn lemma_placeholder_no_newline(id: Seq<char>)
    requires
        forall|j: int| 0 <= j < id.len() ==> id[j] != '\n',
    ensures
        forall|j: int| 0 <= j < placeholder_of(id).len() ==> #[trigger] placeholder_of(id)[j]
            != '\n',
{
    reveal_strlit("[img_load(\"");
    reveal_strlit("\")]");
    let p = placeholder_of(id);
    assert(placeholder_open().len() == 11);
    assert(placeholder_close().len() == 3);
    assert forall|j: int| 0 <= j < p.len() implies p[j] != '\n' by {
        if j < 11 {
            assert(p[j] == placeholder_open()[j]);
            if j == 0 {
                assert(placeholder_open()[0] != '\n');
            } else if j == 1 {
                assert(placeholder_open()[1] != '\n');
            } else if j == 2 {
                assert(placeholder_open()[2] != '\n');
            } else if j == 3 {
                assert(placeholder_open()[3] != '\n');
            } else if j == 4 {
                assert(placeholder_open()[4] != '\n');
            } else if j == 5 {
                assert(placeholder_open()[5] != '\n');
            } else if j == 6 {
                assert(placeholder_open()[6] != '\n');
            } else if j == 7 {
                assert(placeholder_open()[7] != '\n');
            } else if j == 8 {
                assert(placeholder_open()[8] != '\n');
            } else if j == 9 {
                assert(placeholder_open()[9] != '\n');
            } else {
                assert(placeholder_open()[10] != '\n');
            }
        } else if j < 11 + id.len() {
            assert(p[j] == id[j - 11]);
        } else {
            assert(p[j] == placeholder_close()[j - 11 - id.len()]);
            if j - 11 - id.len() == 0 {
                assert(placeholder_close()[0] != '\n');
            } else if j - 11 - id.len() == 1 {
                assert(placeholder_close()[1] != '\n');
            } else {
                assert(placeholder_close()[2] != '\n');
            }
        }
    }
}

/// A rendered placeholder matches the placeholder pattern and yields back
/// exactly the identifier it was rendered from.
pub proof fn lemma_placeholder_parse(id: Seq<char>)
    ensures
        is_placeholder(placeholder_of(id)),
        placeholder_id(placeholder_of(id)) == id,
{
    let p = placeholder_of(id);
    assert(p.len() == placeholder_open().len() + id.len() + placeholder_close().len());
    assert(p.take(placeholder_open().len() as int) =~= placeholder_open());
    assert(p.skip(p.len() - placeholder_close().len()) =~= placeholder_close());
    assert(p.subrange(placeholder_open().len() as int, p.len() - placeholder_close().len())
        =~= id);
}

/// Law: serializing a document and parsing the result against the same
/// metadata reconstructs the document — same line count, same element
/// order, same text content, same image identifiers and dimensions. The
/// document must be non-empty; no text line or image identifier may contain
/// a line separator; every image identifier must be recorded in the
/// metadata with the same dimensions the document carries; and no text line
/// may itself spell a placeholder whose identifier the metadata records
/// (such a line would deliberately parse as an image).
pub proof fn lemma_parse_round_trip(doc: Seq<LineModel>, meta: DocumentMetadata)
    requires
        doc.len() >= 1,
        forall|i: int, j: int|
            0 <= i < doc.len() && doc[i] is Text && 0 <= j < doc[i]->Text_0.len()
                ==> #[trigger] doc[i]->Text_0[j] != '\n',
        forall|i: int|
            0 <= i < doc.len() && #[trigger] doc[i] is Text ==> !(is_placeholder(doc[i]->Text_0)
                && meta.spec_lookup(placeholder_id(doc[i]->Text_0)) is Some),
        forall|i: int, j: int|
            0 <= i < doc.len() && doc[i] is Image && 0 <= j < doc[i]->Image_id.len()
                ==> #[trigger] doc[i]->Image_id[j] != '\n',
        forall|i: int|
            0 <= i < doc.len() && #[trigger] doc[i] is Image ==> (meta.spec_lookup(
                doc[i]->Image_id,
            ) matches Some(im) && im.width == doc[i]->Image_width && im.height
                == doc[i]->Image_height),
    ensures
        parse_doc(flat_text(doc), meta) == doc,
{
    let rendered = render_all(doc);
    assert forall|i: int, j: int|
        0 <= i < rendered.len() && 0 <= j < rendered[i].len() implies #[trigger] rendered[i][j]
        != '\n' by {
        match doc[i] {
            LineModel::Text(t) => {
                assert(rendered[i] == t);
            },
            LineModel::Image { id, .. } => {
                lemma_placeholder_no_newline(id);
                assert(rendered[i] == placeholder_of(id));
            },
        }
    }
    lemma_split_join(rendered);
    assert(text_lines(flat_text(doc)) == rendered);
    assert forall|i: int| 0 <= i < doc.len() implies parse_line(rendered[i], meta)
        == doc[i] by {
        match doc[i] {
            LineModel::Text(t) => {
                assert(rendered[i] == t);
            },
            LineModel::Image { id, width, height } => {
                lemma_placeholder_parse(id);
                assert(rendered[i] == placeholder_of(id));
                assert(placeholder_id(rendered[i]) == id);
            },
        }
    }
    assert(parse_doc(flat_text(doc), meta) =~= doc);
}

} // verus!
