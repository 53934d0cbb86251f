use base64::Engine;

use notula::EditorError;
use notula::document::{DocumentLine, LineElement};
use notula::image_ops::process_image_bytes;
use notula::json::metadata_to_json;
use notula::metadata::{DocumentMetadata, ImageMetadata, ImageStore};
use notula::serialize::{content_to_text, parse_placeholder, text_to_content};
use notula::ui::StatusBar;
use notula::util::{extract_image_id, parse_usize};

fn text_line(s: &str) -> DocumentLine {
    DocumentLine {
        element: LineElement::Text(String::from(s)),
    }
}

fn image_line(id: &str, width: u32, height: u32) -> DocumentLine {
    DocumentLine {
        element: LineElement::Image {
            id: String::from(id),
            width,
            height,
        },
    }
}

fn meta_with(id: &str, data: &str, width: u32, height: u32) -> DocumentMetadata {
    let mut meta = DocumentMetadata::new();
    meta.insert(ImageMetadata {
        id: String::from(id),
        data: String::from(data),
        width,
        height,
    });
    meta
}

// A 2x1 RGB picture, PNG-encoded.
fn tiny_png() -> Vec<u8> {
    vec![
        137, 80, 78, 71, 13, 10, 26, 10, 0, 0, 0, 13, 73, 72, 68, 82, 0, 0, 0, 2, 0, 0, 0, 1, 8,
        2, 0, 0, 0, 123, 64, 232, 221, 0, 0, 0, 15, 73, 68, 65, 84, 120, 156, 99, 248, 207, 192,
        192, 240, 159, 1, 0, 7, 255, 1, 255, 1, 127, 137, 167, 0, 0, 0, 0, 73, 69, 78, 68, 174,
        66, 96, 130,
    ]
}

#[test]
fn serialize_renders_placeholders() {
    let lines = vec![
        text_line("hello"),
        image_line("abc-123", 200, 100),
        text_line(""),
    ];
    let flat = content_to_text(&lines);
    assert_eq!(flat, String::from("hello\n[img_load(\"abc-123\")]\n"));
}

#[test]
fn saved_image_document_and_sidecar() {
    // a document holding one image with id "abc-123"
    let lines = vec![image_line("abc-123", 200, 100), text_line("")];
    let flat = content_to_text(&lines);
    assert_eq!(flat, String::from("[img_load(\"abc-123\")]\n"));
    let meta = meta_with("abc-123", "QUJD", 200, 100);
    assert!(meta.has_images());
    let sidecar = metadata_to_json(&meta);
    assert_eq!(
        sidecar,
        String::from(
            "{\"images\":{\"abc-123\":{\"id\":\"abc-123\",\"data\":\"QUJD\",\"width\":200,\"height\":100}}}"
        )
    );
}

#[test]
fn json_escapes_special_characters() {
    let meta = meta_with("a\"b\\c\nd", "", 1, 2);
    let sidecar = metadata_to_json(&meta);
    assert_eq!(
        sidecar,
        String::from(
            "{\"images\":{\"a\\\"b\\\\c\\nd\":{\"id\":\"a\\\"b\\\\c\\nd\",\"data\":\"\",\"width\":1,\"height\":2}}}"
        )
    );
}

#[test]
fn sidecar_json_is_accepted_by_a_json_parser() {
    let mut meta = meta_with("one", "QUJD", 7, 9);
    meta.insert(ImageMetadata {
        id: String::from("two\t"),
        data: String::from("AA=="),
        width: 0,
        height: 4000000000,
    });
    let sidecar = metadata_to_json(&meta);
    let value: serde_json::Value = serde_json::from_str(sidecar.as_str()).unwrap();
    let images = value.get("images").unwrap();
    assert_eq!(images.get("one").unwrap().get("width").unwrap().as_u64(), Some(7));
    let two = images.get("two\t").unwrap();
    assert_eq!(two.get("height").unwrap().as_u64(), Some(4000000000));
    assert_eq!(two.get("data").unwrap().as_str(), Some("AA=="));
}

#[test]
fn parse_resolves_recorded_placeholder() {
    let meta = meta_with("abc-123", "AQID", 200, 100);
    let mut store = ImageStore::new();
    let doc = text_to_content("before\n[img_load(\"abc-123\")]\nafter", &meta, &mut store)
        .unwrap();
    assert_eq!(doc.len(), 3);
    assert_eq!(doc[0].text_content(), String::from("before"));
    match &doc[1].element {
        LineElement::Image { id, width, height } => {
            assert_eq!(id, &String::from("abc-123"));
            assert_eq!(*width, 200);
            assert_eq!(*height, 100);
        }
        LineElement::Text(_) => panic!("expected an image line"),
    }
    assert_eq!(doc[2].text_content(), String::from("after"));
    // the payload was decoded into the cache
    assert!(store.contains("abc-123"));
    assert_eq!(store.entries.len(), 1);
    assert_eq!(store.entries[0].bytes, vec![1u8, 2, 3]);
}

#[test]
fn parse_falls_back_to_text_for_unknown_identifier() {
    let meta = DocumentMetadata::new();
    let mut store = ImageStore::new();
    let doc = text_to_content("[img_load(\"ghost\")]", &meta, &mut store).unwrap();
    assert_eq!(doc.len(), 1);
    assert_eq!(doc[0].text_content(), String::from("[img_load(\"ghost\")]"));
    assert!(!store.contains("ghost"));
}

#[test]
fn parse_reports_corrupt_payload() {
    let meta = meta_with("bad", "!!!", 1, 1);
    let mut store = ImageStore::new();
    let err = text_to_content("[img_load(\"bad\")]", &meta, &mut store).unwrap_err();
    assert_eq!(err, EditorError::MetadataParseError);
    assert_eq!(err.describe(), "image metadata is corrupt");
}

#[test]
fn parse_skips_decoding_cached_payloads() {
    // the payload is corrupt, but the bytes are already cached, so parsing
    // succeeds without decoding
    let meta = meta_with("pic", "!!!", 1, 1);
    let mut store = ImageStore::new();
    store.insert(String::from("pic"), vec![9u8]);
    let doc = text_to_content("[img_load(\"pic\")]", &meta, &mut store).unwrap();
    assert_eq!(doc.len(), 1);
    assert_eq!(store.entries.len(), 1);
}

#[test]
fn parse_of_serialized_document_round_trips() {
    let lines = vec![
        text_line("alpha"),
        image_line("id-1", 10, 20),
        text_line("omega"),
        text_line(""),
    ];
    let meta = meta_with("id-1", "AQID", 10, 20);
    let flat = content_to_text(&lines);
    let mut store = ImageStore::new();
    let parsed = text_to_content(flat.as_str(), &meta, &mut store).unwrap();
    assert_eq!(parsed.len(), lines.len());
    for (a, b) in parsed.iter().zip(lines.iter()) {
        match (&a.element, &b.element) {
            (LineElement::Text(x), LineElement::Text(y)) => assert_eq!(x, y),
            (
                LineElement::Image { id: xi, width: xw, height: xh },
                LineElement::Image { id: yi, width: yw, height: yh },
            ) => {
                assert_eq!(xi, yi);
                assert_eq!(xw, yw);
                assert_eq!(xh, yh);
            }
            _ => panic!("line kinds differ"),
        }
    }
}

#[test]
fn empty_text_parses_to_one_empty_line() {
    let meta = DocumentMetadata::new();
    let mut store = ImageStore::new();
    let doc = text_to_content("", &meta, &mut store).unwrap();
    assert_eq!(doc.len(), 1);
    assert!(doc[0].is_empty());
}

#[test]
fn placeholder_pattern_is_exact() {
    assert_eq!(parse_placeholder("[img_load(\"x\")]"), Some(String::from("x")));
    assert_eq!(parse_placeholder("[img_load(\"\")]"), Some(String::from("")));
    assert_eq!(parse_placeholder("[img_load(\"x\")] "), None);
    assert_eq!(parse_placeholder("img_load(\"x\")]"), None);
    assert_eq!(parse_placeholder("[img_load(\")]"), None);
}

#[test]
fn process_image_inserts_lines_and_records_metadata() {
    let png = tiny_png();
    let mut lines = vec![text_line("start")];
    let mut cursor_line: usize = 0;
    let mut cursor_col: usize = 3;
    let mut store = ImageStore::new();
    let mut meta = DocumentMetadata::new();
    let id = process_image_bytes(
        png.clone(),
        &mut lines,
        &mut cursor_line,
        &mut cursor_col,
        &mut store,
        &mut meta,
    )
    .unwrap();
    assert_eq!(id.len(), 36);
    assert_eq!(lines.len(), 3);
    match &lines[1].element {
        LineElement::Image { id: lid, width, height } => {
            assert_eq!(lid, &id);
            assert_eq!(*width, 2);
            assert_eq!(*height, 1);
        }
        LineElement::Text(_) => panic!("expected an image line"),
    }
    assert!(lines[2].is_empty());
    assert_eq!(cursor_line, 2);
    assert_eq!(cursor_col, 0);
    let recorded = meta.get(id.as_str()).unwrap();
    assert_eq!(recorded.width, 2);
    assert_eq!(recorded.height, 1);
    let expected_b64 = base64::engine::general_purpose::STANDARD.encode(&png);
    assert_eq!(recorded.data, expected_b64);
    assert!(store.contains(id.as_str()));
}

#[test]
fn process_image_rejects_undecodable_bytes() {
    let mut lines = vec![text_line("start")];
    let mut cursor_line: usize = 0;
    let mut cursor_col: usize = 0;
    let mut store = ImageStore::new();
    let mut meta = DocumentMetadata::new();
    let err = process_image_bytes(
        vec![1u8, 2, 3],
        &mut lines,
        &mut cursor_line,
        &mut cursor_col,
        &mut store,
        &mut meta,
    )
    .unwrap_err();
    assert_eq!(err, EditorError::ImageDecodeError);
    assert_eq!(err.describe(), "could not decode image data");
    assert_eq!(lines.len(), 1);
    assert!(!meta.has_images());
    assert_eq!(store.entries.len(), 0);
}

#[test]
fn metadata_insert_replaces_entries_by_identifier() {
    let mut meta = meta_with("a", "old", 1, 1);
    meta.insert(ImageMetadata {
        id: String::from("a"),
        data: String::from("new"),
        width: 5,
        height: 6,
    });
    assert_eq!(meta.images.len(), 1);
    let got = meta.get("a").unwrap();
    assert_eq!(got.data, String::from("new"));
    assert_eq!(got.width, 5);
    assert!(meta.get("b").is_none());
}

#[test]
fn status_counts_lines_characters_and_images() {
    let lines = vec![text_line("ab"), image_line("p", 1, 1), text_line("")];
    let (line_count, char_count) = StatusBar::get_stats(&lines);
    assert_eq!(line_count, 3);
    assert_eq!(char_count, 3);
}

#[test]
fn extract_image_id_reads_the_first_tag() {
    assert_eq!(extract_image_id("[image(3)]"), Some(3));
    assert_eq!(extract_image_id("text [image(12)] more"), Some(12));
    assert_eq!(extract_image_id("[image(+7)]"), Some(7));
    assert_eq!(extract_image_id("[image(abc)]"), None);
    assert_eq!(extract_image_id("[image(3"), None);
    assert_eq!(extract_image_id("no tag"), None);
    assert_eq!(extract_image_id("[image()]"), None);
    assert_eq!(
        extract_image_id("[image(99999999999999999999999999)]"),
        None
    );
}

#[test]
fn parse_usize_matches_standard_parsing() {
    for s in ["0", "42", "+7", "", "-1", "1x", "007", "18446744073709551615",
        "18446744073709551616"]
    {
        assert_eq!(parse_usize(s), s.parse::<usize>().ok(), "input {:?}", s);
    }
}
