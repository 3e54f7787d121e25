use mdbook_qr::html::{img_tag, inject_marker_relative, replace_markers_outside_code, u32_dec,
    Chapter};

fn replace(content: &str, marker: &str, repl: &str) -> Vec<u8> {
    replace_markers_outside_code(
        &content.as_bytes().to_vec(),
        &marker.as_bytes().to_vec(),
        &repl.as_bytes().to_vec(),
    )
}

#[test]
fn empty_document_stays_empty() {
    assert_eq!(replace("", "{{QR}}", "IMG"), b"".to_vec());
}

#[test]
fn marker_in_fenced_block_is_unchanged() {
    let doc = "```\n{{QR}}\n```";
    assert_eq!(replace(doc, "{{QR}}", "IMG"), doc.as_bytes().to_vec());
}

#[test]
fn marker_outside_fence_is_replaced() {
    assert_eq!(replace("{{QR}} hello", "{{QR}}", "IMG"), b"IMG hello".to_vec());
}

#[test]
fn marker_around_fence_replaced_inside_kept() {
    let doc = "before {{QR}}\n```\n{{QR}}\n```\nafter {{QR}}\n";
    let expected = "before IMG\n```\n{{QR}}\n```\nafter IMG\n";
    assert_eq!(replace(doc, "{{QR}}", "IMG"), expected.as_bytes().to_vec());
}

#[test]
fn single_backtick_inline_code_is_untouched() {
    let doc = "`{{QR}}`";
    assert_eq!(replace(doc, "{{QR}}", "IMG"), doc.as_bytes().to_vec());
}

#[test]
fn inline_span_closes_only_on_same_run_length() {
    // The double-backtick span stays open across the single backtick, so
    // the first marker is inside code; the one after the closing run is
    // replaced.
    let doc = "``a`{{QR}}`` and {{QR}}";
    let expected = "``a`{{QR}}`` and IMG";
    assert_eq!(replace(doc, "{{QR}}", "IMG"), expected.as_bytes().to_vec());
}

#[test]
fn every_line_of_a_fenced_block_passes_verbatim() {
    let doc = "```\nline one {{QR}}\n\n   {{QR}} indented\n`{{QR}}`\n```\n{{QR}}\n";
    let expected = "```\nline one {{QR}}\n\n   {{QR}} indented\n`{{QR}}`\n```\nIMG\n";
    assert_eq!(replace(doc, "{{QR}}", "IMG"), expected.as_bytes().to_vec());
}

#[test]
fn tilde_fence_counts_as_code() {
    let doc = "~~~\n{{QR}}\n~~~\n";
    assert_eq!(replace(doc, "{{QR}}", "IMG"), doc.as_bytes().to_vec());
}

#[test]
fn admonish_pseudo_fence_is_ordinary_text() {
    let doc = "~~~admonish note\n{{QR}}\n~~~\n";
    let expected = "~~~admonish note\nIMG\n~~~\n";
    assert_eq!(replace(doc, "{{QR}}", "IMG"), expected.as_bytes().to_vec());
}

#[test]
fn fence_closes_only_with_run_at_least_as_long() {
    let doc = "````\n{{QR}}\n```\n{{QR}}\n````\n{{QR}}";
    let expected = "````\n{{QR}}\n```\n{{QR}}\n````\nIMG";
    assert_eq!(replace(doc, "{{QR}}", "IMG"), expected.as_bytes().to_vec());
}

#[test]
fn fence_allows_up_to_three_leading_spaces() {
    let doc = "   ```\n{{QR}}\n   ```\n";
    assert_eq!(replace(doc, "{{QR}}", "IMG"), doc.as_bytes().to_vec());
    let doc4 = "    ```x\n{{QR}}\n";
    let expected4 = "    ```x\nIMG\n";
    assert_eq!(replace(doc4, "{{QR}}", "IMG"), expected4.as_bytes().to_vec());
}

#[test]
fn all_occurrences_in_one_line_are_replaced() {
    assert_eq!(replace("{{QR}}{{QR}} {{QR}}", "{{QR}}", "I"), b"II I".to_vec());
}

#[test]
fn replacement_is_not_rescanned() {
    assert_eq!(replace("{{QR}}", "{{QR}}", "{{QR}}!"), b"{{QR}}!".to_vec());
}

#[test]
fn decimal_rendering() {
    assert_eq!(u32_dec(0), b"0".to_vec());
    assert_eq!(u32_dec(7), b"7".to_vec());
    assert_eq!(u32_dec(120), b"120".to_vec());
    assert_eq!(u32_dec(4294967295), b"4294967295".to_vec());
}

#[test]
fn img_tag_without_style() {
    let t = img_tag(&b"./x.png".to_vec(), 0, 0);
    assert_eq!(t, b"<img src=\"./x.png\" alt=\"QR code\" loading=\"eager\">".to_vec());
}

#[test]
fn img_tag_with_both_dimensions() {
    let t = img_tag(&b"a.png".to_vec(), 120, 80);
    assert_eq!(
        t,
        b"<img src=\"a.png\" alt=\"QR code\" style=\"height:120px;width:80px\" loading=\"eager\">"
            .to_vec()
    );
}

#[test]
fn img_tag_with_one_dimension() {
    let t = img_tag(&b"a.png".to_vec(), 0, 80);
    assert_eq!(
        t,
        b"<img src=\"a.png\" alt=\"QR code\" style=\"width:80px\" loading=\"eager\">".to_vec()
    );
}

fn book_one(path: &str, content: &str) -> Vec<Chapter> {
    vec![Chapter { path: Some(path.as_bytes().to_vec()), content: content.as_bytes().to_vec() }]
}

#[test]
fn inject_makes_source_relative_to_chapter_directory() {
    // The chapter lives in src/chapter/, the image in src/qr/: the path
    // difference must walk up one directory.
    let mut book = book_one("chapter/one.md", "{{QR}}\n");
    inject_marker_relative(
        &mut book,
        &b"{{QR}}".to_vec(),
        &b"src".to_vec(),
        &b"src/qr/qr_code.png".to_vec(),
        0,
        0,
        &None,
    );
    assert_eq!(
        book[0].content,
        b"<img src=\"../qr/qr_code.png\" alt=\"QR code\" loading=\"eager\">\n".to_vec()
    );
}

#[test]
fn inject_top_level_chapter_keeps_plain_relative_path() {
    let mut book = book_one("one.md", "{{QR}}");
    inject_marker_relative(
        &mut book,
        &b"{{QR}}".to_vec(),
        &b"src".to_vec(),
        &b"src/qr/x.png".to_vec(),
        0,
        0,
        &None,
    );
    assert_eq!(
        book[0].content,
        b"<img src=\"qr/x.png\" alt=\"QR code\" loading=\"eager\">".to_vec()
    );
}

#[test]
fn inject_appends_cache_busting_query() {
    let mut book = book_one("one.md", "{{QR}}");
    inject_marker_relative(
        &mut book,
        &b"{{QR}}".to_vec(),
        &b"src".to_vec(),
        &b"src/qr/x.png".to_vec(),
        0,
        0,
        &Some(b"abc123".to_vec()),
    );
    assert_eq!(
        book[0].content,
        b"<img src=\"qr/x.png?v=abc123\" alt=\"QR code\" loading=\"eager\">".to_vec()
    );
}

#[test]
fn inject_with_dimensions_emits_style() {
    let mut book = book_one("one.md", "{{QR}}");
    inject_marker_relative(
        &mut book,
        &b"{{QR}}".to_vec(),
        &b"src".to_vec(),
        &b"src/qr/x.png".to_vec(),
        200,
        100,
        &None,
    );
    assert_eq!(
        book[0].content,
        b"<img src=\"qr/x.png\" alt=\"QR code\" style=\"height:200px;width:100px\" loading=\"eager\">"
            .to_vec()
    );
}

#[test]
fn inject_skips_chapters_without_path_or_marker() {
    let mut book = vec![
        Chapter { path: None, content: b"{{QR}}".to_vec() },
        Chapter { path: Some(b"a.md".to_vec()), content: b"no marker here".to_vec() },
    ];
    inject_marker_relative(
        &mut book,
        &b"{{QR}}".to_vec(),
        &b"src".to_vec(),
        &b"src/qr/x.png".to_vec(),
        0,
        0,
        &None,
    );
    assert_eq!(book[0].content, b"{{QR}}".to_vec());
    assert_eq!(book[1].content, b"no marker here".to_vec());
}

#[test]
fn inject_leaves_fenced_marker_alone() {
    let mut book = book_one("one.md", "{{QR}}\n```\n{{QR}}\n```\n");
    inject_marker_relative(
        &mut book,
        &b"{{QR}}".to_vec(),
        &b"src".to_vec(),
        &b"src/qr/x.png".to_vec(),
        0,
        0,
        &None,
    );
    assert_eq!(
        book[0].content,
        b"<img src=\"qr/x.png\" alt=\"QR code\" loading=\"eager\">\n```\n{{QR}}\n```\n".to_vec()
    );
}
