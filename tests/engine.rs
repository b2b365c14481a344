use conseil::config::Config;
use conseil::content::{classify, Content, DiffHunk, LineKind, SlotKind};
use conseil::diff::{decode_lines, segment, segment_lines, DiffLine, RawDiffLine};
use conseil::document::{parse_token, Document, Token};

fn raw(path: &str, origin: char, content: &[u8]) -> RawDiffLine {
    RawDiffLine { path: path.to_string(), origin, content: content.to_vec() }
}

fn line(path: &str, origin: char, text: &str) -> DiffLine {
    DiffLine { path: path.to_string(), origin, text: text.to_string() }
}

fn names(v: &[&str]) -> Vec<String> {
    v.iter().map(|s| s.to_string()).collect()
}

fn hunk_lines(h: &DiffHunk) -> Vec<(String, LineKind)> {
    h.lines.clone()
}

#[test]
fn classify_by_origin() {
    assert_eq!(classify('+'), LineKind::Added);
    assert_eq!(classify('-'), LineKind::Removed);
    assert_eq!(classify(' '), LineKind::Context);
    assert_eq!(classify('='), LineKind::Context);
}

#[test]
fn segment_empty_stream() {
    assert!(segment(&vec![]).is_empty());
    assert!(segment_lines(&vec![]).is_empty());
}

#[test]
fn segment_one_file_keeps_order() {
    let lines = vec![line("f.rs", ' ', "a\n"), line("f.rs", '+', "b\n"), line("f.rs", '-', "c\n")];
    let hunks = segment_lines(&lines);
    assert_eq!(hunks.len(), 1);
    assert_eq!(hunks[0].path, "f.rs");
    assert_eq!(
        hunk_lines(&hunks[0]),
        vec![
            (" a\n".to_string(), LineKind::Context),
            ("+b\n".to_string(), LineKind::Added),
            ("-c\n".to_string(), LineKind::Removed),
        ]
    );
}

#[test]
fn segment_a_b_a_makes_three_hunks() {
    let lines = vec![
        line("a", '+', "1\n"),
        line("a", '+', "2\n"),
        line("b", '-', "3\n"),
        line("a", ' ', "4\n"),
    ];
    let hunks = segment_lines(&lines);
    assert_eq!(hunks.len(), 3);
    assert_eq!(hunks[0].path, "a");
    assert_eq!(hunks[0].lines.len(), 2);
    assert_eq!(hunks[1].path, "b");
    assert_eq!(hunk_lines(&hunks[1]), vec![("-3\n".to_string(), LineKind::Removed)]);
    assert_eq!(hunks[2].path, "a");
    assert_eq!(hunk_lines(&hunks[2]), vec![(" 4\n".to_string(), LineKind::Context)]);
}

#[test]
fn segment_flushes_trailing_hunk() {
    let hunks = segment(&vec![raw("x", '+', b"only\n")]);
    assert_eq!(hunks.len(), 1);
    assert_eq!(hunk_lines(&hunks[0]), vec![("+only\n".to_string(), LineKind::Added)]);
}

#[test]
fn markers_and_undecodable_lines_are_skipped() {
    let stream = vec![
        raw("a", 'F', b"diff --git a/a b/a\n"),
        raw("a", 'H', b"@@ -1 +1 @@\n"),
        raw("a", '-', b"old\n"),
        raw("a", '+', &[0xff, 0xfe, b'\n']),
        raw("a", '+', "n\u{e9}w\n".as_bytes()),
    ];
    let decoded = decode_lines(&stream);
    assert_eq!(decoded.len(), 2);
    assert_eq!(decoded[1].text, "n\u{e9}w\n");
    let hunks = segment(&stream);
    assert_eq!(hunks.len(), 1);
    assert_eq!(
        hunk_lines(&hunks[0]),
        vec![("-old\n".to_string(), LineKind::Removed), ("+n\u{e9}w\n".to_string(), LineKind::Added)]
    );
}

#[test]
fn tokens_depend_on_phase() {
    assert_eq!(parse_token(&"heading".to_string(), false), Some(Token::Heading));
    assert_eq!(parse_token(&"heading".to_string(), true), None);
    assert_eq!(parse_token(&"filename".to_string(), false), None);
    assert_eq!(parse_token(&"filename".to_string(), true), Some(Token::Filename));
    assert_eq!(parse_token(&"diff".to_string(), true), Some(Token::Diff));
    assert_eq!(parse_token(&"paragraph".to_string(), false), Some(Token::Paragraph));
    assert_eq!(parse_token(&"subheading".to_string(), true), Some(Token::Subheading));
    assert_eq!(parse_token(&"image".to_string(), true), None);
}

#[test]
fn end_to_end_scenario() {
    let config = Config::new(names(&["heading"]), names(&["filename", "diff"]), vec![]);
    let doc = Document::build(&config, &vec![raw("a.txt", '+', b"hello\n")]);
    assert_eq!(doc.blocks.len(), 3);
    assert!(matches!(doc.blocks[0], Content::Heading(0)));
    assert!(matches!(&doc.blocks[1], Content::Filename(p) if p == "a.txt"));
    match &doc.blocks[2] {
        Content::Hunk(h) => {
            assert_eq!(h.path, "a.txt");
            assert_eq!(hunk_lines(h), vec![("+hello\n".to_string(), LineKind::Added)]);
        }
        _ => panic!("expected a hunk block"),
    }
    assert_eq!(doc.serialize(), "# Heading 1\nFile: `a.txt`\n```diff\n+hello\n```\n");
}

#[test]
fn serialize_twice_is_identical() {
    let config = Config::new(
        names(&["heading", "paragraph"]),
        names(&["subheading", "paragraph", "filename", "diff"]),
        names(&["paragraph"]),
    );
    let doc = Document::build(&config, &vec![raw("a", '+', b"x\n"), raw("b", '-', b"y\n")]);
    let first = doc.serialize();
    let second = doc.serialize();
    assert_eq!(first, second);
}

#[test]
fn edit_paragraph_changes_only_its_block() {
    let config = Config::new(
        names(&["heading", "paragraph"]),
        names(&["paragraph", "filename", "diff"]),
        names(&["paragraph"]),
    );
    let mut doc = Document::build(&config, &vec![raw("a", '+', b"x\n")]);
    let before = doc.serialize();
    assert_eq!(
        before,
        "# Heading 1\nParagraph 1\nParagraph 2\nFile: `a`\n```diff\n+x\n```\nParagraph 3\n"
    );
    doc.edit(SlotKind::Paragraph, 1, "Edited text".to_string());
    let after = doc.serialize();
    assert_eq!(
        after,
        "# Heading 1\nParagraph 1\nEdited text\nFile: `a`\n```diff\n+x\n```\nParagraph 3\n"
    );
    assert_eq!(after.matches("Edited text").count(), 1);
    doc.edit(SlotKind::Paragraph, 7, "nowhere".to_string());
    assert_eq!(doc.serialize(), after);
}

#[test]
fn slot_indices_are_contiguous() {
    let mut doc = Document::new();
    doc.expand(&names(&["paragraph", "heading", "paragraph", "bogus", "paragraph"]), None);
    let paras: Vec<usize> = doc
        .blocks
        .iter()
        .filter_map(|b| match b {
            Content::Paragraph(i) => Some(*i),
            _ => None,
        })
        .collect();
    assert_eq!(paras, vec![0, 1, 2]);
    doc.expand(&names(&["paragraph", "paragraph"]), None);
    assert_eq!(doc.slots.paragraphs.len(), 5);
    assert!(matches!(doc.blocks[doc.blocks.len() - 2], Content::Paragraph(3)));
    assert!(matches!(doc.blocks[doc.blocks.len() - 1], Content::Paragraph(4)));
    assert_eq!(doc.slots.paragraphs[4], "Paragraph 5");
}

#[test]
fn default_text_counts_past_nine() {
    let mut doc = Document::new();
    let many: Vec<String> = (0..12).map(|_| "subheading".to_string()).collect();
    doc.expand(&many, None);
    assert_eq!(doc.slots.subheadings[9], "Subheading 10");
    assert_eq!(doc.slots.subheadings[11], "Subheading 12");
}

#[test]
fn per_file_template_repeats_for_each_hunk() {
    let config = Config::new(vec![], names(&["subheading", "filename"]), names(&["heading"]));
    let doc = Document::build(&config, &vec![raw("a", '+', b"1\n"), raw("b", '+', b"2\n")]);
    assert_eq!(
        doc.serialize(),
        "## Subheading 1\nFile: `a`\n## Subheading 2\nFile: `b`\n# Heading 1\n"
    );
}

#[test]
fn context_only_hunk_is_rendered() {
    let config = Config::new(vec![], names(&["diff"]), vec![]);
    let doc = Document::build(&config, &vec![raw("c", ' ', b"same\n")]);
    assert_eq!(doc.serialize(), "```diff\n same\n```\n");
}

#[test]
fn config_getters_return_entries() {
    let config = Config::new(names(&["heading"]), names(&["diff"]), names(&["paragraph"]));
    assert_eq!(config.get_intro_content(), names(&["heading"]));
    assert_eq!(config.get_hunk_content(), names(&["diff"]));
    assert_eq!(config.get_outro_content(), names(&["paragraph"]));
}

#[test]
fn block_markdown_forms() {
    let mut doc = Document::new();
    doc.add_text_edit(SlotKind::Heading);
    doc.add_text_edit(SlotKind::Subheading);
    assert_eq!(doc.blocks[0].to_md_string(&doc.slots), "# Heading 1\n");
    assert_eq!(doc.blocks[1].to_md_string(&doc.slots), "## Subheading 1\n");
    let f = Content::Filename("src/x.rs".to_string());
    assert_eq!(f.to_md_string(&doc.slots), "File: `src/x.rs`\n");
}
