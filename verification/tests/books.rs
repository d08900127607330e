use runb::books::CodeBlockMeta;
use runb::books::Runbook;

fn sample_doc() -> String {
    [
        "# Title",
        "",
        "Some prose.",
        "",
        "```bash",
        "echo one",
        "```",
        "",
        "More prose in between.",
        "",
        "```python {\"timeout\": 5}",
        "print(\"two\")",
        "```",
        "",
        "```",
        "no language here",
        "```",
        "",
        "The end.",
    ]
    .join("\n")
}

#[test]
fn code_blocks_in_source_order() {
    let doc = sample_doc();
    let book = Runbook::parse(&doc).unwrap();
    let blocks = book.code_blocks();
    assert_eq!(blocks.len(), 3);
    assert_eq!(blocks[0].language.as_deref(), Some("bash"));
    assert_eq!(blocks[0].content, "echo one");
    assert_eq!(blocks[0].source_order, 0);
    assert_eq!(blocks[1].language.as_deref(), Some("python"));
    assert_eq!(blocks[1].meta.as_deref(), Some("{\"timeout\": 5}"));
    assert_eq!(blocks[1].content, "print(\"two\")");
    assert_eq!(blocks[1].source_order, 1);
    assert_eq!(blocks[2].language, None);
    assert_eq!(blocks[2].content, "no language here");
    assert_eq!(blocks[2].source_order, 2);
}

#[test]
fn code_blocks_repeated_calls_agree() {
    let doc = sample_doc();
    let book = Runbook::parse(&doc).unwrap();
    let first = book.code_blocks();
    let second = book.code_blocks();
    assert_eq!(first.len(), second.len());
    for (a, b) in first.iter().zip(second.iter()) {
        assert_eq!(a.language, b.language);
        assert_eq!(a.meta, b.meta);
        assert_eq!(a.content, b.content);
        assert_eq!(a.source_order, b.source_order);
    }
}

#[test]
fn document_without_code_blocks() {
    let book = Runbook::parse("# Only prose\n\nNothing to run.\n").unwrap();
    assert_eq!(book.code_blocks().len(), 0);
}

#[test]
fn parse_succeeds_on_arbitrary_text() {
    assert!(Runbook::parse("").is_ok());
    assert!(Runbook::parse("```bash\nan unclosed fence").is_ok());
    assert!(Runbook::parse("---\na never-closed frontmatter marker").is_ok());
    assert!(Runbook::parse("[broken](link *with **odd*** emphasis").is_ok());
    assert!(Runbook::parse("| half | a table\n|---\n").is_ok());
}

#[test]
fn frontmatter_absence_is_not_an_error() {
    let book = Runbook::parse("# No header\n\nJust a body.\n").unwrap();
    assert!(book.frontmatter().is_none());
}

#[test]
fn frontmatter_is_extracted_when_present() {
    let doc = "---\ntitle: demo\n---\n\n# Body\n\n```bash\necho hi\n```\n";
    let book = Runbook::parse(doc).unwrap();
    let fm = book.frontmatter().unwrap();
    assert_eq!(fm.content, "title: demo");
    let blocks = book.code_blocks();
    assert_eq!(blocks.len(), 1);
    assert_eq!(blocks[0].content, "echo hi");
}

#[test]
fn toml_frontmatter_is_extracted_too() {
    let doc = "+++\ntitle = \"demo\"\n+++\n\n# Body\n";
    let book = Runbook::parse(doc).unwrap();
    let fm = book.frontmatter().unwrap();
    assert_eq!(fm.content, "title = \"demo\"");
}

#[test]
fn decode_without_metadata_is_absent() {
    let meta = CodeBlockMeta::decode(None);
    assert!(matches!(meta, CodeBlockMeta::Absent));
}

#[test]
fn decode_valid_json_is_structured() {
    let meta = CodeBlockMeta::decode(Some("{\"foo\": \"bar\", \"baz\": 42}".to_string()));
    match meta {
        CodeBlockMeta::Structured(value) => {
            assert_eq!(value["foo"].as_str(), Some("bar"));
            assert_eq!(value["baz"].as_i64(), Some(42));
        },
        other => panic!("expected structured metadata, got {:?}", other),
    }
}

#[test]
fn decode_malformed_json_keeps_text_verbatim() {
    let raw = "{\"foo\": \"bar\", \"baz\": 42\"}";
    let meta = CodeBlockMeta::decode(Some(raw.to_string()));
    match meta {
        CodeBlockMeta::Raw(text) => assert_eq!(text, raw),
        other => panic!("expected raw metadata, got {:?}", other),
    }
}

#[test]
fn decode_scalar_json_is_structured() {
    let meta = CodeBlockMeta::decode(Some("42".to_string()));
    assert!(matches!(meta, CodeBlockMeta::Structured(_)));
}
