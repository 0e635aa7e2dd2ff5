use text_diff::markdown::{collect_markdown, MarkdownEvent};
use text_diff::{sanitize_path, validate_input};
use text_diff::{DocumentFormat, FileParser, ParseError, StyleType, TesseractOcr};

#[test]
fn validate_input_rejects_empty_and_huge() {
    assert!(!validate_input(""));
    assert!(validate_input("a"));
    assert!(validate_input(&"x".repeat(9_999_999)));
    assert!(!validate_input(&"x".repeat(10_000_000)));
}

#[test]
fn sanitize_path_removes_parent_steps_and_tildes() {
    assert_eq!(sanitize_path("../a/~b"), "/a/b");
    assert_eq!(sanitize_path("a/.../b"), "a/./b");
    assert_eq!(sanitize_path("...."), "");
    assert_eq!(sanitize_path("~/docs/file.txt"), "/docs/file.txt");
    assert_eq!(sanitize_path("plain"), "plain");
}

#[test]
fn parser_limits() {
    assert_eq!(FileParser::new().max_file_size_mb(), 50);
    assert_eq!(FileParser::with_max_size(7).max_file_size_mb(), 7);
}

#[test]
fn test_file_size_limit() {
    let parser = FileParser::with_max_size(1);
    let result = parser.check_file_size(2 * 1024 * 1024);
    assert!(result.is_err());
    if let Err(ParseError::FileTooLarge(size_mb, max_mb)) = result {
        assert!(size_mb > max_mb);
        assert_eq!((size_mb, max_mb), (2, 1));
    } else {
        panic!("Expected FileTooLarge error");
    }
    assert!(parser.check_file_size(2 * 1024 * 1024 - 1).is_ok());
}

#[test]
fn extensions_map_to_formats() {
    let parser = FileParser::new();
    assert_eq!(parser.format_for_extension("txt").unwrap(), DocumentFormat::PlainText);
    assert_eq!(parser.format_for_extension("TEXT").unwrap(), DocumentFormat::PlainText);
    assert_eq!(parser.format_for_extension("Docx").unwrap(), DocumentFormat::Docx);
    assert_eq!(parser.format_for_extension("pdf").unwrap(), DocumentFormat::Pdf);
    assert_eq!(parser.format_for_extension("odt").unwrap(), DocumentFormat::Odt);
    assert_eq!(parser.format_for_extension("rtf").unwrap(), DocumentFormat::Rtf);
    assert_eq!(parser.format_for_extension("HTM").unwrap(), DocumentFormat::Html);
    assert_eq!(parser.format_for_extension("markdown").unwrap(), DocumentFormat::Markdown);
    match parser.format_for_extension("XYZ") {
        Err(ParseError::UnsupportedFormat(e)) => assert_eq!(e, "xyz"),
        _ => panic!("expected an unsupported format"),
    }
}

#[test]
fn xml_text_skips_tags() {
    let parser = FileParser::new();
    assert_eq!(parser.extract_text_from_xml("<a>hi</a> <b x=\"1\">there</b>"), "hi there");
    assert_eq!(parser.extract_text_from_xml("no tags"), "no tags");
}

#[test]
fn rtf_text_skips_control_words() {
    let parser = FileParser::new();
    assert_eq!(parser.extract_text_from_rtf("{\\rtf1 Hello}"), "Hello");
    assert_eq!(parser.extract_text_from_rtf("outside {in\\b bold\\b0 text}"), "inboldtext");
    assert_eq!(parser.extract_text_from_rtf("}{x}"), "");
}

#[test]
fn documents_count_words() {
    let parser = FileParser::new();
    let doc = parser.text_source_document("Hello, World!".to_string(), Some("test.txt".to_string()));
    assert_eq!(doc.content, "Hello, World!");
    assert_eq!(doc.format, DocumentFormat::PlainText);
    assert_eq!(doc.metadata.word_count, 2);
    assert_eq!(doc.metadata.title.as_deref(), Some("test.txt"));
    let rtf = parser.rtf_source_document("{\\rtf1 one two three}", None);
    assert_eq!(rtf.content, "one two three");
    assert_eq!(rtf.metadata.word_count, 3);
    let odt = parser.odt_content_document("<p>a</p><p> b</p>", None);
    assert_eq!(odt.content, "a b");
    assert_eq!(odt.format, DocumentFormat::Odt);
}

#[test]
fn markdown_events_give_text_and_styles() {
    let events = vec![
        MarkdownEvent::HeadingStart(1),
        MarkdownEvent::Text("Title".to_string()),
        MarkdownEvent::Other,
        MarkdownEvent::StrongStart,
        MarkdownEvent::Code("x".to_string()),
        MarkdownEvent::Break,
        MarkdownEvent::EmphasisStart,
    ];
    let out = collect_markdown(&events);
    assert_eq!(out.content, "Titlex\n");
    assert_eq!(out.styles.len(), 3);
    assert!(matches!(out.styles[0].style_type, StyleType::Heading(1)));
    assert_eq!((out.styles[0].start, out.styles[0].end), (0, 0));
    assert!(matches!(out.styles[1].style_type, StyleType::Bold));
    assert_eq!(out.styles[1].start, 5);
    assert!(matches!(out.styles[2].style_type, StyleType::Italic));
    assert_eq!(out.styles[2].start, 7);
}

#[test]
fn test_parse_markdown_file() {
    let parser = FileParser::new();
    let doc = parser.markdown_source_document("# Title\n\nParagraph with **bold** text.", None);
    assert_eq!(doc.format, DocumentFormat::Markdown);
    assert!(doc.content.contains("Title"));
    assert!(doc.content.contains("Paragraph"));
    assert_eq!(doc.content, "TitleParagraph with bold text.");
    let styles = doc.styles.unwrap();
    assert!(matches!(styles[0].style_type, StyleType::Heading(1)));
    assert!(matches!(styles[1].style_type, StyleType::Bold));
    assert_eq!(styles[1].start, "TitleParagraph with ".len());
}

#[test]
fn test_parse_html_file() {
    let parser = FileParser::new();
    let doc = parser.html_source_document("<html><body><h1>Title</h1><p>Content</p></body></html>");
    assert_eq!(doc.format, DocumentFormat::Html);
    assert!(doc.content.contains("Title"));
    assert!(doc.content.contains("Content"));
    assert_eq!(doc.content, "Title Content");
    assert_eq!(doc.metadata.word_count, 2);
    let titled = parser.html_source_document("<html><head><title>T</title></head><body>x</body></html>");
    assert_eq!(titled.metadata.title.as_deref(), Some("T"));
    assert_eq!(doc.metadata.title, None);
}

#[test]
fn ocr_settings_keep_language() {
    assert_eq!(TesseractOcr::new("chi_sim").language(), "chi_sim");
}

#[test]
fn test_parse_text_file() {
    let parser = FileParser::new();
    let result = parser.text_source_document("Hello, World!".to_string(), Some("test.txt".to_string()));

    assert_eq!(result.content, "Hello, World!");
    assert_eq!(result.format, DocumentFormat::PlainText);
    assert_eq!(result.content.chars().count(), 13);
    assert_eq!(result.metadata.word_count, 2);
    assert_eq!(result.content.lines().count(), 1);
}
