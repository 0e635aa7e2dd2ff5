use text_diff::exporter::{changed_items, line_label, run_style};
use text_diff::format::format_percent;
use text_diff::{
    DiffItem, DiffStats, DiffType, ExportFormat, ExportOptions, ExportStyles, Exporter, Position,
    Similarity,
};

fn item(kind: DiffType, content: &str, original: Option<&str>, line: Option<usize>) -> DiffItem {
    DiffItem {
        id: "diff-0".to_string(),
        diff_type: kind,
        content: content.to_string(),
        original_content: original.map(|s| s.to_string()),
        line_number: line,
        position: Position { start: 0, end: 1 },
    }
}

fn stats(unchanged: usize, total: usize) -> DiffStats {
    DiffStats {
        total_changes: 1,
        additions: 1,
        deletions: 0,
        modifications: 0,
        added_words: 2,
        deleted_words: 0,
        similarity: Similarity { unchanged, total },
    }
}

fn exporter(format: ExportFormat, include_stats: bool, include_timestamp: bool) -> Exporter {
    Exporter::new(ExportOptions {
        format,
        include_stats,
        include_timestamp,
        include_metadata: true,
        template: None,
        styles: ExportStyles::default(),
    })
}

#[test]
fn default_styles() {
    let s = ExportStyles::default();
    assert_eq!(s.add_color, "#22c55e");
    assert_eq!(s.remove_color, "#ef4444");
    assert_eq!(s.modify_color, "#3b82f6");
    assert_eq!(s.font_family, "system-ui, -apple-system, sans-serif");
    assert_eq!(s.font_size, "14px");
}

#[test]
fn percent_rounds_half_up() {
    assert_eq!(format_percent(Similarity { unchanged: 1, total: 3 }, 2), "33.33");
    assert_eq!(format_percent(Similarity { unchanged: 1, total: 3 }, 1), "33.3");
    assert_eq!(format_percent(Similarity { unchanged: 2, total: 3 }, 2), "66.67");
    assert_eq!(format_percent(Similarity { unchanged: 2, total: 3 }, 1), "66.7");
    assert_eq!(format_percent(Similarity { unchanged: 0, total: 0 }, 2), "100.00");
    assert_eq!(format_percent(Similarity { unchanged: 1, total: 2 }, 2), "50.00");
    assert_eq!(format_percent(Similarity { unchanged: 1, total: 200 }, 2), "0.50");
    assert_eq!(format_percent(Similarity { unchanged: 0, total: 7 }, 1), "0.0");
}

#[test]
fn text_report_exact() {
    let items = vec![
        item(DiffType::Equal, "Same line", None, Some(1)),
        item(DiffType::Add, "New line", None, Some(2)),
        item(DiffType::Modify, "new", Some("old"), None),
    ];
    let out = exporter(ExportFormat::Text, true, true).render_text(&items, &stats(1, 2), "2024-01-01 00:00:00");
    let mut expected = String::new();
    expected.push_str("文本对比报告\n");
    expected.push_str(&"=".repeat(50));
    expected.push('\n');
    expected.push_str("生成时间: 2024-01-01 00:00:00\n\n");
    expected.push_str("统计信息\n");
    expected.push_str(&"-".repeat(30));
    expected.push('\n');
    expected.push_str("总变更数: 1\n新增: 1 项, 2 词\n删除: 0 项, 0 词\n修改: 0 项\n相似度: 50.00%\n\n");
    expected.push_str("详细差异\n");
    expected.push_str(&"-".repeat(30));
    expected.push('\n');
    expected.push_str("1. [行 2] [新增]\n   内容: New line\n\n");
    expected.push_str("2. [修改]\n   原文: old\n   现文: new\n\n");
    assert_eq!(out, expected);
}

#[test]
fn text_report_without_optional_sections() {
    let items = vec![item(DiffType::Remove, "gone", Some("gone"), Some(4))];
    let out = exporter(ExportFormat::Text, false, false).render_text(&items, &stats(0, 4), "ignored");
    let expected = format!(
        "文本对比报告\n{}\n详细差异\n{}\n1. [行 4] [删除]\n   内容: gone\n\n",
        "=".repeat(50),
        "-".repeat(30)
    );
    assert_eq!(out, expected);
}

#[test]
fn test_export_markdown() {
    let items = vec![item(DiffType::Remove, "Removed line", Some("Removed line"), Some(1))];
    let out = exporter(ExportFormat::Markdown, true, false).render_markdown(&items, &stats(0, 1), "");
    assert!(out.contains("# 文本对比报告"));
    assert!(out.contains("Removed line"));
    assert!(out.contains("### ➖ 删除 (行 1)\n\n```\nRemoved line\n```\n\n"));
    assert!(out.contains("| 相似度 | 0.00% |\n\n"));
    assert!(!out.contains("生成时间"));
}

#[test]
fn markdown_modify_section() {
    let items = vec![item(DiffType::Modify, "b", Some("a"), Some(3))];
    let out = exporter(ExportFormat::Markdown, false, true).render_markdown(&items, &stats(0, 1), "T");
    let expected = "# 文本对比报告\n\n*生成时间: T*\n\n## 详细差异\n\n### ✏️ 修改 (行 3)\n\n**原文:**\n```\na\n```\n\n**现文:**\n```\nb\n```\n\n";
    assert_eq!(out, expected);
}

#[test]
fn test_export_html() {
    let items = vec![
        item(DiffType::Equal, "Same line", None, Some(1)),
        item(DiffType::Add, "New line", None, Some(2)),
    ];
    let out = exporter(ExportFormat::Html, true, true).render_html(&items, &stats(1, 2), "now");
    assert!(out.contains("<html"));
    assert!(out.contains("Same line"));
    assert!(out.contains("New line"));
    assert!(out.contains("<div class=\"diff-item diff-add\">\n                <span class=\"line-number\">2</span>New line\n            </div>"));
    assert!(out.contains("<div class=\"stat-value\">50.0%</div>"));
    assert!(out.contains("生成时间: now"));
    assert!(out.contains("border-left: 3px solid #22c55e;"));
    assert!(out.contains("font-family: system-ui, -apple-system, sans-serif;"));
    assert!(out.ends_with("</html>"));
}

#[test]
fn html_content_is_escaped() {
    let items = vec![item(DiffType::Add, "<b>&x</b>", None, None)];
    let out = exporter(ExportFormat::Html, false, false).render_html(&items, &stats(0, 1), "");
    assert!(out.contains("&lt;b&gt;&amp;x&lt;/b&gt;"));
    assert!(!out.contains("<b>&x"));
    assert!(!out.contains("class=\"stats\""));
}

#[test]
fn report_dispatch_by_format() {
    let items = vec![item(DiffType::Add, "x", None, Some(1))];
    let s = stats(0, 1);
    assert!(exporter(ExportFormat::Json, true, true).render_report(&items, &s).is_none());
    assert!(exporter(ExportFormat::Pdf, true, true).render_report(&items, &s).is_none());
    assert!(exporter(ExportFormat::Docx, true, true).render_report(&items, &s).is_none());
    let text = exporter(ExportFormat::Text, true, false).render_report(&items, &s).unwrap();
    assert!(text.starts_with("文本对比报告\n"));
    let stamped = exporter(ExportFormat::Markdown, false, true).render_report(&items, &s).unwrap();
    assert!(stamped.starts_with("# 文本对比报告\n\n*生成时间: 20"));
    let html = exporter(ExportFormat::Html, false, false).render_report(&items, &s).unwrap();
    assert!(html.starts_with("<!DOCTYPE html>"));
}

#[test]
fn changed_items_drop_equal_records() {
    let items = vec![
        item(DiffType::Equal, "a", None, Some(1)),
        item(DiffType::Add, "b", None, Some(2)),
        item(DiffType::Equal, "c", None, Some(3)),
        item(DiffType::Remove, "d", Some("d"), Some(4)),
    ];
    let out = changed_items(&items);
    let contents: Vec<&str> = out.iter().map(|i| i.content.as_str()).collect();
    assert_eq!(contents, vec!["b", "d"]);
    assert_eq!(out[1].original_content.as_deref(), Some("d"));
}

#[test]
fn formats_by_name() {
    assert_eq!(ExportFormat::from_name("html"), Some(ExportFormat::Html));
    assert_eq!(ExportFormat::from_name("pdf"), Some(ExportFormat::Pdf));
    assert_eq!(ExportFormat::from_name("docx"), Some(ExportFormat::Docx));
    assert_eq!(ExportFormat::from_name("text"), Some(ExportFormat::Text));
    assert_eq!(ExportFormat::from_name("json"), Some(ExportFormat::Json));
    assert_eq!(ExportFormat::from_name("markdown"), Some(ExportFormat::Markdown));
    assert_eq!(ExportFormat::from_name("HTML"), None);
    assert_eq!(ExportFormat::from_name("csv"), None);
}

#[test]
fn word_processor_styles() {
    let add = run_style(DiffType::Add);
    assert_eq!((add.color, add.underline, add.strike, add.size), ("22c55e", true, false, None));
    let remove = run_style(DiffType::Remove);
    assert_eq!((remove.color, remove.underline, remove.strike), ("ef4444", false, true));
    let modify = run_style(DiffType::Modify);
    assert_eq!((modify.color, modify.underline), ("3b82f6", true));
    let equal = run_style(DiffType::Equal);
    assert_eq!((equal.color, equal.size), ("999999", Some(20)));
    assert_eq!(line_label(12), "12: ");
}
