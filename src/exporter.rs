//! Difference reports: their options and their rendering as text.
use vstd::prelude::*;
use crate::types::{DiffItem, DiffStats, DiffType, ItemModel, decimal, decimal_text, items_view};
use crate::format::{format_percent, percent_text};

verus! {

/// Why a report could not be produced.
#[derive(Debug)]
pub enum ExportError {
    ExportFailed(String),
    /// The report could not be written; the message of the I/O error.
    WriteError(String),
    TemplateError(String),
}

#[derive(Clone, Copy, Debug, PartialEq, Eq, Structural)]
pub enum ExportFormat {
    Html,
    Pdf,
    Docx,
    Text,
    Json,
    Markdown,
}

/// Colours and font of a styled report.
#[derive(Clone, Debug)]
pub struct ExportStyles {
    pub add_color: String,
    pub remove_color: String,
    pub modify_color: String,
    pub font_family: String,
    pub font_size: String,
}

impl Default for ExportStyles {
    fn default() -> (r: ExportStyles)
        ensures
            r.add_color@ == "#22c55e"@,
            r.remove_color@ == "#ef4444"@,
            r.modify_color@ == "#3b82f6"@,
            r.font_family@ == "system-ui, -apple-system, sans-serif"@,
            r.font_size@ == "14px"@,
    {
        ExportStyles {
            add_color: String::from_str("#22c55e"),
            remove_color: String::from_str("#ef4444"),
            modify_color: String::from_str("#3b82f6"),
            font_family: String::from_str("system-ui, -apple-system, sans-serif"),
            font_size: String::from_str("14px"),
        }
    }
}

/// What a report holds and in which format it is written.
#[derive(Clone, Debug)]
pub struct ExportOptions {
    pub format: ExportFormat,
    pub include_stats: bool,
    pub include_timestamp: bool,
    pub include_metadata: bool,
    pub template: Option<String>,
    pub styles: ExportStyles,
}

/// Renders reports under fixed options.
pub struct Exporter {
    options: ExportOptions,
}

impl View for Exporter {
    type V = ExportOptions;

    closed spec fn view(&self) -> ExportOptions {
        self.options
    }
}

impl Exporter {
    pub fn new(options: ExportOptions) -> (r: Self)
        ensures
            r@ == options,
    {
        Exporter { options }
    }

    /// The options this exporter renders under.
    pub fn options(&self) -> (r: &ExportOptions)
        ensures
            *r == self@,
    {
        &self.options
    }
}


/// The label of a record kind in a text report.
pub open spec fn text_label(k: DiffType) -> Seq<char> {
    match k {
        DiffType::Add => "[新增]"@,
        DiffType::Remove => "[删除]"@,
        DiffType::Modify => "[修改]"@,
        DiffType::Equal => "[相同]"@,
    }
}

pub open spec fn text_line_info(line: Option<nat>) -> Seq<char> {
    match line {
        Some(n) => "[行 "@ + decimal(n) + "] "@,
        None => seq![],
    }
}

/// The entry of a changed record numbered `index` in a text report.
pub open spec fn text_block(it: ItemModel, index: nat) -> Seq<char> {
    let body = if it.kind == DiffType::Modify {
        match it.original {
            Some(o) => "   原文: "@ + o + "\n"@ + "   现文: "@ + it.content + "\n"@,
            None => seq![],
        }
    } else {
        "   内容: "@ + it.content + "\n"@
    };
    decimal(index) + ". "@ + text_line_info(it.line) + text_label(it.kind) + "\n"@ + body + "\n"@
}

/// The entries of the changed records of `items`, numbered from 1, and how
/// many there are.
pub open spec fn text_body(items: Seq<ItemModel>) -> (Seq<char>, nat)
    decreases items.len(),
{
    if items.len() == 0 {
        (seq![], 0)
    } else {
        let st = text_body(items.drop_last());
        let it = items.last();
        if it.kind == DiffType::Equal {
            st
        } else {
            (st.0 + text_block(it, st.1 + 1), st.1 + 1)
        }
    }
}

pub open spec fn text_stats(s: DiffStats) -> Seq<char> {
    "统计信息\n"@ + "------------------------------"@ + "\n"@ + "总变更数: "@ + decimal(
        s.total_changes as nat,
    ) + "\n"@ + "新增: "@ + decimal(s.additions as nat) + " 项, "@ + decimal(s.added_words as nat)
        + " 词\n"@ + "删除: "@ + decimal(s.deletions as nat) + " 项, "@ + decimal(
        s.deleted_words as nat,
    ) + " 词\n"@ + "修改: "@ + decimal(s.modifications as nat) + " 项\n"@ + "相似度: "@
        + percent_text(s.similarity, 2) + "%\n\n"@
}

/// The plain-text report: a title, the time stamp and the statistics where
/// the options ask for them, then one entry per changed record.
pub open spec fn text_report(
    o: ExportOptions,
    items: Seq<ItemModel>,
    s: DiffStats,
    timestamp: Seq<char>,
) -> Seq<char> {
    "文本对比报告\n"@ + "=================================================="@ + "\n"@ + (if o.include_timestamp {
        "生成时间: "@ + timestamp + "\n\n"@
    } else {
        seq![]
    }) + (if o.include_stats {
        text_stats(s)
    } else {
        seq![]
    }) + "详细差异\n"@ + "------------------------------"@ + "\n"@ + text_body(items).0
}

/// The label of a record kind in a Markdown report.
pub open spec fn markdown_label(k: DiffType) -> Seq<char> {
    match k {
        DiffType::Add => "➕"@ + " "@ + "新增"@,
        DiffType::Remove => "➖"@ + " "@ + "删除"@,
        DiffType::Modify => "✏️"@ + " "@ + "修改"@,
        DiffType::Equal => "✅"@ + " "@ + "相同"@,
    }
}

pub open spec fn markdown_line_info(line: Option<nat>) -> Seq<char> {
    match line {
        Some(n) => " (行 "@ + decimal(n) + ")"@,
        None => seq![],
    }
}

/// The section of a changed record in a Markdown report.
pub open spec fn markdown_block(it: ItemModel) -> Seq<char> {
    let body = if it.kind == DiffType::Modify {
        match it.original {
            Some(o) => "**原文:**\n```\n"@ + o + "\n```\n\n"@ + "**现文:**\n```\n"@ + it.content
                + "\n```\n\n"@,
            None => seq![],
        }
    } else {
        "```\n"@ + it.content + "\n```\n\n"@
    };
    "### "@ + markdown_label(it.kind) + markdown_line_info(it.line) + "\n\n"@ + body
}

/// The sections of the changed records of `items`.
pub open spec fn markdown_body(items: Seq<ItemModel>) -> Seq<char>
    decreases items.len(),
{
    if items.len() == 0 {
        seq![]
    } else if items.last().kind == DiffType::Equal {
        markdown_body(items.drop_last())
    } else {
        markdown_body(items.drop_last()) + markdown_block(items.last())
    }
}

pub open spec fn markdown_stats(s: DiffStats) -> Seq<char> {
    "## 统计信息\n\n"@ + "| 指标 | 数值 |\n"@ + "|------|------|\n"@ + "| 总变更数 | "@ + decimal(
        s.total_changes as nat,
    ) + " |\n"@ + "| 新增 | "@ + decimal(s.additions as nat) + " 项 ("@ + decimal(
        s.added_words as nat,
    ) + " 词) |\n"@ + "| 删除 | "@ + decimal(s.deletions as nat) + " 项 ("@ + decimal(
        s.deleted_words as nat,
    ) + " 词) |\n"@ + "| 修改 | "@ + decimal(s.modifications as nat) + " 项 |\n"@ + "| 相似度 | "@
        + percent_text(s.similarity, 2) + "% |\n\n"@
}

/// The Markdown report: a title, the time stamp and the statistics where
/// the options ask for them, then one section per changed record.
pub open spec fn markdown_report(
    o: ExportOptions,
    items: Seq<ItemModel>,
    s: DiffStats,
    timestamp: Seq<char>,
) -> Seq<char> {
    "# 文本对比报告\n\n"@ + (if o.include_timestamp {
        "*生成时间: "@ + timestamp + "*\n\n"@
    } else {
        seq![]
    }) + (if o.include_stats {
        markdown_stats(s)
    } else {
        seq![]
    }) + "## 详细差异\n\n"@ + markdown_body(items)
}

fn number_text(n: usize) -> (r: String)
    ensures
        r@ == decimal(n as nat),
{
    decimal_text(n as u128)
}

fn text_entry(it: &DiffItem, index: usize) -> (r: String)
    ensures
        r@ == text_block(it@, index as nat),
{
    let mut out = number_text(index);
    out.append(". ");
    match it.line_number {
        Some(n) => {
            out.append("[行 ");
            out.append(number_text(n).as_str());
            out.append("] ");
        },
        None => {},
    }
    let ghost before_label = out@;
    match it.diff_type {
        DiffType::Add => out.append("[新增]"),
        DiffType::Remove => out.append("[删除]"),
        DiffType::Modify => out.append("[修改]"),
        DiffType::Equal => out.append("[相同]"),
    }
    out.append("\n");
    match it.diff_type {
        DiffType::Modify => {
            match &it.original_content {
                Some(o) => {
                    out.append("   原文: ");
                    out.append(o.as_str());
                    out.append("\n");
                    out.append("   现文: ");
                    out.append(it.content.as_str());
                    out.append("\n");
                },
                None => {},
            }
        },
        _ => {
            out.append("   内容: ");
            out.append(it.content.as_str());
            out.append("\n");
        },
    }
    out.append("\n");
    proof {
        assert(out@ =~= text_block(it@, index as nat));
    }
    out
}

fn text_stats_section(s: &DiffStats) -> (r: String)
    ensures
        r@ == text_stats(*s),
{
    let mut out = String::from_str("统计信息\n");
    out.append("------------------------------");
    out.append("\n");
    out.append("总变更数: ");
    out.append(number_text(s.total_changes).as_str());
    out.append("\n");
    out.append("新增: ");
    out.append(number_text(s.additions).as_str());
    out.append(" 项, ");
    out.append(number_text(s.added_words).as_str());
    out.append(" 词\n");
    out.append("删除: ");
    out.append(number_text(s.deletions).as_str());
    out.append(" 项, ");
    out.append(number_text(s.deleted_words).as_str());
    out.append(" 词\n");
    out.append("修改: ");
    out.append(number_text(s.modifications).as_str());
    out.append(" 项\n");
    out.append("相似度: ");
    out.append(format_percent(s.similarity, 2).as_str());
    out.append("%\n\n");
    out
}

fn markdown_entry(it: &DiffItem) -> (r: String)
    ensures
        r@ == markdown_block(it@),
{
    let mut out = String::from_str("### ");
    match it.diff_type {
        DiffType::Add => out.append("➕"),
        DiffType::Remove => out.append("➖"),
        DiffType::Modify => out.append("✏️"),
        DiffType::Equal => out.append("✅"),
    }
    out.append(" ");
    match it.diff_type {
        DiffType::Add => out.append("新增"),
        DiffType::Remove => out.append("删除"),
        DiffType::Modify => out.append("修改"),
        DiffType::Equal => out.append("相同"),
    }
    match it.line_number {
        Some(n) => {
            out.append(" (行 ");
            out.append(number_text(n).as_str());
            out.append(")");
        },
        None => {},
    }
    out.append("\n\n");
    match it.diff_type {
        DiffType::Modify => {
            match &it.original_content {
                Some(o) => {
                    out.append("**原文:**\n```\n");
                    out.append(o.as_str());
                    out.append("\n```\n\n");
                    out.append("**现文:**\n```\n");
                    out.append(it.content.as_str());
                    out.append("\n```\n\n");
                },
                None => {},
            }
        },
        _ => {
            out.append("```\n");
            out.append(it.content.as_str());
            out.append("\n```\n\n");
        },
    }
    proof {
        assert(out@ =~= markdown_block(it@));
    }
    out
}

fn markdown_stats_section(s: &DiffStats) -> (r: String)
    ensures
        r@ == markdown_stats(*s),
{
    let mut out = String::from_str("## 统计信息\n\n");
    out.append("| 指标 | 数值 |\n");
    out.append("|------|------|\n");
    out.append("| 总变更数 | ");
    out.append(number_text(s.total_changes).as_str());
    out.append(" |\n");
    out.append("| 新增 | ");
    out.append(number_text(s.additions).as_str());
    out.append(" 项 (");
    out.append(number_text(s.added_words).as_str());
    out.append(" 词) |\n");
    out.append("| 删除 | ");
    out.append(number_text(s.deletions).as_str());
    out.append(" 项 (");
    out.append(number_text(s.deleted_words).as_str());
    out.append(" 词) |\n");
    out.append("| 修改 | ");
    out.append(number_text(s.modifications).as_str());
    out.append(" 项 |\n");
    out.append("| 相似度 | ");
    out.append(format_percent(s.similarity, 2).as_str());
    out.append("% |\n\n");
    out
}

impl Exporter {
    /// The plain-text report of `items` and `stats`, stamped `timestamp`.
    pub fn render_text(&self, items: &[DiffItem], stats: &DiffStats, timestamp: &str) -> (r: String)
        ensures
            r@ == text_report(self@, items_view(items@), *stats, timestamp@),
    {
        let mut out = String::from_str("文本对比报告\n");
        out.append("==================================================");
        out.append("\n");
        if self.options.include_timestamp {
            out.append("生成时间: ");
            out.append(timestamp);
            out.append("\n\n");
        }
        if self.options.include_stats {
            out.append(text_stats_section(stats).as_str());
        }
        out.append("详细差异\n");
        out.append("------------------------------");
        out.append("\n");
        let ghost head = out@;
        proof {
            assert(items_view(items@).take(0) =~= Seq::<ItemModel>::empty());
            assert(out@ =~= head + text_body(items_view(items@).take(0)).0);
        }
        let mut index: usize = 0;
        let mut i: usize = 0;
        while i < items.len()
            invariant
                i <= items.len(),
                index <= i,
                out@ == head + text_body(items_view(items@).take(i as int)).0,
                index == text_body(items_view(items@).take(i as int)).1,
            decreases items.len() - i,
        {
            let ghost iv = items_view(items@);
            proof {
                assert(iv.take(i + 1).drop_last() =~= iv.take(i as int));
                assert(iv.take(i + 1).last() == items@[i as int]@);
            }
            match items[i].diff_type {
                DiffType::Equal => {},
                _ => {
                    index = index + 1;
                    out.append(text_entry(&items[i], index).as_str());
                    proof {
                        assert(out@ =~= head + text_body(iv.take(i + 1)).0);
                    }
                },
            }
            i = i + 1;
        }
        proof {
            assert(items_view(items@).take(i as int) =~= items_view(items@));
            assert(out@ =~= text_report(self@, items_view(items@), *stats, timestamp@));
        }
        out
    }

    /// The Markdown report of `items` and `stats`, stamped `timestamp`.
    pub fn render_markdown(&self, items: &[DiffItem], stats: &DiffStats, timestamp: &str) -> (r:
        String)
        ensures
            r@ == markdown_report(self@, items_view(items@), *stats, timestamp@),
    {
        let mut out = String::from_str("# 文本对比报告\n\n");
        if self.options.include_timestamp {
            out.append("*生成时间: ");
            out.append(timestamp);
            out.append("*\n\n");
        }
        if self.options.include_stats {
            out.append(markdown_stats_section(stats).as_str());
        }
        out.append("## 详细差异\n\n");
        let ghost head = out@;
        proof {
            assert(items_view(items@).take(0) =~= Seq::<ItemModel>::empty());
            assert(out@ =~= head + markdown_body(items_view(items@).take(0)));
        }
        let mut i: usize = 0;
        while i < items.len()
            invariant
                i <= items.len(),
                out@ == head + markdown_body(items_view(items@).take(i as int)),
            decreases items.len() - i,
        {
            let ghost iv = items_view(items@);
            proof {
                assert(iv.take(i + 1).drop_last() =~= iv.take(i as int));
                assert(iv.take(i + 1).last() == items@[i as int]@);
            }
            match items[i].diff_type {
                DiffType::Equal => {},
                _ => {
                    out.append(markdown_entry(&items[i]).as_str());
                    proof {
                        assert(out@ =~= head + markdown_body(iv.take(i + 1)));
                    }
                },
            }
            i = i + 1;
        }
        proof {
            assert(items_view(items@).take(i as int) =~= items_view(items@));
            assert(out@ =~= markdown_report(self@, items_view(items@), *stats, timestamp@));
        }
        out
    }
}


pub const HTML_HEAD_0: &'static str = r#"<!DOCTYPE html>
<html lang="zh-CN">
<head>
    <meta charset="UTF-8">
    <meta name="viewport" content="width=device-width, initial-scale=1.0">
    <title>文本对比报告</title>
    <style>
        * {
            margin: 0;
            padding: 0;
            box-sizing: border-box;
        }
        
        body {
            font-family: "#;

pub const HTML_HEAD_1: &'static str = r#";
            font-size: "#;

pub const HTML_HEAD_2: &'static str = r#";
            line-height: 1.6;
            color: #333;
            background: #f5f5f5;
            padding: 20px;
        }
        
        .container {
            max-width: 1200px;
            margin: 0 auto;
            background: white;
            border-radius: 8px;
            box-shadow: 0 2px 10px rgba(0,0,0,0.1);
            overflow: hidden;
        }
        
        .header {
            background: linear-gradient(135deg, #667eea 0%, #764ba2 100%);
            color: white;
            padding: 30px;
        }
        
        .header h1 {
            font-size: 28px;
            margin-bottom: 10px;
        }
        
        .timestamp {
            opacity: 0.9;
            font-size: 14px;
        }
        
        .stats {
            display: grid;
            grid-template-columns: repeat(auto-fit, minmax(150px, 1fr));
            gap: 20px;
            padding: 30px;
            background: #fafafa;
            border-bottom: 1px solid #e0e0e0;
        }
        
        .stat-item {
            text-align: center;
        }
        
        .stat-value {
            font-size: 24px;
            font-weight: bold;
            color: #667eea;
        }
        
        .stat-label {
            font-size: 12px;
            color: #666;
            text-transform: uppercase;
            margin-top: 5px;
        }
        
        .content {
            padding: 30px;
        }
        
        .diff-item {
            margin: 10px 0;
            padding: 10px;
            border-radius: 4px;
            font-family: 'Consolas', 'Monaco', monospace;
            font-size: 14px;
            line-height: 1.5;
            word-wrap: break-word;
        }
        
        .diff-add {
            background: #e6ffed;
            border-left: 3px solid "#;

pub const HTML_HEAD_3: &'static str = r#";
        }
        
        .diff-remove {
            background: #ffebe9;
            border-left: 3px solid "#;

pub const HTML_HEAD_4: &'static str = r#";
            text-decoration: line-through;
            opacity: 0.8;
        }
        
        .diff-modify {
            background: #e0f2fe;
            border-left: 3px solid "#;

pub const HTML_HEAD_5: &'static str = r#";
        }
        
        .diff-equal {
            color: #666;
            font-size: 12px;
            opacity: 0.6;
        }
        
        .line-number {
            display: inline-block;
            width: 50px;
            color: #999;
            text-align: right;
            margin-right: 10px;
            user-select: none;
        }
        
        .footer {
            padding: 20px 30px;
            background: #fafafa;
            border-top: 1px solid #e0e0e0;
            text-align: center;
            color: #666;
            font-size: 12px;
        }
        
        @media print {
            body {
                background: white;
                padding: 0;
            }
            
            .container {
                box-shadow: none;
            }
        }
    </style>
</head>
<body>
    <div class="container">
        <div class="header">
            <h1>📊 文本对比报告</h1>"#;

pub const HTML_STAMP_0: &'static str = r#"
            <div class="timestamp">生成时间: "#;

pub const HTML_STAMP_1: &'static str = r#"</div>"#;

pub const HTML_HEADER_END: &'static str = r#"
        </div>"#;

pub const HTML_STATS_0: &'static str = r#"
        <div class="stats">
            <div class="stat-item">
                <div class="stat-value">"#;

pub const HTML_STATS_1: &'static str = r#"</div>
                <div class="stat-label">总变更</div>
            </div>
            <div class="stat-item">
                <div class="stat-value">"#;

pub const HTML_STATS_2: &'static str = r#"</div>
                <div class="stat-label">新增</div>
            </div>
            <div class="stat-item">
                <div class="stat-value">"#;

pub const HTML_STATS_3: &'static str = r#"</div>
                <div class="stat-label">删除</div>
            </div>
            <div class="stat-item">
                <div class="stat-value">"#;

pub const HTML_STATS_4: &'static str = r#"</div>
                <div class="stat-label">修改</div>
            </div>
            <div class="stat-item">
                <div class="stat-value">"#;

pub const HTML_STATS_5: &'static str = r#"%</div>
                <div class="stat-label">相似度</div>
            </div>
        </div>"#;

pub const HTML_CONTENT: &'static str = r#"
        <div class="content">"#;

pub const HTML_LINE_0: &'static str = r#"<span class="line-number">"#;

pub const HTML_LINE_1: &'static str = r#"</span>"#;

pub const HTML_ITEM_0: &'static str = r#"
            <div class="diff-item "#;

pub const HTML_ITEM_1: &'static str = r#"">
                "#;

pub const HTML_ITEM_2: &'static str = r#"
            </div>"#;

pub const HTML_FOOTER: &'static str = r#"
        </div>
        <div class="footer">
            <p>Generated by Text Diff Desktop | Powered by Tauri</p>
        </div>
    </div>
</body>
</html>"#;

/// The class of a record kind in an HTML report.
pub open spec fn html_class(k: DiffType) -> Seq<char> {
    match k {
        DiffType::Add => "diff-add"@,
        DiffType::Remove => "diff-remove"@,
        DiffType::Modify => "diff-modify"@,
        DiffType::Equal => "diff-equal"@,
    }
}

/// A character as HTML text: `&`, `<` and `>` become entities.
pub open spec fn escape_html_char(c: char) -> Seq<char> {
    if c == '&' {
        "&amp;"@
    } else if c == '<' {
        "&lt;"@
    } else if c == '>' {
        "&gt;"@
    } else {
        seq![c]
    }
}

/// `s` as HTML text.
pub open spec fn html_escaped(s: Seq<char>) -> Seq<char>
    decreases s.len(),
{
    if s.len() == 0 {
        seq![]
    } else {
        html_escaped(s.drop_last()) + escape_html_char(s.last())
    }
}

/// Relies on `html_escape::encode_text`: it replaces `&`, `<` and `>` by
/// `&amp;`, `&lt;` and `&gt;` and keeps every other character.
#[verifier::external_body]
fn encode_text(s: &str) -> (r: String)
    ensures
        r@ == html_escaped(s@),
{
    html_escape::encode_text(s).into_owned()
}

/// Relies on `chrono::Local::now` and its `%Y-%m-%d %H:%M:%S` format: the
/// local time now; nothing is promised of its text.
#[verifier::external_body]
fn local_timestamp() -> (r: String) {
    chrono::Local::now().format("%Y-%m-%d %H:%M:%S").to_string()
}

pub open spec fn html_line_span(line: Option<nat>) -> Seq<char> {
    match line {
        Some(n) => HTML_LINE_0@ + decimal(n) + HTML_LINE_1@,
        None => seq![],
    }
}

/// The element of one record in an HTML report.
pub open spec fn html_block(it: ItemModel) -> Seq<char> {
    HTML_ITEM_0@ + html_class(it.kind) + HTML_ITEM_1@ + html_line_span(it.line) + html_escaped(
        it.content,
    ) + HTML_ITEM_2@
}

/// The elements of all records of `items`, Equal ones included.
pub open spec fn html_body(items: Seq<ItemModel>) -> Seq<char>
    decreases items.len(),
{
    if items.len() == 0 {
        seq![]
    } else {
        html_body(items.drop_last()) + html_block(items.last())
    }
}

pub open spec fn html_stats(s: DiffStats) -> Seq<char> {
    HTML_STATS_0@ + decimal(s.total_changes as nat) + HTML_STATS_1@ + decimal(s.additions as nat)
        + HTML_STATS_2@ + decimal(s.deletions as nat) + HTML_STATS_3@ + decimal(
        s.modifications as nat,
    ) + HTML_STATS_4@ + percent_text(s.similarity, 1) + HTML_STATS_5@
}

/// The HTML report: a styled page with the time stamp and the statistics
/// where the options ask for them, then one element per record.
pub open spec fn html_report(
    o: ExportOptions,
    items: Seq<ItemModel>,
    s: DiffStats,
    timestamp: Seq<char>,
) -> Seq<char> {
    HTML_HEAD_0@ + o.styles.font_family@ + HTML_HEAD_1@ + o.styles.font_size@ + HTML_HEAD_2@
        + o.styles.add_color@ + HTML_HEAD_3@ + o.styles.remove_color@ + HTML_HEAD_4@
        + o.styles.modify_color@ + HTML_HEAD_5@ + (if o.include_timestamp {
        HTML_STAMP_0@ + timestamp + HTML_STAMP_1@
    } else {
        seq![]
    }) + HTML_HEADER_END@ + (if o.include_stats {
        html_stats(s)
    } else {
        seq![]
    }) + HTML_CONTENT@ + html_body(items) + HTML_FOOTER@
}

fn escape_html(s: &str) -> (r: String)
    ensures
        r@ == html_escaped(s@),
{
    encode_text(s)
}

fn html_entry(it: &DiffItem) -> (r: String)
    ensures
        r@ == html_block(it@),
{
    let mut out = String::from_str(HTML_ITEM_0);
    match it.diff_type {
        DiffType::Add => out.append("diff-add"),
        DiffType::Remove => out.append("diff-remove"),
        DiffType::Modify => out.append("diff-modify"),
        DiffType::Equal => out.append("diff-equal"),
    }
    out.append(HTML_ITEM_1);
    match it.line_number {
        Some(n) => {
            out.append(HTML_LINE_0);
            out.append(number_text(n).as_str());
            out.append(HTML_LINE_1);
        },
        None => {},
    }
    out.append(escape_html(it.content.as_str()).as_str());
    out.append(HTML_ITEM_2);
    proof {
        assert(out@ =~= html_block(it@));
    }
    out
}

fn html_stats_section(s: &DiffStats) -> (r: String)
    ensures
        r@ == html_stats(*s),
{
    let mut out = String::from_str(HTML_STATS_0);
    out.append(number_text(s.total_changes).as_str());
    out.append(HTML_STATS_1);
    out.append(number_text(s.additions).as_str());
    out.append(HTML_STATS_2);
    out.append(number_text(s.deletions).as_str());
    out.append(HTML_STATS_3);
    out.append(number_text(s.modifications).as_str());
    out.append(HTML_STATS_4);
    out.append(format_percent(s.similarity, 1).as_str());
    out.append(HTML_STATS_5);
    out
}

/// `it` itself, field by field.
pub fn clone_item(it: &DiffItem) -> (r: DiffItem)
    ensures
        r@ == it@,
{
    DiffItem {
        id: it.id.clone(),
        diff_type: it.diff_type,
        content: it.content.clone(),
        original_content: match &it.original_content {
            Some(o) => Some(o.clone()),
            None => None,
        },
        line_number: it.line_number,
        position: it.position,
    }
}

/// The records of `items` that are not Equal.
pub open spec fn changed_only(items: Seq<ItemModel>) -> Seq<ItemModel>
    decreases items.len(),
{
    if items.len() == 0 {
        seq![]
    } else if items.last().kind == DiffType::Equal {
        changed_only(items.drop_last())
    } else {
        changed_only(items.drop_last()).push(items.last())
    }
}

/// The records of `items` that are not Equal, in order: those a structured
/// report lists.
pub fn changed_items(items: &[DiffItem]) -> (r: Vec<DiffItem>)
    ensures
        items_view(r@) == changed_only(items_view(items@)),
{
    let mut out: Vec<DiffItem> = Vec::new();
    let mut i: usize = 0;
    while i < items.len()
        invariant
            i <= items.len(),
            items_view(out@) == changed_only(items_view(items@).take(i as int)),
        decreases items.len() - i,
    {
        let ghost iv = items_view(items@);
        proof {
            assert(iv.take(i + 1).drop_last() =~= iv.take(i as int));
            assert(iv.take(i + 1).last() == items@[i as int]@);
        }
        match items[i].diff_type {
            DiffType::Equal => {},
            _ => {
                let c = clone_item(&items[i]);
                proof {
                    crate::types::lemma_items_view_push(out@, c);
                }
                out.push(c);
            },
        }
        i = i + 1;
    }
    proof {
        assert(items_view(items@).take(i as int) =~= items_view(items@));
    }
    out
}

impl Exporter {
    /// The HTML report of `items` and `stats`, stamped `timestamp`.
    pub fn render_html(&self, items: &[DiffItem], stats: &DiffStats, timestamp: &str) -> (r: String)
        ensures
            r@ == html_report(self@, items_view(items@), *stats, timestamp@),
    {
        let st = &self.options.styles;
        let mut out = String::from_str(HTML_HEAD_0);
        out.append(st.font_family.as_str());
        out.append(HTML_HEAD_1);
        out.append(st.font_size.as_str());
        out.append(HTML_HEAD_2);
        out.append(st.add_color.as_str());
        out.append(HTML_HEAD_3);
        out.append(st.remove_color.as_str());
        out.append(HTML_HEAD_4);
        out.append(st.modify_color.as_str());
        out.append(HTML_HEAD_5);
        if self.options.include_timestamp {
            out.append(HTML_STAMP_0);
            out.append(timestamp);
            out.append(HTML_STAMP_1);
        }
        out.append(HTML_HEADER_END);
        if self.options.include_stats {
            out.append(html_stats_section(stats).as_str());
        }
        out.append(HTML_CONTENT);
        let ghost head = out@;
        proof {
            assert(items_view(items@).take(0) =~= Seq::<ItemModel>::empty());
            assert(out@ =~= head + html_body(items_view(items@).take(0)));
        }
        let mut i: usize = 0;
        while i < items.len()
            invariant
                i <= items.len(),
                out@ == head + html_body(items_view(items@).take(i as int)),
            decreases items.len() - i,
        {
            let ghost iv = items_view(items@);
            proof {
                assert(iv.take(i + 1).drop_last() =~= iv.take(i as int));
                assert(iv.take(i + 1).last() == items@[i as int]@);
            }
            out.append(html_entry(&items[i]).as_str());
            proof {
                assert(out@ =~= head + html_body(iv.take(i + 1)));
            }
            i = i + 1;
        }
        out.append(HTML_FOOTER);
        proof {
            assert(items_view(items@).take(i as int) =~= items_view(items@));
            assert(out@ =~= html_report(self@, items_view(items@), *stats, timestamp@));
        }
        out
    }

    /// The report in this exporter's format, stamped with the local time now,
    /// for the formats that are text (HTML, plain text, Markdown); `None` for
    /// the others.
    pub fn render_report(&self, items: &[DiffItem], stats: &DiffStats) -> (r: Option<String>)
        ensures
            (r is Some) <==> (self@.format == ExportFormat::Html || self@.format == ExportFormat::Text
                || self@.format == ExportFormat::Markdown),
            match r {
                Some(text) => exists|ts: Seq<char>|
                    {
                        ||| self@.format == ExportFormat::Html && text@ == html_report(
                            self@,
                            items_view(items@),
                            *stats,
                            ts,
                        )
                        ||| self@.format == ExportFormat::Text && text@ == text_report(
                            self@,
                            items_view(items@),
                            *stats,
                            ts,
                        )
                        ||| self@.format == ExportFormat::Markdown && text@ == markdown_report(
                            self@,
                            items_view(items@),
                            *stats,
                            ts,
                        )
                    },
                None => true,
            },
    {
        let stamp = if self.options.include_timestamp {
            local_timestamp()
        } else {
            String::new()
        };
        match self.options.format {
            ExportFormat::Html => Some(self.render_html(items, stats, stamp.as_str())),
            ExportFormat::Text => Some(self.render_text(items, stats, stamp.as_str())),
            ExportFormat::Markdown => Some(self.render_markdown(items, stats, stamp.as_str())),
            _ => None,
        }
    }
}

/// The format a name stands for: `html`, `pdf`, `docx`, `text`, `json` or
/// `markdown`.
pub open spec fn format_named(name: Seq<char>) -> Option<ExportFormat> {
    if name == "html"@ {
        Some(ExportFormat::Html)
    } else if name == "pdf"@ {
        Some(ExportFormat::Pdf)
    } else if name == "docx"@ {
        Some(ExportFormat::Docx)
    } else if name == "text"@ {
        Some(ExportFormat::Text)
    } else if name == "json"@ {
        Some(ExportFormat::Json)
    } else if name == "markdown"@ {
        Some(ExportFormat::Markdown)
    } else {
        None
    }
}

fn is_name(s: &str, lit: &str) -> (r: bool)
    ensures
        r == (s@ == lit@),
{
    String::from_str(s) == String::from_str(lit)
}

impl ExportFormat {
    /// The format called `name`, or `None` for an unknown name.
    pub fn from_name(name: &str) -> (r: Option<ExportFormat>)
        ensures
            r == format_named(name@),
    {
        if is_name(name, "html") {
            Some(ExportFormat::Html)
        } else if is_name(name, "pdf") {
            Some(ExportFormat::Pdf)
        } else if is_name(name, "docx") {
            Some(ExportFormat::Docx)
        } else if is_name(name, "text") {
            Some(ExportFormat::Text)
        } else if is_name(name, "json") {
            Some(ExportFormat::Json)
        } else if is_name(name, "markdown") {
            Some(ExportFormat::Markdown)
        } else {
            None
        }
    }
}

/// How a record's text is drawn in a word-processor report: its colour as
/// six hex digits, underlined or struck through, and a font size in
/// half-points where it differs from the default.
#[derive(Clone, Copy, Debug)]
pub struct RunStyle {
    pub color: &'static str,
    pub underline: bool,
    pub strike: bool,
    pub size: Option<usize>,
}

/// The style of the new text of a record of kind `k`: added and modified
/// text underlined in the add or modify colour, removed text struck through
/// in red, equal text small and grey.
pub open spec fn run_style_of(k: DiffType) -> (Seq<char>, bool, bool, Option<usize>) {
    match k {
        DiffType::Add => ("22c55e"@, true, false, None),
        DiffType::Remove => ("ef4444"@, false, true, None),
        DiffType::Modify => ("3b82f6"@, true, false, None),
        DiffType::Equal => ("999999"@, false, false, Some(20)),
    }
}

/// The style of a record's new text in a word-processor report.
pub fn run_style(kind: DiffType) -> (r: RunStyle)
    ensures
        (r.color@, r.underline, r.strike, r.size) == run_style_of(kind),
{
    match kind {
        DiffType::Add => RunStyle { color: "22c55e", underline: true, strike: false, size: None },
        DiffType::Remove => RunStyle { color: "ef4444", underline: false, strike: true, size: None },
        DiffType::Modify => RunStyle { color: "3b82f6", underline: true, strike: false, size: None },
        DiffType::Equal => RunStyle {
            color: "999999",
            underline: false,
            strike: false,
            size: Some(20),
        },
    }
}

/// The line label that precedes a record in a word-processor report.
pub fn line_label(n: usize) -> (r: String)
    ensures
        r@ == decimal(n as nat) + ": "@,
{
    let mut out = number_text(n);
    out.append(": ");
    out
}

} // verus!
