//! Documents read from files: their model, the checks made before reading,
//! and the text extraction that does not need an outside parser.
use vstd::prelude::*;
use crate::text::{chars_of, lower_of, lowercase, string_from_chars, word_count};
use crate::stats::text_word_count;
use crate::segment::{join_with_spaces, views_of};
use crate::text::join_with;
use crate::markdown::{collect_events, markdown_events_of, markdown_text};
use scraper::{Html, Selector};

verus! {

/// Why a file could not be turned into a document.
#[derive(Debug)]
pub enum ParseError {
    UnsupportedFormat(String),
    /// The file could not be read; the message of the I/O error.
    ReadError(String),
    ParseFailed(String),
    /// The file's size and the limit, both in whole megabytes.
    FileTooLarge(usize, usize),
}

#[derive(Clone, Copy, Debug, PartialEq, Eq, Structural)]
pub enum DocumentFormat {
    PlainText,
    Docx,
    Pdf,
    Odt,
    Rtf,
    Html,
    Markdown,
}

#[derive(Clone, Debug)]
pub struct DocumentMetadata {
    pub title: Option<String>,
    pub author: Option<String>,
    pub created_date: Option<String>,
    pub modified_date: Option<String>,
    pub word_count: usize,
    pub page_count: Option<usize>,
}

#[derive(Clone, Debug)]
pub enum StyleType {
    Bold,
    Italic,
    Underline,
    Strikethrough,
    Heading(u8),
    Link(String),
}

/// A style over the byte range `[start, end)` of a document's content.
#[derive(Clone, Debug)]
pub struct StyleInfo {
    pub start: usize,
    pub end: usize,
    pub style_type: StyleType,
}

#[derive(Clone, Debug)]
pub struct ParsedDocument {
    pub format: DocumentFormat,
    pub content: String,
    pub metadata: DocumentMetadata,
    pub styles: Option<Vec<StyleInfo>>,
}

/// A document with the given content, title and styles, its word count
/// taken from the content and no other metadata.
pub fn text_document(
    format: DocumentFormat,
    content: String,
    title: Option<String>,
    styles: Option<Vec<StyleInfo>>,
) -> (r: ParsedDocument)
    ensures
        r.format == format,
        r.content == content,
        r.metadata.title == title,
        r.metadata.author is None,
        r.metadata.created_date is None,
        r.metadata.modified_date is None,
        r.metadata.word_count == word_count(content@),
        r.metadata.page_count is None,
        r.styles == styles,
{
    let word_count = text_word_count(&content);
    ParsedDocument {
        format,
        content,
        metadata: DocumentMetadata {
            title,
            author: None,
            created_date: None,
            modified_date: None,
            word_count,
            page_count: None,
        },
        styles,
    }
}

/// The format a lower-case file extension stands for.
pub open spec fn format_of_extension(e: Seq<char>) -> Option<DocumentFormat> {
    if e == "txt"@ || e == "text"@ {
        Some(DocumentFormat::PlainText)
    } else if e == "docx"@ {
        Some(DocumentFormat::Docx)
    } else if e == "pdf"@ {
        Some(DocumentFormat::Pdf)
    } else if e == "odt"@ {
        Some(DocumentFormat::Odt)
    } else if e == "rtf"@ {
        Some(DocumentFormat::Rtf)
    } else if e == "html"@ || e == "htm"@ {
        Some(DocumentFormat::Html)
    } else if e == "md"@ || e == "markdown"@ {
        Some(DocumentFormat::Markdown)
    } else {
        None
    }
}

fn same_text(s: &String, lit: &str) -> (r: bool)
    ensures
        r == (s@ == lit@),
{
    let t = String::from_str(lit);
    *s == t
}

/// Megabytes in whole units, as the size limit counts them.
pub open spec fn whole_megabytes(bytes: nat) -> nat {
    bytes / (1024 * 1024)
}

/// The characters of `s` outside `<...>` tags.
pub open spec fn scan_xml(s: Seq<char>) -> (Seq<char>, bool)
    decreases s.len(),
{
    if s.len() == 0 {
        (seq![], false)
    } else {
        let st = scan_xml(s.drop_last());
        let c = s.last();
        if c == '<' {
            (st.0, true)
        } else if c == '>' {
            (st.0, false)
        } else if !st.1 {
            (st.0.push(c), st.1)
        } else {
            st
        }
    }
}

/// The text of an RTF source: characters inside braces that are not part of
/// a control word (a backslash up to the next space or line break).
pub open spec fn scan_rtf(s: Seq<char>) -> (Seq<char>, bool, int)
    decreases s.len(),
{
    if s.len() == 0 {
        (seq![], false, 0)
    } else {
        let st = scan_rtf(s.drop_last());
        let c = s.last();
        if c == '{' {
            (st.0, st.1, st.2 + 1)
        } else if c == '}' {
            (st.0, st.1, st.2 - 1)
        } else if c == '\\' && st.2 > 0 {
            (st.0, true, st.2)
        } else if (c == ' ' || c == '\n' || c == '\r') && st.1 {
            (st.0, false, st.2)
        } else if !st.1 && st.2 > 0 {
            (st.0.push(c), st.1, st.2)
        } else {
            st
        }
    }
}

proof fn lemma_rtf_depth(s: Seq<char>)
    ensures
        -s.len() <= scan_rtf(s).2 <= s.len(),
    decreases s.len(),
{
    if s.len() > 0 {
        lemma_rtf_depth(s.drop_last());
    }
}

/// Reads documents up to a size limit.
pub struct FileParser {
    max_file_size_mb: usize,
}

impl FileParser {
    /// A parser with a limit of 50 MB.
    pub fn new() -> (r: Self)
        ensures
            r.max_size_mb() == 50,
    {
        FileParser { max_file_size_mb: 50 }
    }

    pub fn with_max_size(max_size_mb: usize) -> (r: Self)
        ensures
            r.max_size_mb() == max_size_mb,
    {
        FileParser { max_file_size_mb: max_size_mb }
    }

    pub closed spec fn max_size_mb(&self) -> usize {
        self.max_file_size_mb
    }

    /// The size limit in megabytes.
    pub fn max_file_size_mb(&self) -> (r: usize)
        ensures
            r == self.max_size_mb(),
    {
        self.max_file_size_mb
    }

    /// Refuses a file of `file_size` bytes whose whole megabytes exceed the
    /// limit.
    pub fn check_file_size(&self, file_size: usize) -> (r: Result<(), ParseError>)
        ensures
            whole_megabytes(file_size as nat) > self.max_size_mb() <==> r is Err,
            match r {
                Err(ParseError::FileTooLarge(size, max)) => size == whole_megabytes(file_size as nat)
                    && max == self.max_size_mb(),
                Err(_) => false,
                Ok(_) => true,
            },
    {
        let size_mb = file_size / (1024 * 1024);
        if size_mb > self.max_file_size_mb {
            Err(ParseError::FileTooLarge(size_mb, self.max_file_size_mb))
        } else {
            Ok(())
        }
    }

    /// The format of a file with extension `extension`, compared without
    /// regard to case.
    pub fn format_for_extension(&self, extension: &str) -> (r: Result<DocumentFormat, ParseError>)
        ensures
            match r {
                Ok(f) => format_of_extension(lower_of(extension@)) == Some(f),
                Err(ParseError::UnsupportedFormat(e)) => format_of_extension(lower_of(extension@))
                    is None && e@ == lower_of(extension@),
                Err(_) => false,
            },
    {
        let ext = lowercase(extension);
        if same_text(&ext, "txt") || same_text(&ext, "text") {
            Ok(DocumentFormat::PlainText)
        } else if same_text(&ext, "docx") {
            Ok(DocumentFormat::Docx)
        } else if same_text(&ext, "pdf") {
            Ok(DocumentFormat::Pdf)
        } else if same_text(&ext, "odt") {
            Ok(DocumentFormat::Odt)
        } else if same_text(&ext, "rtf") {
            Ok(DocumentFormat::Rtf)
        } else if same_text(&ext, "html") || same_text(&ext, "htm") {
            Ok(DocumentFormat::Html)
        } else if same_text(&ext, "md") || same_text(&ext, "markdown") {
            Ok(DocumentFormat::Markdown)
        } else {
            Err(ParseError::UnsupportedFormat(ext))
        }
    }

    /// The text of an XML source outside its tags.
    pub fn extract_text_from_xml(&self, xml: &str) -> (r: String)
        ensures
            r@ == scan_xml(xml@).0,
    {
        let s = chars_of(xml);
        let mut result: Vec<char> = Vec::new();
        let mut in_tag = false;
        let mut i: usize = 0;
        while i < s.len()
            invariant
                i <= s.len(),
                result@ == scan_xml(s@.take(i as int)).0,
                in_tag == scan_xml(s@.take(i as int)).1,
            decreases s.len() - i,
        {
            proof {
                assert(s@.take(i + 1).drop_last() =~= s@.take(i as int));
            }
            let ch = s[i];
            if ch == '<' {
                in_tag = true;
            } else if ch == '>' {
                in_tag = false;
            } else if !in_tag {
                result.push(ch);
            }
            i = i + 1;
        }
        proof {
            assert(s@.take(i as int) =~= xml@);
        }
        string_from_chars(result.as_slice())
    }

    /// The text of an RTF source without braces and control words.
    pub fn extract_text_from_rtf(&self, rtf: &str) -> (r: String)
        ensures
            r@ == scan_rtf(rtf@).0,
    {
        let s = chars_of(rtf);
        let mut result: Vec<char> = Vec::new();
        let mut in_control = false;
        let mut brace_depth: i128 = 0;
        let mut i: usize = 0;
        while i < s.len()
            invariant
                i <= s.len(),
                result@ == scan_rtf(s@.take(i as int)).0,
                in_control == scan_rtf(s@.take(i as int)).1,
                brace_depth == scan_rtf(s@.take(i as int)).2,
            decreases s.len() - i,
        {
            proof {
                assert(s@.take(i + 1).drop_last() =~= s@.take(i as int));
                lemma_rtf_depth(s@.take(i as int));
            }
            let ch = s[i];
            if ch == '{' {
                brace_depth = brace_depth + 1;
            } else if ch == '}' {
                brace_depth = brace_depth - 1;
            } else if ch == '\\' && brace_depth > 0 {
                in_control = true;
            } else if (ch == ' ' || ch == '\n' || ch == '\r') && in_control {
                in_control = false;
            } else if !in_control && brace_depth > 0 {
                result.push(ch);
            }
            i = i + 1;
        }
        proof {
            assert(s@.take(i as int) =~= rtf@);
        }
        string_from_chars(result.as_slice())
    }
}

/// The text nodes of the `body` element of an HTML source, in document
/// order, as scraper parses it; `None` where there is no body.
pub uninterp spec fn body_texts_of(src: Seq<char>) -> Option<Seq<Seq<char>>>;

/// The text of the first `title` element of an HTML source, as scraper
/// parses it; `None` where there is none.
pub uninterp spec fn title_of(src: Seq<char>) -> Option<Seq<char>>;

/// Relies on scraper's `Html::parse_document`, `Selector` and
/// `ElementRef::text`: the text nodes of the first `body` element.
#[verifier::external_body]
fn html_body_texts(src: &str) -> (r: Option<Vec<String>>)
    ensures
        match r {
            Some(v) => body_texts_of(src@) == Some(views_of(v@)),
            None => body_texts_of(src@) is None,
        },
{
    let document = Html::parse_document(src);
    let body = Selector::parse("body").unwrap();
    document.select(&body).next().map(|b| b.text().map(|t| t.to_string()).collect())
}

/// Relies on scraper's `Html::parse_document`, `Selector` and
/// `ElementRef::text`: the concatenated text of the first `title` element.
#[verifier::external_body]
fn html_title(src: &str) -> (r: Option<String>)
    ensures
        match r {
            Some(t) => title_of(src@) == Some(t@),
            None => title_of(src@) is None,
        },
{
    let document = Html::parse_document(src);
    let title = Selector::parse("title").unwrap();
    document.select(&title).next().map(|el| el.text().collect::<String>())
}

impl FileParser {
    /// A plain-text document.
    pub fn text_source_document(&self, content: String, title: Option<String>) -> (r:
        ParsedDocument)
        ensures
            r.format == DocumentFormat::PlainText,
            r.content == content,
            r.metadata.title == title,
            r.metadata.word_count == word_count(content@),
            r.styles is None,
    {
        text_document(DocumentFormat::PlainText, content, title, None)
    }

    /// The document of an RTF source: its text without control words.
    pub fn rtf_source_document(&self, rtf: &str, title: Option<String>) -> (r: ParsedDocument)
        ensures
            r.format == DocumentFormat::Rtf,
            r.content@ == scan_rtf(rtf@).0,
            r.metadata.title == title,
            r.metadata.word_count == word_count(r.content@),
            r.styles is None,
    {
        let content = self.extract_text_from_rtf(rtf);
        text_document(DocumentFormat::Rtf, content, title, None)
    }

    /// The document of an OpenDocument text whose `content.xml` is `xml`.
    pub fn odt_content_document(&self, xml: &str, title: Option<String>) -> (r: ParsedDocument)
        ensures
            r.format == DocumentFormat::Odt,
            r.content@ == scan_xml(xml@).0,
            r.metadata.title == title,
            r.metadata.word_count == word_count(r.content@),
            r.styles is None,
    {
        let content = self.extract_text_from_xml(xml);
        text_document(DocumentFormat::Odt, content, title, None)
    }

    /// The document of a Markdown source: its text and the styles that
    /// start in it.
    pub fn markdown_source_document(&self, source: &str, title: Option<String>) -> (r:
        ParsedDocument)
        ensures
            r.format == DocumentFormat::Markdown,
            r.content@ == collect_events(markdown_events_of(source@)).0,
            r.metadata.title == title,
            r.metadata.word_count == word_count(r.content@),
            match r.styles {
                Some(v) => v@ == collect_events(markdown_events_of(source@)).1,
                None => false,
            },
    {
        let parsed = markdown_text(source);
        text_document(DocumentFormat::Markdown, parsed.content, title, Some(parsed.styles))
    }

    /// The document of an HTML source: the text nodes of its body joined by
    /// spaces (empty without a body), titled by its `title` element.
    pub fn html_source_document(&self, source: &str) -> (r: ParsedDocument)
        ensures
            r.format == DocumentFormat::Html,
            r.content@ == match body_texts_of(source@) {
                Some(t) => join_with(t, ' '),
                None => Seq::<char>::empty(),
            },
            match r.metadata.title {
                Some(t) => title_of(source@) == Some(t@),
                None => title_of(source@) is None,
            },
            r.metadata.word_count == word_count(r.content@),
            r.styles is None,
    {
        let content = match html_body_texts(source) {
            Some(texts) => join_with_spaces(&texts),
            None => String::new(),
        };
        let title = html_title(source);
        text_document(DocumentFormat::Html, content, title, None)
    }
}

/// A source of text recognised in images.
pub trait OcrEngine {
    fn extract_text(&self, image_path: &str) -> Result<String, ParseError>;
}

/// Tesseract recognition settings: the language to recognise.
pub struct TesseractOcr {
    lang: String,
}

impl TesseractOcr {
    pub fn new(lang: &str) -> (r: Self)
        ensures
            r.lang()@ == lang@,
    {
        TesseractOcr { lang: String::from_str(lang) }
    }

    pub closed spec fn lang(&self) -> String {
        self.lang
    }

    /// The language code.
    pub fn language(&self) -> (r: &str)
        ensures
            r@ == self.lang()@,
    {
        self.lang.as_str()
    }
}

} // verus!
