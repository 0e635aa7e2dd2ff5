//! The text and styles of a Markdown source.
use vstd::prelude::*;
use crate::file_parser::{StyleInfo, StyleType};
use crate::stats::byte_len;
use pulldown_cmark::{Event, Parser, Tag};

verus! {

/// The events of a Markdown source that its text and styles depend on.
#[derive(Clone, Debug)]
pub enum MarkdownEvent {
    /// The start of a heading of level 1 to 6.
    HeadingStart(u8),
    EmphasisStart,
    StrongStart,
    Text(String),
    Code(String),
    /// A soft or hard line break.
    Break,
    /// Any other event.
    Other,
}

/// A [`MarkdownEvent`] with its text as a character sequence.
pub enum MarkdownEventModel {
    HeadingStart(u8),
    EmphasisStart,
    StrongStart,
    Text(Seq<char>),
    Code(Seq<char>),
    Break,
    Other,
}

impl View for MarkdownEvent {
    type V = MarkdownEventModel;

    open spec fn view(&self) -> MarkdownEventModel {
        match self {
            MarkdownEvent::HeadingStart(l) => MarkdownEventModel::HeadingStart(*l),
            MarkdownEvent::EmphasisStart => MarkdownEventModel::EmphasisStart,
            MarkdownEvent::StrongStart => MarkdownEventModel::StrongStart,
            MarkdownEvent::Text(t) => MarkdownEventModel::Text(t@),
            MarkdownEvent::Code(t) => MarkdownEventModel::Code(t@),
            MarkdownEvent::Break => MarkdownEventModel::Break,
            MarkdownEvent::Other => MarkdownEventModel::Other,
        }
    }
}

pub open spec fn events_view(v: Seq<MarkdownEvent>) -> Seq<MarkdownEventModel> {
    v.map_values(|e: MarkdownEvent| e@)
}

/// What pulldown-cmark's parser yields for a source, with default options:
/// it depends on the source alone.
pub uninterp spec fn markdown_events_of(src: Seq<char>) -> Seq<MarkdownEventModel>;

/// Relies on `pulldown_cmark::Parser::new`: the events of `src`, each told
/// apart by variant, with its text moved out.
#[verifier::external_body]
fn markdown_events(src: &str) -> (r: Vec<MarkdownEvent>)
    ensures
        events_view(r@) == markdown_events_of(src@),
{
    Parser::new(src).map(|e| match e {
        Event::Start(Tag::Heading(level, ..)) => MarkdownEvent::HeadingStart(level as u8),
        Event::Start(Tag::Emphasis) => MarkdownEvent::EmphasisStart,
        Event::Start(Tag::Strong) => MarkdownEvent::StrongStart,
        Event::Text(t) => MarkdownEvent::Text(t.into_string()),
        Event::Code(t) => MarkdownEvent::Code(t.into_string()),
        Event::SoftBreak | Event::HardBreak => MarkdownEvent::Break,
        _ => MarkdownEvent::Other,
    }).collect()
}

/// The text of a Markdown source and the styles that start in it.
pub struct MarkdownText {
    pub content: String,
    pub styles: Vec<StyleInfo>,
}

/// A style that starts and ends at byte `pos`.
pub open spec fn style_at(pos: nat, t: StyleType) -> StyleInfo {
    StyleInfo { start: pos as usize, end: pos as usize, style_type: t }
}

/// The text and the styles after reading `ev`: text and code are appended,
/// a break adds a newline, and a heading, emphasis or strong start records a
/// style at the byte length of the text so far.
pub open spec fn collect_events(ev: Seq<MarkdownEventModel>) -> (Seq<char>, Seq<StyleInfo>)
    decreases ev.len(),
{
    if ev.len() == 0 {
        (seq![], seq![])
    } else {
        let st = collect_events(ev.drop_last());
        let pos = byte_len(st.0);
        match ev.last() {
            MarkdownEventModel::HeadingStart(l) => (st.0, st.1.push(style_at(pos, StyleType::Heading(l)))),
            MarkdownEventModel::EmphasisStart => (st.0, st.1.push(style_at(pos, StyleType::Italic))),
            MarkdownEventModel::StrongStart => (st.0, st.1.push(style_at(pos, StyleType::Bold))),
            MarkdownEventModel::Text(t) => (st.0 + t, st.1),
            MarkdownEventModel::Code(t) => (st.0 + t, st.1),
            MarkdownEventModel::Break => (st.0.push('\n'), st.1),
            MarkdownEventModel::Other => st,
        }
    }
}

fn style_record(pos: usize, t: StyleType) -> (r: StyleInfo)
    ensures
        r == style_at(pos as nat, t),
{
    StyleInfo { start: pos, end: pos, style_type: t }
}

/// The text and styles of a sequence of Markdown events.
pub fn collect_markdown(events: &Vec<MarkdownEvent>) -> (r: MarkdownText)
    ensures
        r.content@ == collect_events(events_view(events@)).0,
        r.styles@ == collect_events(events_view(events@)).1,
{
    let ghost ev = events_view(events@);
    let mut content = String::new();
    let mut styles: Vec<StyleInfo> = Vec::new();
    let mut i: usize = 0;
    while i < events.len()
        invariant
            i <= events.len(),
            ev == events_view(events@),
            content@ == collect_events(ev.take(i as int)).0,
            styles@ == collect_events(ev.take(i as int)).1,
        decreases events.len() - i,
    {
        proof {
            assert(ev.take(i + 1).drop_last() =~= ev.take(i as int));
            assert(ev.take(i + 1).last() == events@[i as int]@);
        }
        let current_pos = content.as_str().len();
        match &events[i] {
            MarkdownEvent::HeadingStart(l) => {
                styles.push(style_record(current_pos, StyleType::Heading(*l)));
            },
            MarkdownEvent::EmphasisStart => {
                styles.push(style_record(current_pos, StyleType::Italic));
            },
            MarkdownEvent::StrongStart => {
                styles.push(style_record(current_pos, StyleType::Bold));
            },
            MarkdownEvent::Text(t) => {
                content.append(t.as_str());
            },
            MarkdownEvent::Code(t) => {
                content.append(t.as_str());
            },
            MarkdownEvent::Break => {
                content.append("\n");
                proof {
                    reveal_strlit("\n");
                }
            },
            MarkdownEvent::Other => {},
        }
        proof {
            assert(content@ =~= collect_events(ev.take(i + 1)).0);
            assert(styles@ =~= collect_events(ev.take(i + 1)).1);
        }
        i = i + 1;
    }
    proof {
        assert(ev.take(i as int) =~= ev);
    }
    MarkdownText { content, styles }
}

/// The text and styles of the Markdown source `src`.
pub fn markdown_text(src: &str) -> (r: MarkdownText)
    ensures
        r.content@ == collect_events(markdown_events_of(src@)).0,
        r.styles@ == collect_events(markdown_events_of(src@)).1,
{
    let events = markdown_events(src);
    collect_markdown(&events)
}

} // verus!
