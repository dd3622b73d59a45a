use pulldown_cmark::{Event, Options, Parser, Tag, TagEnd};
use vstd::prelude::*;

verus! {

/// The block structures that the chunker distinguishes in a Markdown event stream.
#[derive(Clone, Copy, PartialEq, Eq, Debug, Structural)]
pub enum BlockTag {
    Heading,
    CodeBlock,
    Paragraph,
    List,
    Table,
    Quote,
    Html,
    Other,
}

/// The shape of one Markdown event.
#[derive(Clone, Copy, PartialEq, Eq, Debug, Structural)]
pub enum EventKind {
    /// Opening of a block tagged by `tag`.
    Start,
    /// Closing of a block tagged by `tag`.
    End,
    /// A thematic break (horizontal rule).
    Rule,
    /// Inline text or inline code, carried in `text`.
    Text,
    /// A soft or hard line break.
    Break,
    /// Any other event.
    Other,
}

/// One event of a Markdown parse, with the byte range of the source it covers.
pub struct MdEvent {
    pub kind: EventKind,
    pub tag: BlockTag,
    /// The heading level (1 to 6) on heading starts and ends; 0 elsewhere.
    pub level: usize,
    /// Byte offset, in the UTF-8 source, where the event's span starts.
    pub start: usize,
    /// Byte offset, in the UTF-8 source, where the event's span ends.
    pub end: usize,
    /// The text of a `Text` event; empty elsewhere.
    pub text: String,
}

/// The mathematical content of an [`MdEvent`].
pub struct MdEventView {
    pub kind: EventKind,
    pub tag: BlockTag,
    pub level: nat,
    pub start: nat,
    pub end: nat,
    pub text: Seq<char>,
}

impl View for MdEvent {
    type V = MdEventView;

    open spec fn view(&self) -> MdEventView {
        MdEventView {
            kind: self.kind,
            tag: self.tag,
            level: self.level as nat,
            start: self.start as nat,
            end: self.end as nat,
            text: self.text@,
        }
    }
}

pub open spec fn events_view(evs: Seq<MdEvent>) -> Seq<MdEventView> {
    evs.map_values(|e: MdEvent| e@)
}

/// The event stream that pulldown-cmark yields for `text`, with tables, task lists,
/// strikethrough and footnotes enabled, each event paired with its source byte range.
pub uninterp spec fn markdown_events(text: Seq<char>) -> Seq<MdEventView>;

#[verifier::external_type_specification]
#[verifier::external_body]
pub struct ExPulldownEvent<'a>(Event<'a>);

#[verifier::external_type_specification]
#[verifier::external_body]
pub struct ExPulldownTag<'a>(Tag<'a>);

#[verifier::external_type_specification]
#[verifier::external_body]
pub struct ExPulldownTagEnd(TagEnd);

/// Runs pulldown-cmark (`Parser::new_ext(..).into_offset_iter()`) on `markdown` and records
/// each event with its byte range. The records are what pulldown-cmark yields for the text,
/// which `markdown_events` names; nothing more is claimed of them.
#[verifier::external_body]
pub(crate) fn parse_markdown_events(markdown: &str) -> (r: Vec<MdEvent>)
    ensures
        events_view(r@) == markdown_events(markdown@),
{
    let options = Options::ENABLE_TABLES | Options::ENABLE_TASKLISTS
        | Options::ENABLE_STRIKETHROUGH | Options::ENABLE_FOOTNOTES;
    Parser::new_ext(markdown, options)
        .into_offset_iter()
        .map(|(event, range)| event_record(event, range.start, range.end))
        .collect()
}

/// Copies a pulldown-cmark event into an [`MdEvent`], variant by variant.
#[verifier::external_body]
fn event_record(event: Event<'_>, start: usize, end: usize) -> MdEvent {
    let (kind, (tag, level), text) = match event {
        Event::Start(tag) => (EventKind::Start, start_tag(tag), String::new()),
        Event::End(tag) => (EventKind::End, end_tag(tag), String::new()),
        Event::Rule => (EventKind::Rule, (BlockTag::Other, 0), String::new()),
        Event::Text(t) | Event::Code(t) => (EventKind::Text, (BlockTag::Other, 0), t.to_string()),
        Event::SoftBreak | Event::HardBreak => (EventKind::Break, (BlockTag::Other, 0), String::new()),
        _ => (EventKind::Other, (BlockTag::Other, 0), String::new()),
    };
    MdEvent { kind, tag, level, start, end, text }
}

/// The block tag and heading level of a pulldown-cmark opening tag.
#[verifier::external_body]
fn start_tag(tag: Tag<'_>) -> (BlockTag, usize) {
    match tag {
        Tag::Heading { level, .. } => (BlockTag::Heading, level as usize),
        Tag::CodeBlock(_) => (BlockTag::CodeBlock, 0),
        Tag::Paragraph => (BlockTag::Paragraph, 0),
        Tag::List(_) => (BlockTag::List, 0),
        Tag::Table(_) => (BlockTag::Table, 0),
        Tag::BlockQuote(_) => (BlockTag::Quote, 0),
        Tag::HtmlBlock => (BlockTag::Html, 0),
        _ => (BlockTag::Other, 0),
    }
}

/// The block tag and heading level of a pulldown-cmark closing tag.
#[verifier::external_body]
fn end_tag(tag: TagEnd) -> (BlockTag, usize) {
    match tag {
        TagEnd::Heading(level) => (BlockTag::Heading, level as usize),
        TagEnd::CodeBlock => (BlockTag::CodeBlock, 0),
        TagEnd::Paragraph => (BlockTag::Paragraph, 0),
        TagEnd::List(_) => (BlockTag::List, 0),
        TagEnd::Table => (BlockTag::Table, 0),
        TagEnd::BlockQuote(_) => (BlockTag::Quote, 0),
        TagEnd::HtmlBlock => (BlockTag::Html, 0),
        _ => (BlockTag::Other, 0),
    }
}

} // verus!
