//! Markdown as a stream of events, and its conversion to HTML.
//!
//! The parsing and the HTML come from `pulldown_cmark`. Of each event this
//! module keeps what the rest of the crate reads: the kind of the event, the
//! level of a heading and the characters of a text.

use vstd::prelude::*;
use pulldown_cmark::Event::{End, Start};
use pulldown_cmark::{html, Event, Options, Parser, Tag, TagEnd};
use crate::markdown::MdEvent::{
    CodeBlockEnd, CodeBlockStart, HardBreak, HeadingEnd, HeadingStart, ImageEnd, ImageStart, Other,
    ParagraphEnd, SoftBreak,
};

verus! {

/// Tables.
pub const TABLES: u32 = 2;

/// Footnotes.
pub const FOOTNOTES: u32 = 4;

/// Strikethrough.
pub const STRIKETHROUGH: u32 = 8;

/// Task lists.
pub const TASKLISTS: u32 = 16;

/// Identifiers and classes on headings.
pub const HEADING_ATTRIBUTES: u32 = 64;

/// The extensions that are on when a page is converted to HTML.
pub const PAGE_EXTENSIONS: u32 = TABLES | FOOTNOTES | STRIKETHROUGH | TASKLISTS | HEADING_ATTRIBUTES;

/// The extensions that are on when an excerpt is taken for the search index.
pub const EXCERPT_EXTENSIONS: u32 = TABLES | FOOTNOTES | STRIKETHROUGH | TASKLISTS;

/// One event of a document, as far as this crate reads it.
#[derive(Debug, Clone, PartialEq, Eq)]
pub enum MdEvent {
    /// A heading of the given level (1 to 6) begins
    HeadingStart(u8),
    /// The heading ends
    HeadingEnd,
    /// A code block begins
    CodeBlockStart,
    /// The code block ends
    CodeBlockEnd,
    /// An image begins; what follows up to its end is its alternative text
    ImageStart,
    /// The image ends
    ImageEnd,
    /// A paragraph ends
    ParagraphEnd,
    /// A run of text
    Text(String),
    /// An inline code span
    Code(String),
    /// A line break that the source has and the output need not
    SoftBreak,
    /// A line break that the output keeps
    HardBreak,
    /// Any other event
    Other,
}

impl MdEvent {
    /// A heading that begins has a level from 1 to 6.
    pub open spec fn level_in_range(self) -> bool {
        self matches MdEvent::HeadingStart(level) ==> 1 <= level <= 6
    }
}

/// The events that `pulldown_cmark` reads from `markdown` with the extensions
/// whose bits are set in `options`.
pub uninterp spec fn markdown_events(markdown: Seq<char>, options: u32) -> Seq<MdEvent>;

/// `pulldown_cmark::Parser::new_ext`, run to its end: every event that the
/// parser yields for `markdown`, in order, each reduced to its kind, a
/// heading's level and a text's characters. The parser's `HeadingLevel` has
/// the six levels `H1 = 1` to `H6`, so every level is one of 1 to 6.
#[verifier::external_body]
pub(crate) fn parse_events(markdown: &str, options: u32) -> (r: Vec<MdEvent>)
    ensures
        r@ == markdown_events(markdown@, options),
        forall|i: int| 0 <= i < r@.len() ==> (#[trigger] r@[i]).level_in_range(),
{
    Parser::new_ext(markdown, Options::from_bits_truncate(options)).map(|event| match event {
        Start(Tag::Heading { level, .. }) => HeadingStart(level as u8),
        Start(Tag::CodeBlock(_)) => CodeBlockStart,
        Start(Tag::Image { .. }) => ImageStart,
        End(TagEnd::Heading(_)) => HeadingEnd,
        End(TagEnd::CodeBlock) => CodeBlockEnd,
        End(TagEnd::Image) => ImageEnd,
        End(TagEnd::Paragraph) => ParagraphEnd,
        Event::Text(text) => MdEvent::Text(text.into_string()),
        Event::Code(text) => MdEvent::Code(text.into_string()),
        Event::SoftBreak => SoftBreak,
        Event::HardBreak => HardBreak,
        _ => Other,
    }).collect()
}

/// The HTML that `pulldown_cmark` writes for `markdown` with the extensions
/// whose bits are set in `options`.
pub uninterp spec fn markdown_html(markdown: Seq<char>, options: u32) -> Seq<char>;

/// `pulldown_cmark::html::push_html` on the events of `markdown`: the HTML of
/// the whole document.
#[verifier::external_body]
pub(crate) fn render_html(markdown: &str, options: u32) -> (r: String)
    ensures
        r@ == markdown_html(markdown@, options),
{
    let mut out = String::new();
    html::push_html(&mut out, Parser::new_ext(markdown, Options::from_bits_truncate(options)));
    out
}

} // verus!
