//! The Markdown parser behind the converter, and the part of its output that
//! the converter reads.

use pulldown_cmark::{html, Event, Options, Parser, Tag};
use vstd::prelude::*;

verus! {

/// Parser extension: pipe tables. The bit of
/// `pulldown_cmark::Options::ENABLE_TABLES`.
pub const ENABLE_TABLES: u32 = 2;

/// Parser extension: footnote references and definitions. The bit of
/// `pulldown_cmark::Options::ENABLE_FOOTNOTES`.
pub const ENABLE_FOOTNOTES: u32 = 4;

/// Parser extension: `~~struck~~` text. The bit of
/// `pulldown_cmark::Options::ENABLE_STRIKETHROUGH`.
pub const ENABLE_STRIKETHROUGH: u32 = 8;

/// Parser extension: `- [ ]` and `- [x]` list items. The bit of
/// `pulldown_cmark::Options::ENABLE_TASKLISTS`.
pub const ENABLE_TASKLISTS: u32 = 16;

/// One parser event, reduced to what title extraction looks at.
#[derive(Clone, Debug, PartialEq, Eq)]
pub enum MarkupEvent {
    /// A heading of the given level (1 to 6) opens.
    HeadingStart(u8),
    /// A heading of the given level closes.
    HeadingEnd(u8),
    /// A run of plain text.
    Text(String),
    /// Any other event.
    Other,
}

/// The mathematical value of a [`MarkupEvent`].
pub enum EventView {
    HeadingStart(u8),
    HeadingEnd(u8),
    Text(Seq<char>),
    Other,
}

impl View for MarkupEvent {
    type V = EventView;

    open spec fn view(&self) -> EventView {
        match self {
            MarkupEvent::HeadingStart(level) => EventView::HeadingStart(*level),
            MarkupEvent::HeadingEnd(level) => EventView::HeadingEnd(*level),
            MarkupEvent::Text(text) => EventView::Text(text@),
            MarkupEvent::Other => EventView::Other,
        }
    }
}

/// The values of a sequence of events, in order.
pub open spec fn event_views(events: Seq<MarkupEvent>) -> Seq<EventView> {
    events.map_values(|event: MarkupEvent| event@)
}

/// The events that the parser yields for `source` with the extensions in
/// `options` switched on, each reduced to its [`EventView`].
pub uninterp spec fn markdown_events(source: Seq<char>, options: u32) -> Seq<EventView>;

/// The HTML fragment that the parser's renderer writes for `source` with the
/// extensions in `options` switched on.
pub uninterp spec fn markdown_html(source: Seq<char>, options: u32) -> Seq<char>;

/// Runs `pulldown_cmark::Parser::new_ext` over `source` and collects the
/// events it yields. Trusted: the events are a function of the source text and
/// the option bits alone, so the result is the one named by
/// [`markdown_events`]. Bits that name no extension are ignored.
#[verifier::external_body]
pub(crate) fn parse_events(source: &str, options: u32) -> (events: Vec<MarkupEvent>)
    ensures
        event_views(events@) == markdown_events(source@, options),
{
    let mut events = Vec::new();
    for event in Parser::new_ext(source, Options::from_bits_truncate(options)) {
        events.push(match event {
            Event::Start(Tag::Heading(level, _, _)) => MarkupEvent::HeadingStart(level as u8),
            Event::End(Tag::Heading(level, _, _)) => MarkupEvent::HeadingEnd(level as u8),
            Event::Text(text) => MarkupEvent::Text(text.into_string()),
            _ => MarkupEvent::Other,
        });
    }
    events
}

/// Runs `pulldown_cmark::html::push_html` on a fresh string with a parser over
/// `source`. Trusted: the fragment is a function of the source text and the
/// option bits alone, so the result is the one named by [`markdown_html`].
#[verifier::external_body]
pub(crate) fn render_html(source: &str, options: u32) -> (fragment: String)
    ensures
        fragment@ == markdown_html(source@, options),
{
    let mut fragment = String::new();
    html::push_html(&mut fragment, Parser::new_ext(source, Options::from_bits_truncate(options)));
    fragment
}

} // verus!
