//! The converter: from the source text of a document to its title and its
//! complete HTML page.

use crate::cache::{MarkdownInfo, Rendered};
use crate::markup::{
    event_views, markdown_events, markdown_html, parse_events, render_html, EventView,
    MarkupEvent, ENABLE_FOOTNOTES, ENABLE_STRIKETHROUGH, ENABLE_TABLES, ENABLE_TASKLISTS,
};
use crate::page::{
    document_text, item_text, wrap_document, DOCUMENT_HEAD, DOCUMENT_STYLE, DOCUMENT_TAIL,
    ITEM_CLOSE, ITEM_DELIMITER, ITEM_LINK, ITEM_OPEN, NO_TITLE,
};
use crate::title::{
    extract_title, lemma_no_heading_no_title, lemma_title_is_heading_text, text_runs, title_end,
    title_of, title_start,
};
use vstd::prelude::*;

verus! {

/// The parser extensions that every conversion switches on: tables,
/// footnotes, strikethrough and task lists.
pub const EXTENSIONS: u32 = ENABLE_TABLES | ENABLE_FOOTNOTES | ENABLE_STRIKETHROUGH
    | ENABLE_TASKLISTS;

/// The rendered document for what the parser made of a source: the title is
/// read off the events, and the page is the shell around the fragment.
pub open spec fn rendering(identifier: Seq<char>, events: Seq<EventView>, fragment: Seq<char>)
    -> Rendered {
    Rendered {
        title: title_of(events),
        html_content: document_text(identifier, title_of(events), fragment),
    }
}

/// The rendered document for a source text: its rendering from the events
/// and the fragment that the parser produces for it with [`EXTENSIONS`].
pub open spec fn converted(identifier: Seq<char>, source: Seq<char>) -> Rendered {
    rendering(
        identifier,
        markdown_events(source, EXTENSIONS),
        markdown_html(source, EXTENSIONS),
    )
}

/// Builds the rendered document from the parser's events and HTML fragment.
pub fn assemble(identifier: &str, events: &Vec<MarkupEvent>, fragment: &str) -> (info:
    MarkdownInfo)
    ensures
        info@ == rendering(identifier@, event_views(events@), fragment@),
{
    let title = extract_title(events);
    let html_content = wrap_document(identifier, title.as_str(), fragment);
    MarkdownInfo { title, html_content }
}

/// Converts the source text of the document `identifier`.
///
/// The source is parsed twice, once for the title and once for the HTML
/// fragment. The identifier only serves as the page's title where the source
/// has no top-level heading.
pub fn parse_markdown_file(identifier: &str, markdown_content: &str) -> (info: MarkdownInfo)
    ensures
        info@ == converted(identifier@, markdown_content@),
{
    let events = parse_events(markdown_content, EXTENSIONS);
    let fragment = render_html(markdown_content, EXTENSIONS);
    assemble(identifier, &events, fragment.as_str())
}

/// A document without a top-level heading has an empty title, carries its
/// identifier in the title element of its page, and is listed in the index
/// with the placeholder in place of a title.
pub proof fn lemma_untitled_document(
    identifier: Seq<char>,
    events: Seq<EventView>,
    fragment: Seq<char>,
)
    requires
        !events.contains(title_start()),
    ensures
        rendering(identifier, events, fragment).title == Seq::<char>::empty(),
        rendering(identifier, events, fragment).html_content == DOCUMENT_HEAD@ + identifier
            + DOCUMENT_STYLE@ + fragment + DOCUMENT_TAIL@,
        item_text(identifier, rendering(identifier, events, fragment).title) == ITEM_OPEN@
            + identifier + ITEM_LINK@ + identifier + ITEM_DELIMITER@ + NO_TITLE@ + ITEM_CLOSE@,
{
    lemma_no_heading_no_title(events);
}

/// A document with a top-level heading that holds some text carries that text
/// in the title element of its page, whatever follows the heading.
pub proof fn lemma_titled_document(
    identifier: Seq<char>,
    before: Seq<EventView>,
    heading: Seq<EventView>,
    after: Seq<EventView>,
    fragment: Seq<char>,
)
    requires
        !before.contains(title_start()),
        !before.contains(title_end()),
        !heading.contains(title_end()),
        text_runs(heading).len() > 0,
    ensures
        ({
            let events = before + seq![title_start()] + heading + seq![title_end()] + after;
            &&& rendering(identifier, events, fragment).title == text_runs(heading)
            &&& rendering(identifier, events, fragment).html_content == DOCUMENT_HEAD@
                + text_runs(heading) + DOCUMENT_STYLE@ + fragment + DOCUMENT_TAIL@
        }),
{
    lemma_title_is_heading_text(before, heading, after);
}

/// Conversion is a function of the identifier and the source text: any two
/// results of converting the same source hold the same title and the same
/// page, character for character and so byte for byte.
pub proof fn lemma_conversion_deterministic(
    identifier: Seq<char>,
    source: Seq<char>,
    first: MarkdownInfo,
    second: MarkdownInfo,
)
    requires
        first@ == converted(identifier, source),
        second@ == converted(identifier, source),
    ensures
        first.title@ == second.title@,
        first.html_content@ == second.html_content@,
        vstd::utf8::encode_utf8(first.html_content@) == vstd::utf8::encode_utf8(
            second.html_content@,
        ),
{
}

} // verus!
