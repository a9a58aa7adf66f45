//! The HTML pages that are served: the shell around a converted document, the
//! index of all documents, and the page for an unknown name.
//!
//! Identifiers and titles are placed into the pages as they are.

use crate::cache::{HtmlCache, Rendered};
use vstd::prelude::*;

verus! {

/// Opening of a document page, up to the text of its title element.
pub const DOCUMENT_HEAD: &'static str =
    "<!DOCTYPE html>\n<html>\n<head>\n<meta charset=\"UTF-8\">\n<title>";

/// Between the title text and the converted fragment: the fixed style block.
pub const DOCUMENT_STYLE: &'static str =
    "</title>\n<style>\nbody { font-family: Arial, sans-serif; line-height: 1.6; padding: 20px; max-width: 800px; margin: 0 auto; }\npre { background-color: #f4f4f4; padding: 12px; border-radius: 4px; overflow-x: auto; }\ncode { background-color: #f4f4f4; padding: 2px 4px; border-radius: 4px; }\n</style>\n</head>\n<body>\n";

/// Closing of a document page.
pub const DOCUMENT_TAIL: &'static str = "\n</body>\n</html>";

/// Opening of the index page, up to the first list item.
pub const INDEX_HEAD: &'static str =
    "<!DOCTYPE html>\n<html>\n<head>\n<title>Markdown Files</title>\n<style>\nbody { font-family: Arial, sans-serif; line-height: 1.6; padding: 20px; max-width: 800px; margin: 0 auto; }\nli { margin-bottom: 8px; }\n</style>\n</head>\n<body>\n<h1>Available Files</h1>\n<ul>\n";

/// Closing of the index page, after the last list item.
pub const INDEX_TAIL: &'static str = "\n</ul>\n</body>\n</html>";

/// Opening of a list item of the index, up to the link target.
pub const ITEM_OPEN: &'static str = "<li><a href=\"/";

/// Between the link target and the visible text of a list item.
pub const ITEM_LINK: &'static str = "\">";

/// Between the identifier and the title in the visible text of a list item.
pub const ITEM_DELIMITER: &'static str = " - ";

/// Closing of a list item of the index.
pub const ITEM_CLOSE: &'static str = "</a></li>";

/// Between two list items of the index.
pub const ITEM_BREAK: &'static str = "\n";

/// Shown in the index in place of an empty title.
pub const NO_TITLE: &'static str = "[No title]";

/// Opening of the page for an unknown name.
pub const NOT_FOUND_OPEN: &'static str = "<h1>File not found: ";

/// Closing of the page for an unknown name.
pub const NOT_FOUND_CLOSE: &'static str = "</h1>";

/// The title shown in a document page's title element: the extracted title,
/// or the document's identifier where the title is empty.
pub open spec fn displayed_title(identifier: Seq<char>, title: Seq<char>) -> Seq<char> {
    if title.len() == 0 {
        identifier
    } else {
        title
    }
}

/// The title shown in the index: the extracted title, or the placeholder
/// where the title is empty.
pub open spec fn listed_title(title: Seq<char>) -> Seq<char> {
    if title.len() == 0 {
        NO_TITLE@
    } else {
        title
    }
}

/// A complete document page around a converted fragment.
pub open spec fn document_text(identifier: Seq<char>, title: Seq<char>, fragment: Seq<char>) -> Seq<
    char,
> {
    DOCUMENT_HEAD@ + displayed_title(identifier, title) + DOCUMENT_STYLE@ + fragment
        + DOCUMENT_TAIL@
}

/// One list item of the index: a link to the document, whose visible text is
/// the identifier, the delimiter and the listed title.
pub open spec fn item_text(identifier: Seq<char>, title: Seq<char>) -> Seq<char> {
    ITEM_OPEN@ + identifier + ITEM_LINK@ + identifier + ITEM_DELIMITER@ + listed_title(title)
        + ITEM_CLOSE@
}

/// The list items for `entries`, in order.
pub open spec fn item_texts(entries: Seq<(Seq<char>, Rendered)>) -> Seq<Seq<char>> {
    entries.map_values(|entry: (Seq<char>, Rendered)| item_text(entry.0, entry.1.title))
}

/// `items` with a line break between each two neighbours.
pub open spec fn joined(items: Seq<Seq<char>>) -> Seq<char>
    decreases items.len(),
{
    if items.len() == 0 {
        Seq::empty()
    } else if items.len() == 1 {
        items[0]
    } else {
        joined(items.drop_last()) + ITEM_BREAK@ + items.last()
    }
}

/// The index page for `entries`.
pub open spec fn index_text(entries: Seq<(Seq<char>, Rendered)>) -> Seq<char> {
    INDEX_HEAD@ + joined(item_texts(entries)) + INDEX_TAIL@
}

/// The page for a name under which nothing is stored.
pub open spec fn not_found_text(name: Seq<char>) -> Seq<char> {
    NOT_FOUND_OPEN@ + name + NOT_FOUND_CLOSE@
}

/// `needle` occurs in `text` as a contiguous run.
pub open spec fn occurs_in(needle: Seq<char>, text: Seq<char>) -> bool {
    exists|at: int|
        0 <= at <= text.len() - needle.len() && #[trigger] text.subrange(at, at + needle.len())
            == needle
}

/// The index of an empty cache has an empty list: nothing stands between
/// the opening and the closing of the page.
pub proof fn lemma_empty_index()
    ensures
        index_text(Seq::empty()) == INDEX_HEAD@ + INDEX_TAIL@,
{
    assert(item_texts(Seq::empty()) =~= Seq::<Seq<char>>::empty());
    assert(INDEX_HEAD@ + Seq::<char>::empty() =~= INDEX_HEAD@);
}

/// The page for an unknown name says so and names it.
pub proof fn lemma_not_found_names_request(name: Seq<char>)
    ensures
        occurs_in("File not found: "@ + name, not_found_text(name)),
{
    reveal_strlit("File not found: ");
    reveal_strlit("<h1>File not found: ");
    let text = not_found_text(name);
    let needle = "File not found: "@ + name;
    assert(text.subrange(4, 4 + needle.len() as int) =~= needle);
}

/// Every entry of the cache has its list item in the index, with a link to
/// `/` followed by its identifier.
pub proof fn lemma_index_lists_entry(entries: Seq<(Seq<char>, Rendered)>, position: int)
    requires
        0 <= position < entries.len(),
    ensures
        occurs_in(item_text(entries[position].0, entries[position].1.title), index_text(entries)),
        occurs_in(
            "<a href=\"/"@ + entries[position].0 + "\">"@,
            item_text(entries[position].0, entries[position].1.title),
        ),
{
    let items = item_texts(entries);
    lemma_joined_holds_item(items, position);
    let item = items[position];
    let list = joined(items);
    let at = choose|at: int|
        0 <= at <= list.len() - item.len() && #[trigger] list.subrange(at, at + item.len())
            == item;
    let page = index_text(entries);
    let shifted = INDEX_HEAD@.len() + at;
    assert(page.subrange(shifted, shifted + item.len()) =~= item);

    reveal_strlit("<li><a href=\"/");
    reveal_strlit("<a href=\"/");
    reveal_strlit("\">");
    let link = "<a href=\"/"@ + entries[position].0 + "\">"@;
    assert(item.subrange(4, 4 + link.len() as int) =~= link);
}

/// Each item occurs in the joined list.
pub proof fn lemma_joined_holds_item(items: Seq<Seq<char>>, position: int)
    requires
        0 <= position < items.len(),
    ensures
        occurs_in(items[position], joined(items)),
    decreases items.len(),
{
    let list = joined(items);
    let item = items[position];
    if items.len() == 1 {
        assert(list.subrange(0, item.len() as int) =~= item);
    } else if position == items.len() - 1 {
        let at = list.len() - item.len();
        assert(list.subrange(at, at + item.len()) =~= item);
    } else {
        lemma_joined_holds_item(items.drop_last(), position);
        let shorter = joined(items.drop_last());
        let at = choose|at: int|
            0 <= at <= shorter.len() - item.len() && #[trigger] shorter.subrange(
                at,
                at + item.len(),
            ) == item;
        assert(list.subrange(at, at + item.len()) =~= item);
    }
}

/// Wraps a converted fragment in the document shell.
pub fn wrap_document(identifier: &str, title: &str, fragment: &str) -> (page: String)
    ensures
        page@ == document_text(identifier@, title@, fragment@),
{
    let mut page = String::from_str(DOCUMENT_HEAD);
    if title.is_empty() {
        page.append(identifier);
    } else {
        page.append(title);
    }
    page.append(DOCUMENT_STYLE);
    page.append(fragment);
    page.append(DOCUMENT_TAIL);
    page
}

/// Builds one list item of the index.
pub fn index_item(identifier: &str, title: &str) -> (item: String)
    ensures
        item@ == item_text(identifier@, title@),
{
    let mut item = String::from_str(ITEM_OPEN);
    item.append(identifier);
    item.append(ITEM_LINK);
    item.append(identifier);
    item.append(ITEM_DELIMITER);
    if title.is_empty() {
        item.append(NO_TITLE);
    } else {
        item.append(title);
    }
    item.append(ITEM_CLOSE);
    item
}

/// Builds the index page: one list item per document, in the order in which
/// the cache enumerates them.
pub fn index_page(cache: &HtmlCache) -> (page: String)
    requires
        cache.wf(),
    ensures
        page@ == index_text(cache@.entries()),
{
    let ghost items = item_texts(cache@.entries());
    let mut page = String::from_str(INDEX_HEAD);
    let mut list = String::new();
    let count = cache.len();
    let mut i: usize = 0;
    while i < count
        invariant
            cache.wf(),
            count == cache@.identifiers.len(),
            items == item_texts(cache@.entries()),
            0 <= i <= count,
            list@ == joined(items.take(i as int)),
        decreases count - i,
    {
        if i > 0 {
            list.append(ITEM_BREAK);
        }
        if let Some((identifier, info)) = cache.entry_at(i) {
            let item = index_item(identifier.as_str(), info.title.as_str());
            list.append(item.as_str());
        }
        proof {
            let longer = items.take(i + 1);
            assert(longer.drop_last() =~= items.take(i as int));
            assert(longer.last() == items[i as int]);
            assert(Seq::<char>::empty() + items[i as int] =~= items[i as int]);
        }
        i += 1;
    }
    proof {
        assert(items.take(count as int) =~= items);
    }
    page.append(list.as_str());
    page.append(INDEX_TAIL);
    page
}

/// Builds the page for a name under which nothing is stored.
pub fn not_found_page(name: &str) -> (page: String)
    ensures
        page@ == not_found_text(name@),
{
    let mut page = String::from_str(NOT_FOUND_OPEN);
    page.append(name);
    page.append(NOT_FOUND_CLOSE);
    page
}

} // verus!
