//! The dispatcher: which page a request path asks for, and the response to
//! it from the cache.

use crate::cache::{CacheView, HtmlCache};
use crate::loader::{is_markdown_name, lemma_nothing_to_load, loaded, SourceText};
use crate::page::{
    index_page, index_text, lemma_empty_index, lemma_not_found_names_request, not_found_page,
    not_found_text, occurs_in, INDEX_HEAD, INDEX_TAIL,
};
use vstd::prelude::*;

verus! {

/// The status of every response: the request was served.
pub const STATUS_OK: u16 = 200;

/// The content type of every response: HTML in UTF-8.
pub const CONTENT_TYPE: &'static str = "text/html; charset=utf-8";

/// What a request path asks for.
#[derive(Clone, Debug, PartialEq, Eq)]
pub enum Route {
    /// The index of all documents.
    Index,
    /// The document of the given name.
    Document(String),
    /// Nothing that is served.
    Unmatched,
}

/// The mathematical value of a [`Route`].
pub enum RouteView {
    Index,
    Document(Seq<char>),
    Unmatched,
}

impl View for Route {
    type V = RouteView;

    open spec fn view(&self) -> RouteView {
        match self {
            Route::Index => RouteView::Index,
            Route::Document(name) => RouteView::Document(name@),
            Route::Unmatched => RouteView::Unmatched,
        }
    }
}

/// A response: its status, its content type and its body.
#[derive(Clone, Debug, PartialEq, Eq)]
pub struct Response {
    pub status: u16,
    pub content_type: &'static str,
    pub body: String,
}

/// The mathematical value of a [`Response`].
pub struct ResponseView {
    pub status: u16,
    pub content_type: Seq<char>,
    pub body: Seq<char>,
}

impl View for Response {
    type V = ResponseView;

    open spec fn view(&self) -> ResponseView {
        ResponseView {
            status: self.status,
            content_type: self.content_type@,
            body: self.body@,
        }
    }
}

/// The path without the slash that it begins with.
pub open spec fn after_root(path: Seq<char>) -> Seq<char> {
    if path.len() > 0 && path[0] == '/' {
        path.skip(1)
    } else {
        path
    }
}

/// The part of `rest` before its first slash; all of it where it has none.
pub open spec fn first_segment(rest: Seq<char>) -> Seq<char> {
    match rest.index_of_first('/') {
        Some(end) => rest.take(end),
        None => rest,
    }
}

/// The route of a request path. The root is the index. Any other path asks
/// for the document named by its first segment, whatever follows that
/// segment; a path whose first segment is empty asks for nothing. The path is
/// taken as it is written: nothing in it is decoded.
pub open spec fn route_of(path: Seq<char>) -> RouteView {
    let rest = after_root(path);
    if rest.len() == 0 {
        RouteView::Index
    } else if first_segment(rest).len() == 0 {
        RouteView::Unmatched
    } else {
        RouteView::Document(first_segment(rest))
    }
}

/// The body of the response to a request for the document `name`: the stored
/// page, or the page that says that nothing is stored under `name`.
pub open spec fn document_body(cache: CacheView, name: Seq<char>) -> Seq<char> {
    if cache.documents.contains_key(name) {
        cache.documents[name].html_content
    } else {
        not_found_text(name)
    }
}

/// The response that carries `body`: its status is [`STATUS_OK`] and its
/// content type is [`CONTENT_TYPE`].
pub open spec fn served(body: Seq<char>) -> ResponseView {
    ResponseView { status: STATUS_OK, content_type: CONTENT_TYPE@, body }
}

/// The response to a route. Every route that is served is answered with
/// [`STATUS_OK`], a request for an unknown document too.
pub open spec fn response_to(cache: CacheView, route: RouteView) -> Option<ResponseView> {
    match route {
        RouteView::Index => Some(served(index_text(cache.entries()))),
        RouteView::Document(name) => Some(served(document_body(cache, name))),
        RouteView::Unmatched => None,
    }
}

/// A request for a name under which nothing is stored is served, whatever
/// the cache holds: the status is 200, the content is HTML, and the body says
/// `File not found: ` and the name.
pub proof fn lemma_unknown_name_is_served(cache: CacheView, name: Seq<char>)
    requires
        !cache.documents.contains_key(name),
    ensures
        response_to(cache, RouteView::Document(name)) matches Some(response) && {
            &&& response.status == 200
            &&& response.content_type == CONTENT_TYPE@
            &&& response.body == not_found_text(name)
            &&& occurs_in("File not found: "@ + name, response.body)
        },
{
    lemma_not_found_names_request(name);
}

/// A folder without a document loads nothing into an empty cache, and the
/// index is then served with an empty list.
pub proof fn lemma_folder_without_documents(files: Seq<SourceText>)
    requires
        forall|i: int| 0 <= i < files.len() ==> !is_markdown_name(#[trigger] files[i].file_name),
    ensures
        loaded(CacheView::empty(), files) == CacheView::empty(),
        response_to(loaded(CacheView::empty(), files), RouteView::Index) == Some(
            served(INDEX_HEAD@ + INDEX_TAIL@),
        ),
{
    lemma_nothing_to_load(CacheView::empty(), files);
    lemma_empty_index();
    assert(CacheView::empty().entries() =~= Seq::empty());
}

/// A slash followed by a name without a slash asks for the document of that
/// name, and the slash alone asks for the index.
pub proof fn lemma_route_of_name(name: Seq<char>)
    requires
        !name.contains('/'),
    ensures
        route_of(seq!['/'] + name) == if name.len() == 0 {
            RouteView::Index
        } else {
            RouteView::Document(name)
        },
{
    let path = seq!['/'] + name;
    assert(after_root(path) =~= name);
    name.index_of_first_ensures('/');
}

/// Finds the route of a request path.
pub fn route(path: &str) -> (found: Route)
    ensures
        found@ == route_of(path@),
{
    let length = path.unicode_len();
    let start: usize = if length > 0 && path.get_char(0) == '/' {
        1
    } else {
        0
    };
    if start == length {
        return Route::Index;
    }
    let mut end: usize = start;
    let mut inside = true;
    let mut position: usize = 0;
    for c in chars: path.chars()
        invariant
            chars.seq() == path@,
            length == path@.len(),
            position == chars.index(),
            start <= 1,
            start <= end <= length,
            forall|j: int| start <= j < end ==> path@[j] != '/',
            inside ==> end == if position < start {
                start
            } else {
                position
            },
            !inside ==> end < position && path@[end as int] == '/',
    {
        if inside && position >= start {
            if c == '/' {
                inside = false;
            } else {
                end = position + 1;
            }
        }
        position = position + 1;
    }
    proof {
        let rest = after_root(path@);
        assert(rest =~= path@.skip(start as int));
        assert forall|j: int| 0 <= j < end - start implies rest[j] != '/' by {
            assert(rest[j] == path@[start + j]);
        }
        rest.index_of_first_ensures('/');
        if inside {
            assert(end == length);
            assert(first_segment(rest) =~= path@.subrange(start as int, end as int));
        } else {
            assert(rest[end - start] == '/');
            assert(rest.contains('/'));
            assert(first_segment(rest) =~= path@.subrange(start as int, end as int));
        }
    }
    if end == start {
        Route::Unmatched
    } else {
        Route::Document(String::from_str(path.substring_char(start, end)))
    }
}

/// The body of the response to a request for the document `name`.
pub fn document_page(cache: &HtmlCache, name: &str) -> (body: String)
    ensures
        body@ == document_body(cache@, name@),
{
    match cache.get(name) {
        Some(info) => info.html_content.clone(),
        None => not_found_page(name),
    }
}

/// Answers a request path from the cache; `None` for a path that asks for
/// nothing that is served.
pub fn respond(cache: &HtmlCache, path: &str) -> (response: Option<Response>)
    requires
        cache.wf(),
    ensures
        match response {
            Some(served) => response_to(cache@, route_of(path@)) == Some(served@),
            None => response_to(cache@, route_of(path@)) is None,
        },
{
    match route(path) {
        Route::Index => Some(
            Response { status: STATUS_OK, content_type: CONTENT_TYPE, body: index_page(cache) },
        ),
        Route::Document(name) => Some(
            Response {
                status: STATUS_OK,
                content_type: CONTENT_TYPE,
                body: document_page(cache, name.as_str()),
            },
        ),
        Route::Unmatched => None,
    }
}

} // verus!
