//! Title extraction: the text of the first top-level heading.

use crate::markup::{event_views, EventView, MarkupEvent};
use vstd::prelude::*;

verus! {

/// The event that opens a top-level heading.
pub open spec fn title_start() -> EventView {
    EventView::HeadingStart(1)
}

/// The event that closes a top-level heading.
pub open spec fn title_end() -> EventView {
    EventView::HeadingEnd(1)
}

/// The text that one event contributes to a title.
pub open spec fn text_run(event: EventView) -> Seq<char> {
    match event {
        EventView::Text(text) => text,
        _ => Seq::empty(),
    }
}

/// The text runs of `events`, concatenated in order.
pub open spec fn text_runs(events: Seq<EventView>) -> Seq<char> {
    events.map_values(|event: EventView| text_run(event)).flatten()
}

/// The part of `events` that title extraction scans: everything before the
/// first close of a top-level heading.
pub open spec fn scanned(events: Seq<EventView>) -> Seq<EventView> {
    match events.index_of_first(title_end()) {
        Some(end) => events.take(end),
        None => events,
    }
}

/// The title of a document: the text runs that follow the first opening of a
/// top-level heading, up to the first close of one. Empty when no top-level
/// heading opens before that.
pub open spec fn title_of(events: Seq<EventView>) -> Seq<char> {
    match scanned(events).index_of_first(title_start()) {
        Some(start) => text_runs(scanned(events).skip(start + 1)),
        None => Seq::empty(),
    }
}

/// Appending one event appends its text run.
proof fn lemma_text_runs_push(events: Seq<EventView>, event: EventView)
    ensures
        text_runs(events.push(event)) == text_runs(events) + text_run(event),
{
    let run = |e: EventView| text_run(e);
    assert(events.push(event).map_values(run) =~= events.map_values(run).push(text_run(event)));
    events.map_values(run).lemma_flatten_push(text_run(event));
}

/// Where `needle` stands at `index` and nowhere before it, `index` is its
/// first index.
proof fn lemma_first_index(events: Seq<EventView>, needle: EventView, index: int)
    requires
        0 <= index < events.len(),
        events[index] == needle,
        forall|j: int| 0 <= j < index ==> events[j] != needle,
    ensures
        events.index_of_first(needle) == Some(index),
{
    events.index_of_first_ensures(needle);
}

/// A sequence that nowhere holds `needle` has no first index of it.
proof fn lemma_no_first_index(events: Seq<EventView>, needle: EventView)
    requires
        forall|j: int| 0 <= j < events.len() ==> events[j] != needle,
    ensures
        events.index_of_first(needle) is None,
{
    events.index_of_first_ensures(needle);
}

/// The title of a document with a top-level heading is the text of that
/// heading: where nothing before the heading opens or closes a top-level
/// heading and nothing inside it closes one, the title is the concatenation
/// of the heading's text runs, whatever follows the heading's close.
pub proof fn lemma_title_is_heading_text(
    before: Seq<EventView>,
    heading: Seq<EventView>,
    after: Seq<EventView>,
)
    requires
        !before.contains(title_start()),
        !before.contains(title_end()),
        !heading.contains(title_end()),
    ensures
        title_of(before + seq![title_start()] + heading + seq![title_end()] + after) == text_runs(
            heading,
        ),
{
    let events = before + seq![title_start()] + heading + seq![title_end()] + after;
    let open = before.len() as int;
    let close = open + 1 + heading.len();
    assert forall|j: int| 0 <= j < close implies events[j] != title_end() by {
        if j < open {
            assert(before[j] == events[j]);
            assert(before.contains(events[j]));
        } else if j > open {
            assert(heading[j - open - 1] == events[j]);
            assert(heading.contains(events[j]));
        }
    }
    lemma_first_index(events, title_end(), close);
    let cut = events.take(close);
    assert forall|j: int| 0 <= j < open implies cut[j] != title_start() by {
        assert(before[j] == cut[j]);
        assert(before.contains(cut[j]));
    }
    lemma_first_index(cut, title_start(), open);
    assert(cut.skip(open + 1) =~= heading);
}

/// A document in which no top-level heading opens has an empty title.
pub proof fn lemma_no_heading_no_title(events: Seq<EventView>)
    requires
        !events.contains(title_start()),
    ensures
        title_of(events) == Seq::<char>::empty(),
{
    let cut = scanned(events);
    events.index_of_first_ensures(title_end());
    assert forall|j: int| 0 <= j < cut.len() implies cut[j] != title_start() by {
        assert(events[j] == cut[j]);
        assert(events.contains(cut[j]));
    }
    lemma_no_first_index(cut, title_start());
}

/// Extracts the title from the events of a document.
///
/// Text is collected from the first opening of a top-level heading on, and the
/// scan stops at the first close of a top-level heading; headings after that
/// one never contribute.
pub fn extract_title(events: &Vec<MarkupEvent>) -> (title: String)
    ensures
        title@ == title_of(event_views(events@)),
{
    let ghost views = event_views(events@);
    let ghost mut start: Option<int> = None;
    let mut title = String::new();
    let mut in_heading = false;
    let mut i: usize = 0;
    while i < events.len()
        invariant
            0 <= i <= events.len(),
            views == event_views(events@),
            forall|j: int| 0 <= j < i ==> views[j] != title_end(),
            in_heading == (start is Some),
            start matches Some(s) ==> {
                &&& 0 <= s < i
                &&& views[s] == title_start()
                &&& forall|j: int| 0 <= j < s ==> views[j] != title_start()
                &&& title@ == text_runs(views.subrange(s + 1, i as int))
            },
            start is None ==> {
                &&& forall|j: int| 0 <= j < i ==> views[j] != title_start()
                &&& title@ == Seq::<char>::empty()
            },
        ensures
            i < events.len() ==> views[i as int] == title_end(),
        decreases events.len() - i,
    {
        assert(views[i as int] == events@[i as int]@);
        match &events[i] {
            MarkupEvent::HeadingStart(level) => {
                if *level == 1 {
                    proof {
                        if !in_heading {
                            start = Some(i as int);
                            assert(views.subrange(i + 1, i + 1) =~= Seq::<EventView>::empty());
                        }
                    }
                    in_heading = true;
                }
            },
            MarkupEvent::Text(text) => {
                if in_heading {
                    title.append(text.as_str());
                }
            },
            MarkupEvent::HeadingEnd(level) => {
                if *level == 1 {
                    break ;
                }
            },
            MarkupEvent::Other => {},
        }
        proof {
            if let Some(s) = start {
                if s < i {
                    let before = views.subrange(s + 1, i as int);
                    assert(views.subrange(s + 1, i + 1) =~= before.push(views[i as int]));
                    lemma_text_runs_push(before, views[i as int]);
                    assert(text_runs(before) + Seq::<char>::empty() =~= text_runs(before));
                }
            }
        }
        i += 1;
    }
    proof {
        if i < events.len() {
            lemma_first_index(views, title_end(), i as int);
        } else {
            lemma_no_first_index(views, title_end());
        }
        let cut = scanned(views);
        assert(cut =~= views.take(i as int));
        match start {
            Some(s) => {
                lemma_first_index(cut, title_start(), s);
                assert(cut.skip(s + 1) =~= views.subrange(s + 1, i as int));
            },
            None => {
                lemma_no_first_index(cut, title_start());
            },
        }
    }
    title
}

} // verus!
