use render::markup::MarkupEvent;
use render::title::extract_title;

fn text(run: &str) -> MarkupEvent {
    MarkupEvent::Text(run.to_string())
}

#[test]
fn title_is_text_of_first_heading() {
    let events = vec![MarkupEvent::HeadingStart(1), text("Alpha"), MarkupEvent::HeadingEnd(1)];
    assert_eq!(extract_title(&events), "Alpha");
}

#[test]
fn title_joins_all_text_runs_of_heading() {
    let events = vec![
        MarkupEvent::HeadingStart(1),
        text("Hello "),
        MarkupEvent::Other,
        text("wide"),
        MarkupEvent::Other,
        text(" world"),
        MarkupEvent::HeadingEnd(1),
    ];
    assert_eq!(extract_title(&events), "Hello wide world");
}

#[test]
fn title_ignores_what_follows_heading() {
    let heading = vec![MarkupEvent::HeadingStart(1), text("Alpha"), MarkupEvent::HeadingEnd(1)];
    let mut with_text = heading.clone();
    with_text.push(text("more"));
    let mut with_heading = heading.clone();
    with_heading.push(MarkupEvent::HeadingStart(1));
    with_heading.push(text("Beta"));
    with_heading.push(MarkupEvent::HeadingEnd(1));
    assert_eq!(extract_title(&heading), "Alpha");
    assert_eq!(extract_title(&with_text), "Alpha");
    assert_eq!(extract_title(&with_heading), "Alpha");
}

#[test]
fn title_skips_text_before_heading() {
    let events = vec![
        MarkupEvent::Other,
        text("intro"),
        MarkupEvent::Other,
        MarkupEvent::HeadingStart(1),
        text("Alpha"),
        MarkupEvent::HeadingEnd(1),
    ];
    assert_eq!(extract_title(&events), "Alpha");
}

#[test]
fn title_empty_without_events() {
    assert_eq!(extract_title(&Vec::new()), "");
}

#[test]
fn title_empty_without_top_level_heading() {
    let events = vec![
        MarkupEvent::Other,
        text("plain"),
        MarkupEvent::Other,
        MarkupEvent::HeadingStart(2),
        text("Section"),
        MarkupEvent::HeadingEnd(2),
    ];
    assert_eq!(extract_title(&events), "");
}

#[test]
fn title_passes_over_lower_headings_before_first() {
    let events = vec![
        MarkupEvent::HeadingStart(3),
        text("Minor"),
        MarkupEvent::HeadingEnd(3),
        MarkupEvent::HeadingStart(1),
        text("Major"),
        MarkupEvent::HeadingEnd(1),
    ];
    assert_eq!(extract_title(&events), "Major");
}

#[test]
fn title_of_heading_without_text_is_empty() {
    let events = vec![
        MarkupEvent::HeadingStart(1),
        MarkupEvent::Other,
        MarkupEvent::HeadingEnd(1),
        text("after"),
    ];
    assert_eq!(extract_title(&events), "");
}

#[test]
fn title_of_unclosed_heading_runs_to_the_end() {
    let events = vec![MarkupEvent::HeadingStart(1), text("Al"), MarkupEvent::Other, text("pha")];
    assert_eq!(extract_title(&events), "Alpha");
}

#[test]
fn title_scan_stops_at_first_close() {
    let events = vec![
        text("stray"),
        MarkupEvent::HeadingEnd(1),
        MarkupEvent::HeadingStart(1),
        text("Late"),
        MarkupEvent::HeadingEnd(1),
    ];
    assert_eq!(extract_title(&events), "");
}

#[test]
fn title_keeps_text_of_nested_lower_heading_marks() {
    let events = vec![
        MarkupEvent::HeadingStart(1),
        text("A"),
        MarkupEvent::HeadingStart(2),
        text("B"),
        MarkupEvent::HeadingEnd(2),
        text("C"),
        MarkupEvent::HeadingEnd(1),
    ];
    assert_eq!(extract_title(&events), "ABC");
}
