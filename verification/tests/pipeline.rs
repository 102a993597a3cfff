use slidedeck::build_page;
use slidedeck::errors::{Error, Field};
use slidedeck::front_matter::split_front_matter;
use slidedeck::meta::Metadata;
use slidedeck::notes::{parse_notes, split_body};
use slidedeck::render::{html_escape, is_date, render_page};

fn notes_text() -> String {
    "---\ntitle: Test\ndate: 2022-01-01\nlocation: Here\n---\nA\n--\nB".to_string()
}

#[test]
fn two_slides_with_fragments() {
    let (meta, frags) = parse_notes(&notes_text()).unwrap();
    assert_eq!(meta.title, "Test");
    assert_eq!(meta.date, "2022-01-01");
    assert_eq!(meta.location, "Here");
    assert!(meta.link.is_none());
    assert!(meta.event_name.is_none());
    assert_eq!(frags.len(), 2);
    assert!(frags[0].contains('A'));
    assert!(frags[1].contains('B'));
}

#[test]
fn document_references_thumbs_in_order() {
    let page = build_page(&notes_text(), 2, false).unwrap();
    let p0 = page.find("thumbs/0.jpg").unwrap();
    let p1 = page.find("thumbs/1.jpg").unwrap();
    assert!(p0 < p1);
    assert!(page.contains("Test"));
}

#[test]
fn missing_front_matter_fails() {
    let r = parse_notes("Just prose, no header\n--\nMore");
    assert_eq!(r.unwrap_err(), Error::MissingFrontMatter);
}

#[test]
fn unclosed_front_matter_fails() {
    let r = split_front_matter("---\ntitle: T\nno closing marker");
    assert_eq!(r.unwrap_err(), Error::MissingFrontMatter);
}

#[test]
fn front_matter_split() {
    let (header, body) = split_front_matter("---\ntitle: T\n---\nbody text").unwrap();
    assert_eq!(header, "title: T\n");
    assert_eq!(body, "body text");
}

#[test]
fn line_without_colon_is_malformed() {
    let r = parse_notes("---\ntitle: T\nnot a key value line\n---\nbody");
    assert_eq!(r.unwrap_err(), Error::MissingFrontMatter);
}

#[test]
fn missing_location_reported() {
    let r = parse_notes("---\ntitle: T\ndate: 2022-01-01\n---\nbody");
    assert_eq!(r.unwrap_err(), Error::MissingField(Field::Location));
}

#[test]
fn missing_title_reported_first() {
    let r = parse_notes("---\nlocation: L\n---\nbody");
    assert_eq!(r.unwrap_err(), Error::MissingField(Field::Title));
}

#[test]
fn chunk_counts() {
    assert_eq!(split_body("a\n--\nb\n--\nc").len(), 3);
    assert_eq!(split_body("").len(), 1);
    assert_eq!(split_body("a").len(), 1);
    let parts = split_body("x\n--\n");
    assert_eq!(parts.len(), 2);
    assert_eq!(parts[0], "x");
    assert_eq!(parts[1], "");
}

#[test]
fn adjacent_delimiters_split_leftmost() {
    let parts = split_body("a\n--\n--\nb");
    assert_eq!(parts.len(), 2);
    assert_eq!(parts[0], "a");
    assert_eq!(parts[1], "--\nb");
}

#[test]
fn empty_chunk_gives_empty_annotation() {
    let text = "---\ntitle: T\ndate: 2022-01-01\nlocation: L\n---\nA\n--\n\n--\nB";
    let (_, frags) = parse_notes(text).unwrap();
    assert_eq!(frags.len(), 3);
    assert_eq!(frags[1], "");
}

#[test]
fn render_empty_annotations() {
    let meta = Metadata {
        title: "Test".to_string(),
        date: "2022-01-01".to_string(),
        location: "Here".to_string(),
        link: None,
        event_name: None,
    };
    let page = render_page(&meta, &Vec::new(), 0, false).unwrap();
    assert!(page.contains("Test"));
    assert!(page.contains("2022-01-01"));
    assert!(page.contains("Here"));
    assert!(!page.contains("<tr>"));
}

#[test]
fn slide_count_mismatch() {
    let r = build_page(&notes_text(), 3, false);
    assert_eq!(r.unwrap_err(), Error::SlideCountMismatch);
}

#[test]
fn bad_date_is_template_error() {
    let text = "---\ntitle: T\ndate: Jan 1 2022\nlocation: L\n---\nA";
    assert_eq!(build_page(text, 1, false).unwrap_err(), Error::TemplateError);
    let text13 = "---\ntitle: T\ndate: 2022-13-01\nlocation: L\n---\nA";
    assert_eq!(build_page(text13, 1, false).unwrap_err(), Error::TemplateError);
}

#[test]
fn date_shapes() {
    assert!(is_date("2022-01-01"));
    assert!(is_date("1999-12-31"));
    assert!(!is_date("2022-1-01"));
    assert!(!is_date("2022-00-10"));
    assert!(!is_date("2022-01-32"));
    assert!(!is_date("2022/01/01"));
}

#[test]
fn metadata_fields_are_escaped() {
    let text = "---\ntitle: <b>&\"x\"\ndate: 2022-01-01\nlocation: L\n---\nA";
    let page = build_page(text, 1, false).unwrap();
    assert!(page.contains("&lt;b&gt;&amp;&quot;x&quot;"));
    assert!(!page.contains("<b>&"));
}

#[test]
fn escaping_is_exact() {
    assert_eq!(html_escape("<&>\"'"), "&lt;&amp;&gt;&quot;&#x27;");
    assert_eq!(html_escape("plain"), "plain");
    assert_eq!(html_escape(""), "");
}

#[test]
fn annotations_pass_through_raw_by_default() {
    let text = "---\ntitle: T\ndate: 2022-01-01\nlocation: L\n---\nkeep <video> here";
    let page = build_page(text, 1, false).unwrap();
    assert!(page.contains("<video>"));
    let escaped = build_page(text, 1, true).unwrap();
    assert!(escaped.contains("&lt;video&gt;"));
}

#[test]
fn markdown_is_rendered() {
    let text = "---\ntitle: T\ndate: 2022-01-01\nlocation: L\n---\n*x*";
    let (_, frags) = parse_notes(text).unwrap();
    assert!(frags[0].contains("<em>x</em>"));
}

#[test]
fn link_and_event_rendered() {
    let text = "---\ntitle: T\ndate: 2022-01-01\nlocation: Davis\nlink: https://example.com/conf\nevent_name: MyConf\n---\nA";
    let page = build_page(text, 1, false).unwrap();
    assert!(page.contains("<a href=\"https://example.com/conf\">MyConf</a> conference in Davis"));
}

#[test]
fn later_key_wins_and_unknown_ignored() {
    let text = "---\ntitle: First\nspeaker: Someone\ntitle: Second\ndate: 2022-01-01\nlocation: L\n---\nA";
    let (meta, _) = parse_notes(text).unwrap();
    assert_eq!(meta.title, "Second");
}

#[test]
fn same_inputs_same_page() {
    let a = build_page(&notes_text(), 2, false).unwrap();
    let b = build_page(&notes_text(), 2, false).unwrap();
    assert_eq!(a, b);
}

#[test]
fn error_messages_name_the_trouble() {
    assert!(Error::MissingFrontMatter.message().contains("front-matter"));
    assert!(Error::MissingField(Field::Date).message().contains("date"));
    assert!(Error::SlideCountMismatch.message().contains("pages"));
}
