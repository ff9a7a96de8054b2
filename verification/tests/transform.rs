use mdbook_nix_eval::accumulator::{Action, PendingBlock};
use mdbook_nix_eval::event::{classify, parse_document, write_document, EventKind};
use mdbook_nix_eval::transform::{blocks_in, pending_blocks, plan_actions, rewrite, substitute};
use pulldown_cmark::{CodeBlockKind, CowStr, Event, HeadingLevel, LinkType, Parser, Tag, TagEnd};

fn fence(info: &str) -> Event<'static> {
    Event::Start(Tag::CodeBlock(CodeBlockKind::Fenced(CowStr::from(info.to_string()))))
}

fn end() -> Event<'static> {
    Event::End(TagEnd::CodeBlock)
}

fn text(content: &str) -> Event<'static> {
    Event::Text(CowStr::from(content.to_string()))
}

fn paragraph(content: &str) -> Vec<Event<'static>> {
    vec![Event::Start(Tag::Paragraph), text(content), Event::End(TagEnd::Paragraph)]
}

fn heading() -> Event<'static> {
    Event::Start(Tag::Heading { level: HeadingLevel::H1, id: None, classes: vec![], attrs: vec![] })
}

fn link() -> Event<'static> {
    Event::Start(Tag::Link {
        link_type: LinkType::Inline,
        dest_url: CowStr::from("https://example.org"),
        title: CowStr::from(""),
        id: CowStr::from(""),
    })
}

fn image() -> Event<'static> {
    Event::Start(Tag::Image {
        link_type: LinkType::Inline,
        dest_url: CowStr::from("a.png"),
        title: CowStr::from(""),
        id: CowStr::from(""),
    })
}

fn block(source: &str, file_name: &str, named: bool) -> PendingBlock {
    PendingBlock { source: source.to_string(), file_name: file_name.to_string(), named }
}

fn serialized(events: &[Event<'_>]) -> String {
    let mut buffer = String::new();
    pulldown_cmark_to_cmark::cmark(events.iter(), &mut buffer).unwrap();
    buffer
}

fn mixed_document() -> Vec<Event<'static>> {
    let mut events = paragraph("before");
    events.push(fence("rust"));
    events.push(text("fn main() {}\n"));
    events.push(end());
    events.push(fence("nix"));
    events.push(text("1 +"));
    events.push(text(" 1\n"));
    events.push(end());
    events.push(Event::Rule);
    events.push(fence("lib.nix"));
    events.push(text("{ a = 1; }\n"));
    events.push(end());
    events.extend(paragraph("after"));
    events
}

#[test]
fn classify_reads_the_kind_of_each_event() {
    let events = vec![
        fence("nix"),
        Event::Start(Tag::CodeBlock(CodeBlockKind::Indented)),
        end(),
        text("t"),
        heading(),
        Event::End(TagEnd::Heading(HeadingLevel::H1)),
        link(),
        Event::End(TagEnd::Link),
        image(),
        Event::End(TagEnd::Image),
        Event::Start(Tag::Paragraph),
        Event::End(TagEnd::Paragraph),
        Event::Code(CowStr::from("c")),
        Event::Html(CowStr::from("<b>")),
        Event::SoftBreak,
        Event::Rule,
    ];
    assert_eq!(
        classify(&events),
        vec![
            EventKind::FenceStart("nix".to_string()),
            EventKind::Other,
            EventKind::CodeBlockEnd,
            EventKind::Text("t".to_string()),
            EventKind::HeadingStart,
            EventKind::HeadingEnd,
            EventKind::LinkStart,
            EventKind::LinkEnd,
            EventKind::ImageStart,
            EventKind::ImageEnd,
            EventKind::Other,
            EventKind::Other,
            EventKind::Other,
            EventKind::Other,
            EventKind::Other,
            EventKind::Other,
        ]
    );
}

#[test]
fn parse_document_gives_the_parser_events() {
    let content = "# Title\n\n```nix\n1 + 1\n```\n\nSome *text*.\n";
    let events = parse_document(content);
    let expected: Vec<Event<'_>> = Parser::new(content).collect();
    assert_eq!(events, expected);
    assert_eq!(events[3], fence("nix"));
    assert_eq!(events[4], text("1 + 1\n"));
    assert_eq!(events[5], end());
    assert_eq!(parse_document(""), Vec::<Event<'_>>::new());
}

#[test]
fn plan_of_a_block_between_paragraphs() {
    let kinds = vec![
        EventKind::Other,
        EventKind::Text("before".to_string()),
        EventKind::Other,
        EventKind::FenceStart("a.nix".to_string()),
        EventKind::Text("1".to_string()),
        EventKind::Other,
        EventKind::Text("2".to_string()),
        EventKind::CodeBlockEnd,
        EventKind::CodeBlockEnd,
        EventKind::Text("after".to_string()),
    ];
    assert_eq!(
        plan_actions(&kinds),
        vec![
            Action::Pass,
            Action::Pass,
            Action::Pass,
            Action::Swallow,
            Action::Swallow,
            Action::Pass,
            Action::Swallow,
            Action::Evaluate(block("12", "a.nix", true)),
            Action::Pass,
            Action::Pass,
        ]
    );
    assert_eq!(plan_actions(&Vec::new()), Vec::<Action>::new());
}

#[test]
fn pending_blocks_lists_the_matched_blocks_in_order() {
    assert_eq!(
        pending_blocks(&mixed_document()),
        vec![block("1 + 1\n", "eval.nix", false), block("{ a = 1; }\n", "lib.nix", true)]
    );
}

#[test]
fn unmatched_document_passes_through_unchanged() {
    let mut events = paragraph("intro");
    events.push(fence("rust"));
    events.push(text("fn main() {}\n"));
    events.push(end());
    events.push(fence(""));
    events.push(text("plain\n"));
    events.push(end());
    events.push(fence("nix-shell"));
    events.push(text("nix-shell -p hello\n"));
    events.push(end());
    events.push(Event::Start(Tag::CodeBlock(CodeBlockKind::Indented)));
    events.push(text("indented\n"));
    events.push(end());
    assert_eq!(pending_blocks(&events), Vec::<PendingBlock>::new());
    assert_eq!(substitute(events.clone(), &Vec::new()), events);
    assert_eq!(substitute(events.clone(), &vec![Some("unused".to_string())]), events);
}

#[test]
fn unmatched_text_passes_through_byte_for_byte() {
    let content = "# Title\n\nSome text.\n\n```rust\nfn main() {}\n```\n\n```json\n{\"nix\": 1}\n```\n";
    assert_eq!(blocks_in(content), Vec::<PendingBlock>::new());
    let parsed: Vec<Event<'_>> = Parser::new(content).collect();
    assert_eq!(rewrite(content, &Vec::new()), Some(serialized(&parsed)));
    assert_eq!(rewrite(content, &vec![Some("unused".to_string())]), Some(serialized(&parsed)));
}

#[test]
fn each_block_is_replaced_by_one_text_event() {
    let events = mixed_document();
    let out = substitute(events, &vec![Some("FIRST".to_string()), Some("SECOND".to_string())]);
    let mut expected = paragraph("before");
    expected.push(fence("rust"));
    expected.push(text("fn main() {}\n"));
    expected.push(end());
    expected.push(text("FIRST"));
    expected.push(Event::Rule);
    expected.push(text("SECOND"));
    expected.extend(paragraph("after"));
    assert_eq!(out, expected);
}

#[test]
fn replacements_are_as_many_as_matched_blocks() {
    let events = mixed_document();
    let blocks = pending_blocks(&events);
    let renderings: Vec<Option<String>> =
        blocks.iter().map(|block| Some(format!("<<{}>>", block.file_name))).collect();
    let out = substitute(events.clone(), &renderings);
    let replaced = out.iter().filter(|event| matches!(event, Event::Text(t) if t.starts_with("<<"))).count();
    assert_eq!(replaced, blocks.len());
    assert_eq!(replaced, 2);
    let kept: Vec<Event<'static>> = out
        .iter()
        .filter(|event| !matches!(event, Event::Text(t) if t.starts_with("<<")))
        .cloned()
        .collect();
    let mut outside = paragraph("before");
    outside.push(fence("rust"));
    outside.push(text("fn main() {}\n"));
    outside.push(end());
    outside.push(Event::Rule);
    outside.extend(paragraph("after"));
    assert_eq!(kept, outside);
}

#[test]
fn a_block_without_rendering_is_dropped() {
    let events = mixed_document();
    let out = substitute(events.clone(), &vec![None, Some("SECOND".to_string())]);
    let mut expected = paragraph("before");
    expected.push(fence("rust"));
    expected.push(text("fn main() {}\n"));
    expected.push(end());
    expected.push(Event::Rule);
    expected.push(text("SECOND"));
    expected.extend(paragraph("after"));
    assert_eq!(out, expected);

    let out = substitute(events, &vec![Some("FIRST".to_string())]);
    let mut expected = paragraph("before");
    expected.push(fence("rust"));
    expected.push(text("fn main() {}\n"));
    expected.push(end());
    expected.push(text("FIRST"));
    expected.push(Event::Rule);
    expected.extend(paragraph("after"));
    assert_eq!(out, expected);
}

#[test]
fn events_inside_a_block_that_are_no_text_pass() {
    let events = vec![fence("nix"), text("a"), Event::SoftBreak, fence("nix"), text("b"), end(), text("c")];
    assert_eq!(pending_blocks(&events), vec![block("ab", "eval.nix", false)]);
    assert_eq!(
        substitute(events, &vec![Some("R".to_string())]),
        vec![Event::SoftBreak, fence("nix"), text("R"), text("c")]
    );
}

#[test]
fn a_block_that_never_ends_leaves_nothing() {
    let events = vec![text("a"), fence("x.nix"), text("b"), text("c")];
    assert_eq!(pending_blocks(&events), Vec::<PendingBlock>::new());
    assert_eq!(substitute(events, &vec![Some("R".to_string())]), vec![text("a")]);
}

#[test]
fn an_end_outside_a_block_passes() {
    let events = vec![end(), fence("nix"), end(), end()];
    assert_eq!(pending_blocks(&events), vec![block("", "eval.nix", false)]);
    assert_eq!(substitute(events, &vec![Some("R".to_string())]), vec![end(), text("R"), end()]);
}

#[test]
fn second_pass_over_the_output_changes_nothing() {
    let events = mixed_document();
    let renderings = vec![
        Some("\n\n<div>\n\n```nix\n1 + 1\n```\n\n```json\n2\n```\n</div>\n".to_string()),
        None,
    ];
    let once = substitute(events, &renderings);
    assert_eq!(pending_blocks(&once), Vec::<PendingBlock>::new());
    assert_eq!(substitute(once.clone(), &Vec::new()), once);
    assert_eq!(substitute(once.clone(), &vec![Some("again".to_string())]), once);
}

#[test]
fn a_matched_start_inside_a_block_passes_and_opens_a_block_in_a_second_pass() {
    let events = vec![fence("nix"), fence("nix"), end(), text("tail")];
    let once = substitute(events, &vec![Some("R".to_string())]);
    assert_eq!(once, vec![fence("nix"), text("R"), text("tail")]);
    assert_eq!(substitute(once, &Vec::new()), Vec::<Event<'static>>::new());
}

#[test]
fn write_document_serializes_the_events() {
    assert_eq!(write_document(&paragraph("hello")), Some("hello".to_string()));
    assert_eq!(write_document(&Vec::new()), Some(String::new()));
    let events = mixed_document();
    assert_eq!(write_document(&events), Some(serialized(&events)));
    let linked = vec![
        heading(),
        link(),
        image(),
        text("alt"),
        Event::End(TagEnd::Image),
        Event::End(TagEnd::Link),
        Event::End(TagEnd::Heading(HeadingLevel::H1)),
    ];
    assert_eq!(write_document(&linked), Some(serialized(&linked)));
}

#[test]
fn write_document_refuses_what_closes_nothing() {
    assert_eq!(write_document(&vec![Event::End(TagEnd::Link)]), None);
    assert_eq!(write_document(&vec![Event::End(TagEnd::Image)]), None);
    assert_eq!(write_document(&vec![Event::End(TagEnd::Heading(HeadingLevel::H2))]), None);
    assert_eq!(write_document(&vec![heading(), heading()]), None);
    assert_eq!(
        write_document(&vec![link(), Event::End(TagEnd::Link), Event::End(TagEnd::Link)]),
        None
    );
    assert_eq!(write_document(&vec![image(), Event::End(TagEnd::Link)]), None);
    assert_eq!(
        write_document(&vec![text("fine"), Event::End(TagEnd::Heading(HeadingLevel::H1)), text("x")]),
        None
    );
}

#[test]
fn blocks_in_reads_the_document() {
    let content = "Intro\n\n```nix\n1 + 1\n```\n\n```rust\nfn f() {}\n```\n\n```pkgs/hello.nix\n{ }: 1\n```\n";
    assert_eq!(
        blocks_in(content),
        vec![block("1 + 1\n", "eval.nix", false), block("{ }: 1\n", "pkgs/hello.nix", true)]
    );
    assert_eq!(blocks_in(""), Vec::<PendingBlock>::new());
}

#[test]
fn rewrite_puts_the_renderings_in_place() {
    let content = "Intro\n\n```nix\n1 + 1\n```\n\nOutro\n";
    let rendering = "\n\n<div style='border-left: 2px solid;'>\n\n```nix\n1 + 1\n```\n\n\n\n```json\n2\n```\n\n</div>\n\n";
    let mut expected = paragraph("Intro");
    expected.push(text(rendering));
    expected.extend(paragraph("Outro"));
    let rewritten = rewrite(content, &vec![Some(rendering.to_string())]).unwrap();
    assert_eq!(rewritten, serialized(&expected));
    assert!(rewritten.starts_with("Intro"));
    assert!(rewritten.contains("```json\n2\n```"));
    assert!(rewritten.ends_with("Outro"));
}

#[test]
fn rewrite_drops_a_block_that_was_not_evaluated() {
    let content = "Intro\n\n```nix\n1 + 1\n```\n\nOutro\n";
    let mut expected = paragraph("Intro");
    expected.extend(paragraph("Outro"));
    assert_eq!(rewrite(content, &vec![None]), Some(serialized(&expected)));
    assert_eq!(rewrite(content, &Vec::new()), Some(serialized(&expected)));
}
