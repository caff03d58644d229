use mdbook_fix_cjk_spacing::join::{join_events, serialization_outcome, tokens_of};
use mdbook_fix_cjk_spacing::{JoinError, Token};
use pulldown_cmark::{CodeBlockKind, CowStr, Event, LinkType, Tag};

#[test]
fn tokens_of_reads_text_and_soft_breaks() {
    let events = vec![
        Event::Start(Tag::Paragraph),
        Event::Text(CowStr::from("中文")),
        Event::SoftBreak,
        Event::Text(CowStr::from(String::from("测试"))),
        Event::End(Tag::Paragraph),
    ];
    assert_eq!(
        tokens_of(&events),
        vec![Token::Start, Token::Text("中文"), Token::SoftBreak, Token::Text("测试"), Token::End]
    );
}

#[test]
fn tokens_of_mirrors_every_other_event() {
    let events = vec![
        Event::Start(Tag::Emphasis),
        Event::End(Tag::Emphasis),
        Event::Code(CowStr::from("中")),
        Event::Html(CowStr::from("<b>")),
        Event::FootnoteReference(CowStr::from("中")),
        Event::HardBreak,
        Event::Rule,
        Event::TaskListMarker(true),
    ];
    assert_eq!(
        tokens_of(&events),
        vec![
            Token::Start,
            Token::End,
            Token::Code("中"),
            Token::Html("<b>"),
            Token::FootnoteReference("中"),
            Token::HardBreak,
            Token::Rule,
            Token::TaskListMarker(true),
        ]
    );
    assert_eq!(tokens_of(&[]), Vec::<Token>::new());
}

#[test]
fn join_events_drops_the_break_between_cjk_texts() {
    let events = vec![
        Event::Start(Tag::Paragraph),
        Event::Text(CowStr::from("中文")),
        Event::SoftBreak,
        Event::Text(CowStr::from("测试")),
        Event::End(Tag::Paragraph),
    ];
    assert_eq!(
        join_events(events),
        vec![
            Event::Start(Tag::Paragraph),
            Event::Text(CowStr::from("中文")),
            Event::Text(CowStr::from("测试")),
            Event::End(Tag::Paragraph),
        ]
    );
}

#[test]
fn join_events_looks_through_a_link_to_its_label() {
    let link = || Tag::Link(LinkType::Inline, CowStr::from("http://"), CowStr::from(""));
    let latin_label = vec![
        Event::Text(CowStr::from("中")),
        Event::Start(link()),
        Event::Text(CowStr::from("Text")),
        Event::End(link()),
        Event::SoftBreak,
        Event::Text(CowStr::from("文")),
    ];
    assert_eq!(join_events(latin_label.clone()), latin_label);
    let cjk_label = vec![
        Event::Text(CowStr::from("中")),
        Event::Start(link()),
        Event::Text(CowStr::from("链接")),
        Event::End(link()),
        Event::SoftBreak,
        Event::Text(CowStr::from("文")),
    ];
    let joined = join_events(cjk_label.clone());
    assert_eq!(joined.len(), 5);
    assert_eq!(joined[..4], cjk_label[..4]);
    assert_eq!(joined[4], cjk_label[5]);
}

#[test]
fn join_events_passes_over_inline_code_and_footnote_references() {
    let events = vec![
        Event::Text(CowStr::from("中文")),
        Event::Code(CowStr::from("code")),
        Event::FootnoteReference(CowStr::from("foot")),
        Event::SoftBreak,
        Event::Text(CowStr::from("测试")),
    ];
    let joined = join_events(events.clone());
    assert_eq!(joined.len(), 4);
    assert!(!joined.contains(&Event::SoftBreak));
}

#[test]
fn join_events_keeps_hard_breaks_and_code_block_text() {
    let events = vec![
        Event::Start(Tag::CodeBlock(CodeBlockKind::Fenced(CowStr::from("")))),
        Event::Text(CowStr::from("中文\n")),
        Event::Text(CowStr::from("测试\n")),
        Event::End(Tag::CodeBlock(CodeBlockKind::Fenced(CowStr::from("")))),
        Event::Start(Tag::Paragraph),
        Event::Text(CowStr::from("中文")),
        Event::HardBreak,
        Event::Text(CowStr::from("测试")),
        Event::End(Tag::Paragraph),
    ];
    assert_eq!(join_events(events.clone()), events);
}

#[test]
fn join_events_of_joined_events_changes_nothing() {
    let events = vec![
        Event::Text(CowStr::from("中文")),
        Event::SoftBreak,
        Event::Text(CowStr::from("测试")),
        Event::SoftBreak,
        Event::Text(CowStr::from("abc")),
        Event::SoftBreak,
        Event::Text(CowStr::from("中文")),
    ];
    let once = join_events(events);
    assert_eq!(once.len(), 6);
    assert_eq!(join_events(once.clone()), once);
}

#[test]
fn join_events_of_nothing_is_nothing() {
    assert_eq!(join_events(Vec::new()), Vec::<Event>::new());
}

#[test]
fn written_text_is_handed_on() {
    assert_eq!(serialization_outcome(Ok(String::from("中文测试"))), Ok(String::from("中文测试")));
    assert_eq!(serialization_outcome(Ok(String::new())), Ok(String::new()));
}

#[test]
fn serializer_error_becomes_a_serialization_error() {
    let outcome = serialization_outcome(Err(std::fmt::Error));
    assert_eq!(outcome, Err(JoinError::Serialization(std::fmt::Error)));
}

#[test]
fn error_message_names_the_failure_and_its_detail() {
    let err = JoinError::Serialization(std::fmt::Error);
    let detail = format!("{}", std::fmt::Error);
    assert!(!detail.is_empty());
    assert_eq!(err.message(), format!("Markdown serialization failed: {}", detail));
    assert!(err.message().starts_with("Markdown serialization failed: "));
}
