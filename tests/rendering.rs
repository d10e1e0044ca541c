use ghif::{get_file_extension, get_writer, CommentData, FormatWriter, IssueData, IssueState, MarkdownWriter, OutputFormat, XmlWriter};

fn issue(body: Option<&str>, labels: &[&str], assignees: &[&str]) -> IssueData {
    IssueData::new(
        7,
        "T".to_string(),
        IssueState::Open,
        body.map(|b| b.to_string()),
        labels.iter().map(|l| l.to_string()).collect(),
        "c1".to_string(),
        "u1".to_string(),
        assignees.iter().map(|a| a.to_string()).collect(),
        "bob".to_string(),
        None,
    )
}

fn comment(user: &str, body: &str, created: &str) -> CommentData {
    CommentData::new(user.to_string(), Some(body.to_string()), created.to_string(), None)
}

#[test]
fn markdown_exact_document() {
    let doc = MarkdownWriter.write_issue(&issue(Some("B"), &["bug", "ui"], &["al"]), &[comment("x", "hi", "c2")]);
    assert_eq!(
        doc,
        "# Issue #7: T\n\n**State:** open\n**Created:** c1\n**Updated:** u1\n**Labels:** bug, ui\n**Assignees:** al\n**User:** bob\n\n## Description\n\nB\n\n## Comments\n\n### @x (c2)\n\nhi\n\n"
    );
}

#[test]
fn xml_exact_document() {
    let doc = XmlWriter.write_issue(&issue(None, &["bug", "ui"], &[]), &[]);
    assert_eq!(
        doc,
        "<?xml version=\"1.0\" encoding=\"UTF-8\"?>\n<issue>\n    <number>7</number>\n    <title><![CDATA[T]]></title>\n    <state>open</state>\n    <created_at>c1</created_at>\n    <updated_at>u1</updated_at>\n    <labels>\n                <label>bug</label>\n        <label>ui</label>\n    </labels>\n    <assignees>\n        \n    </assignees>\n    <user>bob</user>\n    <description><![CDATA[\n        No description provided\n    ]]></description></issue>\n"
    );
}

#[test]
fn xml_with_comments_block() {
    let doc = XmlWriter.write_issue(&issue(Some("B"), &[], &["al"]), &[comment("x", "a]b", "c2")]);
    assert!(doc.ends_with(
        "]]></description>\n    <comments>\n        <comment>\n            <user>x</user>\n            <created_at>c2</created_at>\n            <body><![CDATA[a]b]]></body>\n        </comment>\n    </comments>\n</issue>\n"
    ));
    assert!(doc.contains("<assignees>\n                <assignee>al</assignee>\n    </assignees>"));
}

#[test]
fn rendering_is_deterministic() {
    let cs = vec![comment("x", "one", "c2"), comment("y", "two", "c3")];
    for f in [OutputFormat::Markdown, OutputFormat::Xml] {
        let w = get_writer(f);
        let a = w.write_issue(&issue(Some("B"), &["l"], &["a"]), &cs);
        let b = w.write_issue(&issue(Some("B"), &["l"], &["a"]), &cs);
        assert_eq!(a, b);
    }
}

#[test]
fn missing_body_placeholders() {
    let md = get_writer(OutputFormat::Markdown).write_issue(&issue(None, &[], &[]), &[]);
    assert!(md.contains("*No description provided*"));
    let xml = get_writer(OutputFormat::Xml).write_issue(&issue(None, &[], &[]), &[]);
    assert!(xml.contains("<description><![CDATA[\n        No description provided\n    ]]></description>"));
    assert!(!xml.contains("*No description provided*"));
}

#[test]
fn comments_sections_count_and_order() {
    let md0 = MarkdownWriter.write_issue(&issue(Some("B"), &[], &[]), &[]);
    assert!(!md0.contains("## Comments"));
    let xml0 = XmlWriter.write_issue(&issue(Some("B"), &[], &[]), &[]);
    assert!(!xml0.contains("<comments>"));
    let cs = vec![comment("first", "1", "c1"), comment("second", "2", "c2"), comment("third", "3", "c3")];
    let md = MarkdownWriter.write_issue(&issue(Some("B"), &[], &[]), &cs);
    assert_eq!(md.matches("### @").count(), 3);
    let (a, b, c) = (md.find("@first").unwrap(), md.find("@second").unwrap(), md.find("@third").unwrap());
    assert!(a < b && b < c);
    let xml = XmlWriter.write_issue(&issue(Some("B"), &[], &[]), &cs);
    assert_eq!(xml.matches("<comment>").count(), 3);
    assert!(xml.find("<user>first").unwrap() < xml.find("<user>third").unwrap());
}

#[test]
fn format_names() {
    assert_eq!(OutputFormat::parse("markdown").unwrap(), OutputFormat::Markdown);
    assert_eq!(OutputFormat::parse("MD").unwrap(), OutputFormat::Markdown);
    assert_eq!(OutputFormat::parse("Xml").unwrap(), OutputFormat::Xml);
    assert_eq!(OutputFormat::parse("pdf").unwrap_err(), "Unsupported format: pdf");
    assert_eq!("xml".parse::<OutputFormat>().unwrap(), OutputFormat::Xml);
    assert_eq!(OutputFormat::from_lowercase_name("MD"), None);
    assert_eq!(get_file_extension(OutputFormat::Markdown), "md");
    assert_eq!(get_file_extension(OutputFormat::Xml), "xml");
}

#[test]
fn issue_getters_and_state_labels() {
    let i = IssueData::new(3, "t".to_string(), IssueState::Closed, None, vec!["a".to_string()], "c".to_string(), "u".to_string(), vec![], "me".to_string(), Some("url".to_string()));
    assert_eq!(i.number(), 3);
    assert_eq!(i.title(), "t");
    assert_eq!(i.state(), "closed");
    assert_eq!(i.body(), None);
    assert_eq!(i.created_at(), "c");
    assert_eq!(i.updated_at(), "u");
    assert_eq!(i.labels(), &["a".to_string()][..]);
    assert!(i.assignees().is_empty());
    assert_eq!(i.user(), "me");
    let u = IssueData::new(4, "t".to_string(), IssueState::Unknown, Some(String::new()), vec![], "c".to_string(), "u".to_string(), vec![], "me".to_string(), None);
    assert_eq!(u.state(), "unknown");
    assert_eq!(u.body(), Some(""));
}

#[test]
fn comment_defaults() {
    let c = CommentData::new("u".to_string(), None, "c".to_string(), None);
    assert_eq!(c.body, "");
    assert_eq!(c.updated_at, "N/A");
    let d = CommentData::new("u".to_string(), Some("b".to_string()), "c".to_string(), Some("t".to_string()));
    assert_eq!(d.body, "b");
    assert_eq!(d.updated_at, "t");
}
