//! Output formats and the rendering of an issue with its comments.

use vstd::prelude::*;
use vstd::string::*;
use crate::github::{CommentData, IssueData, IssueView};
use crate::text::{append_decimal, append_joined, decimal, join, lower_of, lowercase, same_text, views};

verus! {

/// The formats a document can be rendered in.
#[derive(Clone, Copy, Debug, PartialEq, Eq, Structural)]
pub enum OutputFormat {
    Markdown,
    Xml,
}

/// The format a lower-case name stands for.
pub open spec fn format_named(name: Seq<char>) -> Option<OutputFormat> {
    if name == "markdown"@ || name == "md"@ {
        Some(OutputFormat::Markdown)
    } else if name == "xml"@ {
        Some(OutputFormat::Xml)
    } else {
        None
    }
}

impl OutputFormat {
    /// The format for a name already in lower case: `markdown` or `md`, or
    /// `xml`.
    pub fn from_lowercase_name(name: &str) -> (r: Option<OutputFormat>)
        ensures
            r == format_named(name@),
    {
        if same_text(name, "markdown") || same_text(name, "md") {
            Some(OutputFormat::Markdown)
        } else if same_text(name, "xml") {
            Some(OutputFormat::Xml)
        } else {
            None
        }
    }

    /// The format named by `s`, in any case; an unknown name is refused with
    /// a message that quotes it.
    pub fn parse(s: &str) -> (r: Result<OutputFormat, String>)
        ensures
            format_named(lower_of(s@)) matches Some(f) ==> r == Ok::<OutputFormat, String>(f),
            format_named(lower_of(s@)) is None ==> (r matches Err(m) && m@
                == "Unsupported format: "@ + s@),
    {
        let name = lowercase(s);
        match OutputFormat::from_lowercase_name(name.as_str()) {
            Some(f) => Ok(f),
            None => {
                let mut m = String::from_str("Unsupported format: ");
                m.append(s);
                Err(m)
            },
        }
    }
}

impl std::str::FromStr for OutputFormat {
    type Err = String;

    fn from_str(s: &str) -> Result<OutputFormat, String> {
        OutputFormat::parse(s)
    }
}

/// The file extension of a format.
pub open spec fn extension(format: OutputFormat) -> Seq<char> {
    match format {
        OutputFormat::Markdown => "md"@,
        OutputFormat::Xml => "xml"@,
    }
}

pub fn get_file_extension(format: OutputFormat) -> (r: &'static str)
    ensures
        r@ == extension(format),
{
    match format {
        OutputFormat::Markdown => "md",
        OutputFormat::Xml => "xml",
    }
}

/// The parts one after the other.
pub open spec fn concat_all(parts: Seq<Seq<char>>) -> Seq<char>
    decreases parts.len(),
{
    if parts.len() == 0 {
        Seq::empty()
    } else {
        concat_all(parts.drop_last()) + parts.last()
    }
}

/// Whether `t` occurs in `s`.
pub open spec fn contains(s: Seq<char>, t: Seq<char>) -> bool {
    exists|k: int| 0 <= k && k + t.len() <= s.len() && #[trigger] s.subrange(k, k + t.len()) == t
}

// Markdown

/// The placeholder for a missing description in Markdown.
pub open spec fn markdown_placeholder() -> Seq<char> {
    "*No description provided*"@
}

pub open spec fn markdown_description(body: Option<Seq<char>>) -> Seq<char> {
    match body {
        Some(b) => b,
        None => markdown_placeholder(),
    }
}

/// The heading and metadata block, up to the description.
pub open spec fn markdown_meta(i: IssueView) -> Seq<char> {
    "# Issue #"@ + decimal(i.number as nat) + ": "@ + i.title + "\n\n**State:** "@ + i.state
        + "\n**Created:** "@ + i.created_at + "\n**Updated:** "@ + i.updated_at
        + "\n**Labels:** "@ + join(i.labels, ", "@) + "\n**Assignees:** "@ + join(i.assignees, ", "@)
        + "\n**User:** "@ + i.user + "\n\n## Description\n\n"@
}

/// The document without its comments.
pub open spec fn markdown_head(i: IssueView) -> Seq<char> {
    markdown_meta(i) + markdown_description(i.body) + "\n"@
}

/// The subsection of one comment.
pub open spec fn markdown_comment(c: CommentData) -> Seq<char> {
    "### @"@ + c.user@ + " ("@ + c.created_at@ + ")\n\n"@ + c.body@ + "\n\n"@
}

pub open spec fn markdown_comments(cs: Seq<CommentData>) -> Seq<Seq<char>> {
    cs.map_values(|c: CommentData| markdown_comment(c))
}

/// The heading of the comments section.
pub open spec fn markdown_comments_heading() -> Seq<char> {
    "\n## Comments\n\n"@
}

/// The Markdown document of an issue with its comments; the comments
/// section is there only where there are comments.
pub open spec fn markdown_document(i: IssueView, cs: Seq<CommentData>) -> Seq<char> {
    markdown_head(i) + if cs.len() == 0 {
        Seq::<char>::empty()
    } else {
        markdown_comments_heading() + concat_all(markdown_comments(cs))
    }
}

// XML

/// The placeholder for a missing description in XML.
pub open spec fn xml_placeholder() -> Seq<char> {
    "No description provided"@
}

pub open spec fn xml_description(body: Option<Seq<char>>) -> Seq<char> {
    match body {
        Some(b) => b,
        None => xml_placeholder(),
    }
}

/// The text before the description inside its CDATA section.
pub open spec fn xml_description_open() -> Seq<char> {
    "    <description><![CDATA[\n        "@
}

/// The text after the description.
pub open spec fn xml_description_close() -> Seq<char> {
    "\n    ]]></description>"@
}

/// Each part between `open` and `close`.
pub open spec fn wrap_all(parts: Seq<Seq<char>>, open: Seq<char>, close: Seq<char>) -> Seq<Seq<char>> {
    parts.map_values(|p: Seq<char>| open + p + close)
}

/// The declaration and the elements before the description.
pub open spec fn xml_meta(i: IssueView) -> Seq<char> {
    "<?xml version=\"1.0\" encoding=\"UTF-8\"?>\n<issue>\n    <number>"@ + decimal(i.number as nat)
        + "</number>\n    <title><![CDATA["@ + i.title + "]]></title>\n    <state>"@ + i.state
        + "</state>\n    <created_at>"@ + i.created_at + "</created_at>\n    <updated_at>"@
        + i.updated_at + "</updated_at>\n    <labels>\n        "@
        + join(wrap_all(i.labels, "        <label>"@, "</label>"@), "\n"@)
        + "\n    </labels>\n    <assignees>\n        "@
        + join(wrap_all(i.assignees, "        <assignee>"@, "</assignee>"@), "\n"@)
        + "\n    </assignees>\n    <user>"@ + i.user + "</user>\n"@
}

/// The issue element up to its description, included.
pub open spec fn xml_head(i: IssueView) -> Seq<char> {
    xml_meta(i) + xml_description_open() + xml_description(i.body) + xml_description_close()
}

/// The element of one comment.
pub open spec fn xml_comment(c: CommentData) -> Seq<char> {
    "        <comment>\n            <user>"@ + c.user@ + "</user>\n            <created_at>"@
        + c.created_at@ + "</created_at>\n            <body><![CDATA["@ + c.body@
        + "]]></body>\n        </comment>\n"@
}

pub open spec fn xml_comments(cs: Seq<CommentData>) -> Seq<Seq<char>> {
    cs.map_values(|c: CommentData| xml_comment(c))
}

/// The XML document of an issue with its comments; the `comments` block is
/// there only where there are comments.
pub open spec fn xml_document(i: IssueView, cs: Seq<CommentData>) -> Seq<char> {
    xml_head(i) + if cs.len() == 0 {
        Seq::<char>::empty()
    } else {
        "\n    <comments>\n"@ + concat_all(xml_comments(cs)) + "    </comments>\n"@
    } + "</issue>\n"@
}

/// The document of an issue in a format.
pub open spec fn render(format: OutputFormat, i: IssueView, cs: Seq<CommentData>) -> Seq<char> {
    match format {
        OutputFormat::Markdown => markdown_document(i, cs),
        OutputFormat::Xml => xml_document(i, cs),
    }
}

/// Appends each string of `parts` between `open` and `close`, with `sep`
/// between each two.
fn append_wrapped(s: &mut String, parts: &[String], open: &str, close: &str, sep: &str)
    ensures
        final(s)@ == old(s)@ + join(wrap_all(views(parts@), open@, close@), sep@),
{
    let ghost start = s@;
    let ghost all = wrap_all(views(parts@), open@, close@);
    let mut k: usize = 0;
    while k < parts.len()
        invariant
            k <= parts@.len(),
            all == wrap_all(views(parts@), open@, close@),
            s@ == start + join(all.subrange(0, k as int), sep@),
        decreases parts@.len() - k,
    {
        proof {
            assert(all.subrange(0, k + 1).drop_last() =~= all.subrange(0, k as int));
            if k == 0 {
                assert(all.subrange(0, 0) =~= Seq::<Seq<char>>::empty());
            }
        }
        if k > 0 {
            s.append(sep);
        }
        s.append(open);
        s.append(parts[k].as_str());
        s.append(close);
        k = k + 1;
        proof {
            if k == 1 {
                assert(all.subrange(0, 1).len() == 1);
            }
        }
        assert(s@ =~= start + join(all.subrange(0, k as int), sep@));
    }
    assert(all.subrange(0, parts@.len() as int) =~= all);
}

/// Appends the Markdown subsection of each comment, in order.
fn append_markdown_comments(s: &mut String, comments: &[CommentData])
    ensures
        final(s)@ == old(s)@ + concat_all(markdown_comments(comments@)),
{
    let ghost start = s@;
    let ghost all = markdown_comments(comments@);
    let mut k: usize = 0;
    while k < comments.len()
        invariant
            k <= comments@.len(),
            all == markdown_comments(comments@),
            s@ == start + concat_all(all.subrange(0, k as int)),
        decreases comments@.len() - k,
    {
        let c = &comments[k];
        s.append("### @");
        s.append(c.user.as_str());
        s.append(" (");
        s.append(c.created_at.as_str());
        s.append(")\n\n");
        s.append(c.body.as_str());
        s.append("\n\n");
        assert(all.subrange(0, k + 1).drop_last() =~= all.subrange(0, k as int));
        k = k + 1;
        assert(s@ =~= start + concat_all(all.subrange(0, k as int)));
    }
    assert(all.subrange(0, comments@.len() as int) =~= all);
}

/// Appends the XML element of each comment, in order.
fn append_xml_comments(s: &mut String, comments: &[CommentData])
    ensures
        final(s)@ == old(s)@ + concat_all(xml_comments(comments@)),
{
    let ghost start = s@;
    let ghost all = xml_comments(comments@);
    let mut k: usize = 0;
    while k < comments.len()
        invariant
            k <= comments@.len(),
            all == xml_comments(comments@),
            s@ == start + concat_all(all.subrange(0, k as int)),
        decreases comments@.len() - k,
    {
        let c = &comments[k];
        s.append("        <comment>\n            <user>");
        s.append(c.user.as_str());
        s.append("</user>\n            <created_at>");
        s.append(c.created_at.as_str());
        s.append("</created_at>\n            <body><![CDATA[");
        s.append(c.body.as_str());
        s.append("]]></body>\n        </comment>\n");
        assert(all.subrange(0, k + 1).drop_last() =~= all.subrange(0, k as int));
        k = k + 1;
        assert(s@ =~= start + concat_all(all.subrange(0, k as int)));
    }
    assert(all.subrange(0, comments@.len() as int) =~= all);
}

/// A renderer of issues into one format.
pub trait FormatWriter {
    /// The document this writer renders.
    spec fn document(&self, issue: IssueView, comments: Seq<CommentData>) -> Seq<char>;

    /// Renders an issue with its comments; never fails.
    fn write_issue(&self, issue: &IssueData, comments: &[CommentData]) -> (r: String)
        ensures
            r@ == self.document(issue@, comments@);
}

/// Renders Markdown.
pub struct MarkdownWriter;

impl FormatWriter for MarkdownWriter {
    open spec fn document(&self, issue: IssueView, comments: Seq<CommentData>) -> Seq<char> {
        markdown_document(issue, comments)
    }

    fn write_issue(&self, issue: &IssueData, comments: &[CommentData]) -> (r: String) {
        let mut s = String::from_str("# Issue #");
        append_decimal(&mut s, issue.number());
        s.append(": ");
        s.append(issue.title());
        s.append("\n\n**State:** ");
        s.append(issue.state());
        s.append("\n**Created:** ");
        s.append(issue.created_at());
        s.append("\n**Updated:** ");
        s.append(issue.updated_at());
        s.append("\n**Labels:** ");
        append_joined(&mut s, issue.labels(), ", ");
        s.append("\n**Assignees:** ");
        append_joined(&mut s, issue.assignees(), ", ");
        s.append("\n**User:** ");
        s.append(issue.user());
        s.append("\n\n## Description\n\n");
        assert(s@ =~= markdown_meta(issue@));
        match issue.body() {
            Some(b) => s.append(b),
            None => s.append("*No description provided*"),
        }
        s.append("\n");
        assert(s@ =~= markdown_head(issue@));
        if comments.len() > 0 {
            s.append("\n## Comments\n\n");
            append_markdown_comments(&mut s, comments);
        }
        assert(s@ =~= markdown_document(issue@, comments@));
        s
    }
}

/// Renders XML, with free text in CDATA sections.
pub struct XmlWriter;

impl FormatWriter for XmlWriter {
    open spec fn document(&self, issue: IssueView, comments: Seq<CommentData>) -> Seq<char> {
        xml_document(issue, comments)
    }

    fn write_issue(&self, issue: &IssueData, comments: &[CommentData]) -> (r: String) {
        let mut s = String::from_str("<?xml version=\"1.0\" encoding=\"UTF-8\"?>\n<issue>\n    <number>");
        append_decimal(&mut s, issue.number());
        s.append("</number>\n    <title><![CDATA[");
        s.append(issue.title());
        s.append("]]></title>\n    <state>");
        s.append(issue.state());
        s.append("</state>\n    <created_at>");
        s.append(issue.created_at());
        s.append("</created_at>\n    <updated_at>");
        s.append(issue.updated_at());
        s.append("</updated_at>\n    <labels>\n        ");
        append_wrapped(&mut s, issue.labels(), "        <label>", "</label>", "\n");
        s.append("\n    </labels>\n    <assignees>\n        ");
        append_wrapped(&mut s, issue.assignees(), "        <assignee>", "</assignee>", "\n");
        s.append("\n    </assignees>\n    <user>");
        s.append(issue.user());
        s.append("</user>\n");
        assert(s@ =~= xml_meta(issue@));
        s.append("    <description><![CDATA[\n        ");
        match issue.body() {
            Some(b) => s.append(b),
            None => s.append("No description provided"),
        }
        s.append("\n    ]]></description>");
        assert(s@ =~= xml_head(issue@));
        if comments.len() > 0 {
            s.append("\n    <comments>\n");
            append_xml_comments(&mut s, comments);
            s.append("    </comments>\n");
        }
        s.append("</issue>\n");
        assert(s@ =~= xml_document(issue@, comments@));
        s
    }
}

/// The writer of one format; which of the two is a closed choice.
pub enum DocumentWriter {
    Markdown(MarkdownWriter),
    Xml(XmlWriter),
}

impl DocumentWriter {
    /// The format this writer renders.
    pub open spec fn format(&self) -> OutputFormat {
        match self {
            DocumentWriter::Markdown(_) => OutputFormat::Markdown,
            DocumentWriter::Xml(_) => OutputFormat::Xml,
        }
    }
}

impl FormatWriter for DocumentWriter {
    open spec fn document(&self, issue: IssueView, comments: Seq<CommentData>) -> Seq<char> {
        render(self.format(), issue, comments)
    }

    fn write_issue(&self, issue: &IssueData, comments: &[CommentData]) -> (r: String) {
        match self {
            DocumentWriter::Markdown(w) => w.write_issue(issue, comments),
            DocumentWriter::Xml(w) => w.write_issue(issue, comments),
        }
    }
}

/// The writer for a format.
pub fn get_writer(format: OutputFormat) -> (r: DocumentWriter)
    ensures
        r.format() == format,
{
    match format {
        OutputFormat::Markdown => DocumentWriter::Markdown(MarkdownWriter),
        OutputFormat::Xml => DocumentWriter::Xml(XmlWriter),
    }
}

/// Rendering is a function of the issue and comments alone: equal inputs give
/// the same document, in either format, from whichever writer renders it.
pub proof fn render_is_deterministic(
    w: DocumentWriter,
    a: IssueData,
    b: IssueData,
    ca: Seq<CommentData>,
    cb: Seq<CommentData>,
)
    requires
        a@ == b@,
        ca == cb,
    ensures
        w.document(a@, ca) == w.document(b@, cb),
        w.document(a@, ca) == render(w.format(), b@, cb),
{
}

/// An issue without a body is rendered with the placeholder: with asterisks
/// in Markdown, without them inside the CDATA of the XML description.
pub proof fn missing_description_placeholders(i: IssueView, cs: Seq<CommentData>)
    requires
        i.body is None,
    ensures
        contains(markdown_document(i, cs), "*No description provided*"@),
        contains(
            xml_document(i, cs),
            "    <description><![CDATA[\n        "@ + "No description provided"@
                + "\n    ]]></description>"@,
        ),
{
    let m = markdown_meta(i);
    let d = markdown_placeholder();
    let doc = markdown_document(i, cs);
    assert(doc.subrange(m.len() as int, (m.len() + d.len()) as int) =~= d);
    let x = xml_meta(i);
    let t = xml_description_open() + xml_placeholder() + xml_description_close();
    let xdoc = xml_document(i, cs);
    assert(xdoc.subrange(x.len() as int, (x.len() + t.len()) as int) =~= t);
}

/// Without comments neither format has a comments section; with `n >= 1`
/// comments it holds exactly `n` subsections, one per comment in input order.
pub proof fn comment_sections(i: IssueView, cs: Seq<CommentData>)
    ensures
        cs.len() == 0 ==> markdown_document(i, cs) == markdown_head(i),
        cs.len() == 0 ==> xml_document(i, cs) == xml_head(i) + "</issue>\n"@,
        cs.len() > 0 ==> markdown_document(i, cs) == markdown_head(i) + markdown_comments_heading()
            + concat_all(markdown_comments(cs)),
        cs.len() > 0 ==> xml_document(i, cs) == xml_head(i) + "\n    <comments>\n"@ + concat_all(
            xml_comments(cs),
        ) + "    </comments>\n"@ + "</issue>\n"@,
        markdown_comments(cs).len() == cs.len(),
        xml_comments(cs).len() == cs.len(),
        forall|k: int| 0 <= k < cs.len() ==> #[trigger] markdown_comments(cs)[k] == markdown_comment(cs[k]),
        forall|k: int| 0 <= k < cs.len() ==> #[trigger] xml_comments(cs)[k] == xml_comment(cs[k]),
{
    if cs.len() == 0 {
        assert(markdown_document(i, cs) =~= markdown_head(i));
        assert(xml_document(i, cs) =~= xml_head(i) + "</issue>\n"@);
    }
}

} // verus!
