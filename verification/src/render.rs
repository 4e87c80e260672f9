//! What a ticket looks like on the terminal: pieces of text, each with the
//! way it is to be set. Colours are the caller's business.

use crate::codec::{status_name, status_text};
use crate::comments::{Comments, NoteView};
use crate::id::{format_uuid, uuid_text};
use crate::text::{join_texts, joined};
use crate::ticket::{Status, Ticket, TicketView};
use vstd::prelude::*;
use vstd::string::StringExecFns;

verus! {

/// How a piece of text is set.
#[derive(Debug, Clone, Copy, PartialEq, Eq, Structural)]
pub enum Style {
    /// The line that names a ticket, and the titles of sections.
    Heading,
    /// The name of a field.
    Label,
    /// The status of an open ticket.
    Good,
    /// The status of a closed ticket.
    Bad,
    /// The name of a person.
    Name,
    /// A key of the keyboard.
    Key,
    /// Running text.
    Plain,
}

/// A piece of text and the way it is set.
#[derive(Debug, PartialEq, Eq)]
pub struct Span {
    pub style: Style,
    pub text: String,
}

/// A [`Span`] with its text as a sequence of characters.
pub ghost struct SpanView {
    pub style: Style,
    pub text: Seq<char>,
}

impl View for Span {
    type V = SpanView;

    open spec fn view(&self) -> SpanView {
        SpanView { style: self.style, text: self.text@ }
    }
}

/// The views of a sequence of spans.
pub open spec fn span_views(spans: Seq<Span>) -> Seq<SpanView> {
    spans.map_values(|s: Span| s@)
}

/// A span as contracts write one.
pub open spec fn span(style: Style, text: Seq<char>) -> SpanView {
    SpanView { style, text }
}

/// How a status is set.
pub open spec fn status_style(status: Status) -> Style {
    match status {
        Status::Open => Style::Good,
        Status::Closed => Style::Bad,
    }
}

/// The comments of a log, in its order: for each the author's name on a
/// line of its own, then the body and an empty line.
pub open spec fn comment_spans(log: Seq<NoteView>) -> Seq<SpanView>
    decreases log.len(),
{
    if log.len() == 0 {
        Seq::empty()
    } else {
        comment_spans(log.drop_last()).push(span(Style::Name, log.last().author + "\n"@)).push(
            span(Style::Plain, log.last().body + "\n\n"@),
        )
    }
}

/// The assignees on one line: their names with commas between them, or
/// `None` where there are none.
pub open spec fn assignee_line(assignees: Seq<Seq<char>>) -> Seq<char> {
    if assignees.len() == 0 {
        "None"@
    } else {
        joined(assignees, ", "@)
    }
}

/// A ticket as the `show` command prints it: a heading of identifier and
/// title, the status, the assignees, the description, and the comments in
/// the order of their keys.
pub open spec fn shown(t: TicketView) -> Seq<SpanView> {
    seq![
        span(Style::Heading, uuid_text(t.id) + " - "@ + t.title + "\n\n"@),
        span(Style::Label, "Status: "@),
        span(status_style(t.status), status_text(t.status)),
        span(Style::Plain, "\n"@),
        span(Style::Label, "Assignees: "@),
        span(Style::Plain, assignee_line(t.assignees) + "\n\n"@),
        span(Style::Plain, t.description + "\n\n"@),
    ] + comment_spans(t.comments)
}

/// The text of a sequence of spans, styles left aside.
pub open spec fn plain_text(spans: Seq<SpanView>) -> Seq<char>
    decreases spans.len(),
{
    if spans.len() == 0 {
        Seq::empty()
    } else {
        plain_text(spans.drop_last()) + spans.last().text
    }
}

/// A span of `text` set in `style`.
pub fn styled(style: Style, text: String) -> (s: Span)
    ensures
        s@ == span(style, text@),
{
    Span { style, text }
}

/// Appends the comments of `log` to `out`.
pub fn push_comments(out: &mut Vec<Span>, log: &Comments)
    ensures
        span_views(final(out)@) == span_views(old(out)@) + comment_spans(log@),
{
    let ghost before = span_views(out@);
    let n = log.len();
    let mut i: usize = 0;
    assert(log@.take(0) =~= Seq::<NoteView>::empty());
    assert(span_views(out@) =~= before + comment_spans(log@.take(0)));
    while i < n
        invariant
            i <= n,
            n == log@.len(),
            span_views(out@) == before + comment_spans(log@.take(i as int)),
        decreases n - i,
    {
        let note = log.get(i);
        let ghost so_far = span_views(out@);
        proof {
            assert(log@.take(i + 1).drop_last() =~= log@.take(i as int));
            assert(log@.take(i + 1).last() == note@);
        }
        out.push(styled(Style::Name, note.author.0.clone().concat("\n")));
        out.push(styled(Style::Plain, note.body.0.clone().concat("\n\n")));
        assert(span_views(out@) =~= so_far.push(span(Style::Name, note@.author + "\n"@)).push(
            span(Style::Plain, note@.body + "\n\n"@),
        ));
        assert(span_views(out@) =~= before + comment_spans(log@.take(i + 1)));
        i += 1;
    }
    assert(log@.take(n as int) =~= log@);
}

/// The assignees on one line.
pub fn assignees_on_a_line(assignees: &Vec<String>) -> (line: String)
    ensures
        line@ == assignee_line(crate::text::texts(assignees@)),
{
    if assignees.len() == 0 {
        String::from_str("None")
    } else {
        join_texts(assignees, ", ")
    }
}

/// The line that names a ticket: its identifier, written as `id`, and its
/// title, and an empty line after them.
pub fn heading(id: &str, title: &str) -> (line: String)
    ensures
        line@ == id@ + " - "@ + title@ + "\n\n"@,
{
    String::from_str(id).concat(" - ").concat(title).concat("\n\n")
}

/// A ticket as the `show` command prints it.
pub fn show_ticket(t: &Ticket) -> (spans: Vec<Span>)
    ensures
        span_views(spans@) == shown(t@),
{
    let mut out: Vec<Span> = Vec::new();
    let style = match t.status {
        Status::Open => Style::Good,
        Status::Closed => Style::Bad,
    };
    out.push(styled(Style::Heading, heading(format_uuid(t.id).as_str(), t.title.as_str())));
    out.push(styled(Style::Label, String::from_str("Status: ")));
    out.push(styled(style, status_name(t.status)));
    out.push(styled(Style::Plain, String::from_str("\n")));
    out.push(styled(Style::Label, String::from_str("Assignees: ")));
    out.push(styled(Style::Plain, assignees_on_a_line(&t.assignees).concat("\n\n")));
    out.push(styled(Style::Plain, t.description.clone().concat("\n\n")));
    let ghost head = span_views(out@);
    assert(head =~= shown(t@).take(7));
    push_comments(&mut out, &t.comments);
    assert(span_views(out@) =~= shown(t@));
    out
}

/// The text of `spans`, styles left aside.
pub fn text_of(spans: &Vec<Span>) -> (text: String)
    ensures
        text@ == plain_text(span_views(spans@)),
{
    let mut text = String::new();
    let mut i: usize = 0;
    let ghost all = span_views(spans@);
    assert(all.take(0) =~= Seq::<SpanView>::empty());
    while i < spans.len()
        invariant
            i <= spans.len(),
            all == span_views(spans@),
            text@ == plain_text(all.take(i as int)),
        decreases spans.len() - i,
    {
        proof {
            assert(all.take(i + 1).drop_last() =~= all.take(i as int));
            assert(all.take(i + 1).last() == spans@[i as int]@);
        }
        text = text.concat(spans[i].text.as_str());
        i += 1;
    }
    assert(all.take(spans.len() as int) =~= all);
    text
}

} // verus!
