//! Tickets: the current schema, the legacy schema that came before it, and
//! the step from the one to the other.

use crate::comments::{has_key, increasing, inserted, Comment, Comments, Name, Note, NoteView};
use crate::order::Keyed;
use crate::text::texts;
use vstd::prelude::*;

verus! {

/// The state of a ticket, which is also the directory its file lives in.
#[derive(Debug, Clone, Copy, PartialEq, Eq, Structural)]
pub enum Status {
    /// The ticket has been opened and its issue is not resolved.
    Open,
    /// The ticket has been dealt with.
    Closed,
}

/// The schema a ticket was written in.
#[derive(Debug, Clone, Copy, PartialEq, Eq, Structural)]
pub enum Version {
    /// The first schema that carries an identifier and a comment log.
    V1,
}

/// An issue or a plan for the code base, in the current schema.
#[derive(Debug, PartialEq, Eq)]
pub struct Ticket {
    pub title: String,
    pub status: Status,
    pub id: u128,
    pub assignees: Vec<String>,
    pub description: String,
    pub version: Version,
    pub comments: Comments,
}

/// A [`Ticket`] with its texts as sequences of characters.
pub ghost struct TicketView {
    pub title: Seq<char>,
    pub status: Status,
    pub id: u128,
    pub assignees: Seq<Seq<char>>,
    pub description: Seq<char>,
    pub version: Version,
    pub comments: Seq<NoteView>,
}

impl View for Ticket {
    type V = TicketView;

    open spec fn view(&self) -> TicketView {
        TicketView {
            title: self.title@,
            status: self.status,
            id: self.id,
            assignees: texts(self.assignees@),
            description: self.description@,
            version: self.version,
            comments: self.comments@,
        }
    }
}

impl Keyed for Ticket {
    open spec fn key_of(v: TicketView) -> int {
        v.id as int
    }

    fn key(&self) -> (k: u128) {
        self.id
    }
}

/// The views of a sequence of tickets.
pub open spec fn ticket_views(tickets: Seq<Ticket>) -> Seq<TicketView> {
    tickets.map_values(|t: Ticket| t@)
}

/// A ticket of the legacy schema: numbered, with at most one assignee and no
/// comments. Such tickets are only ever read, to be upgraded.
#[derive(Debug, PartialEq, Eq)]
pub struct TicketV0 {
    pub title: String,
    pub status: Status,
    pub number: usize,
    pub assignee: Option<String>,
    pub description: String,
}

/// A [`TicketV0`] with its texts as sequences of characters.
pub ghost struct TicketV0View {
    pub title: Seq<char>,
    pub status: Status,
    pub number: usize,
    pub assignee: Option<Seq<char>>,
    pub description: Seq<char>,
}

impl View for TicketV0 {
    type V = TicketV0View;

    open spec fn view(&self) -> TicketV0View {
        TicketV0View {
            title: self.title@,
            status: self.status,
            number: self.number,
            assignee: match self.assignee {
                Some(a) => Some(a@),
                None => None,
            },
            description: self.description@,
        }
    }
}

impl Keyed for TicketV0 {
    open spec fn key_of(v: TicketV0View) -> int {
        v.number as int
    }

    fn key(&self) -> (k: u128) {
        self.number as u128
    }
}

/// A copy of `list`.
pub fn clone_texts(list: &Vec<String>) -> (copy: Vec<String>)
    ensures
        copy@ == list@,
{
    let mut copy: Vec<String> = Vec::new();
    let mut i: usize = 0;
    while i < list.len()
        invariant
            i <= list.len(),
            copy@ == list@.take(i as int),
        decreases list.len() - i,
    {
        copy.push(list[i].clone());
        assert(list@.take(i + 1) =~= list@.take(i as int).push(list@[i as int]));
        i += 1;
    }
    assert(list@.take(list.len() as int) =~= list@);
    copy
}

impl Clone for Ticket {
    fn clone(&self) -> (copy: Ticket)
        ensures
            copy@ == self@,
    {
        Ticket {
            title: self.title.clone(),
            status: self.status,
            id: self.id,
            assignees: clone_texts(&self.assignees),
            description: self.description.clone(),
            version: self.version,
            comments: self.comments.clone(),
        }
    }
}

impl TicketView {
    /// A new ticket: open, assigned to nobody, without comments.
    pub open spec fn fresh(title: Seq<char>, description: Seq<char>, id: u128) -> TicketView {
        TicketView {
            title,
            status: Status::Open,
            id,
            assignees: Seq::empty(),
            description,
            version: Version::V1,
            comments: Seq::empty(),
        }
    }

    /// This ticket with another status and everything else as it was.
    pub open spec fn with_status(self, status: Status) -> TicketView {
        TicketView { status, ..self }
    }

    /// This ticket after `note` was written to its comment log, and
    /// everything else as it was.
    pub open spec fn commented(self, note: NoteView) -> TicketView {
        TicketView { comments: inserted(self.comments, note), ..self }
    }
}

impl TicketV0View {
    /// The ticket of the current schema that takes this one's place: same
    /// title, status and description, the assignee if there was one, no
    /// comments, and the identifier it is given.
    pub open spec fn upgraded(self, id: u128) -> TicketView {
        TicketView {
            title: self.title,
            status: self.status,
            id,
            assignees: match self.assignee {
                Some(a) => seq![a],
                None => Seq::empty(),
            },
            description: self.description,
            version: Version::V1,
            comments: Seq::empty(),
        }
    }
}

impl Ticket {
    /// A new ticket: open, assigned to nobody, without comments.
    pub fn fresh(title: String, description: String, id: u128) -> (ticket: Ticket)
        ensures
            ticket@ == TicketView::fresh(title@, description@, id),
    {
        let ticket = Ticket {
            title,
            status: Status::Open,
            id,
            assignees: Vec::new(),
            description,
            version: Version::V1,
            comments: Comments::new(),
        };
        assert(texts(ticket.assignees@) =~= Seq::<Seq<char>>::empty());
        ticket
    }

    /// Writes a comment by the user `author_id`, known as `author`, to the
    /// log under the key `key`. Nothing else about the ticket changes.
    pub fn comment(&mut self, key: u128, author_id: u128, author: Name, body: Comment)
        ensures
            final(self)@ == old(self)@.commented(
                NoteView { id: key, author_id, author: author@, body: body@ },
            ),
            increasing(final(self)@.comments),
    {
        self.comments.insert(Note { id: key, author_id, author, body });
    }
}

impl TicketV0 {
    /// The ticket of the current schema that takes this one's place.
    pub fn upgrade(self, id: u128) -> (ticket: Ticket)
        ensures
            ticket@ == self@.upgraded(id),
    {
        let mut assignees: Vec<String> = Vec::new();
        match self.assignee {
            Some(a) => {
                assignees.push(a);
                assert(texts(assignees@) =~= seq![a@]);
            },
            None => {
                assert(texts(assignees@) =~= Seq::<Seq<char>>::empty());
            },
        }
        Ticket {
            title: self.title,
            status: self.status,
            id,
            assignees,
            description: self.description,
            version: Version::V1,
            comments: Comments::new(),
        }
    }
}

/// A comment under a key that the log does not hold yet adds exactly that
/// key: the log grows by one note, every note it held is still there, and
/// title, status, identifier, assignees, description and version are as
/// they were.
pub proof fn lemma_comment_adds_one_key(ticket: TicketView, note: NoteView)
    requires
        increasing(ticket.comments),
        !has_key(ticket.comments, note.id),
    ensures
        ticket.commented(note).comments.len() == ticket.comments.len() + 1,
        has_key(ticket.commented(note).comments, note.id),
        forall|i: int|
            0 <= i < ticket.comments.len() ==> ticket.commented(note).comments.contains(
                #[trigger] ticket.comments[i],
            ),
        forall|i: int|
            0 <= i < ticket.commented(note).comments.len() ==> (#[trigger] ticket.commented(
                note,
            ).comments[i]) == note || ticket.comments.contains(
                ticket.commented(note).comments[i],
            ),
        ticket.commented(note) == (TicketView {
            comments: ticket.commented(note).comments,
            ..ticket
        }),
{
    crate::comments::lemma_inserted_is_one_more(ticket.comments, note);
}

} // verus!
