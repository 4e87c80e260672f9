//! How tickets stand in TOML: which keys a ticket's table has, what each
//! holds, and when a table is a ticket.

use crate::comments::{increasing, inserted, Comment, Comments, Name, Note, NoteView};
use crate::document::{
    all_texts, as_list, as_table, as_text, entry_shapes, get_integer, get_list,
    get_table, get_text, integer_at, keys_of, list_at, list_value, lookup, parse, parsed, print,
    printed, shape, shapes, table_at, table_value, text_at, text_list, text_value, texts_of, Doc,
};
use crate::id::{format_uuid, parse_uuid, uuid_parse, uuid_text};
use crate::text::texts;
use crate::ticket::{Status, Ticket, TicketV0, TicketV0View, TicketView, Version};
use vstd::prelude::*;
use vstd::string::StringExecFns;

verus! {

/// How a status is written.
pub open spec fn status_text(status: Status) -> Seq<char> {
    match status {
        Status::Open => "Open"@,
        Status::Closed => "Closed"@,
    }
}

/// The status that a text names.
pub open spec fn status_of_text(text: Seq<char>) -> Option<Status> {
    if text == "Open"@ {
        Some(Status::Open)
    } else if text == "Closed"@ {
        Some(Status::Closed)
    } else {
        None
    }
}

/// What a decoder says of a table in which the field `name` is missing or
/// holds a value of the wrong kind.
pub open spec fn field_error(name: Seq<char>) -> Seq<char> {
    "missing or invalid field "@ + name
}

/// What a decoder says of a file whose top level is not a table.
pub open spec fn not_a_table() -> Seq<char> {
    "expected a table"@
}

/// The entry of a comment table for a note: its key as text, over the
/// author's identifier, the author's name and the body.
pub open spec fn note_entry(note: NoteView) -> (Seq<char>, Doc) {
    (
        uuid_text(note.id),
        Doc::List(
            seq![Doc::Text(uuid_text(note.author_id)), Doc::Text(note.author), Doc::Text(note.body)],
        ),
    )
}

/// The note that an entry of a comment table holds, if it holds one: the
/// key and the first of exactly three texts must be identifiers.
pub open spec fn note_of_entry(entry: (Seq<char>, Doc)) -> Option<NoteView> {
    match entry.1 {
        Doc::List(items) => match all_texts(items) {
            Some(parts) => if parts.len() == 3 {
                match (uuid_parse(entry.0), uuid_parse(parts[0])) {
                    (Some(id), Some(author_id)) => Some(
                        NoteView { id, author_id, author: parts[1], body: parts[2] },
                    ),
                    _ => None,
                }
            } else {
                None
            },
            None => None,
        },
        _ => None,
    }
}

/// The comment log that a comment table holds, if every entry holds a note:
/// the notes are written to the log in the order of the entries.
pub open spec fn notes_of(entries: Seq<(Seq<char>, Doc)>) -> Option<Seq<NoteView>>
    decreases entries.len(),
{
    if entries.len() == 0 {
        Some(Seq::empty())
    } else {
        match (notes_of(entries.drop_last()), note_of_entry(entries.last())) {
            (Some(log), Some(note)) => Some(inserted(log, note)),
            _ => None,
        }
    }
}

/// The document of a ticket: the table that is written to its file.
pub open spec fn ticket_doc(t: TicketView) -> Doc {
    Doc::Table(
        seq![
            ("title"@, Doc::Text(t.title)),
            ("status"@, Doc::Text(status_text(t.status))),
            ("id"@, Doc::Text(uuid_text(t.id))),
            ("assignees"@, Doc::List(t.assignees.map_values(|s: Seq<char>| Doc::Text(s)))),
            ("description"@, Doc::Text(t.description)),
            ("version"@, Doc::Text("V1"@)),
            ("comments"@, Doc::Table(t.comments.map_values(|n: NoteView| note_entry(n)))),
        ],
    )
}

/// The status under the key `status`.
pub open spec fn status_at(e: Seq<(Seq<char>, Doc)>) -> Option<Status> {
    match text_at(e, "status"@) {
        Some(s) => status_of_text(s),
        None => None,
    }
}

/// The identifier under the key `key`.
pub open spec fn id_at(e: Seq<(Seq<char>, Doc)>, key: Seq<char>) -> Option<u128> {
    match text_at(e, key) {
        Some(s) => uuid_parse(s),
        None => None,
    }
}

/// The list of texts under the key `key`.
pub open spec fn texts_at(e: Seq<(Seq<char>, Doc)>, key: Seq<char>) -> Option<Seq<Seq<char>>> {
    match list_at(e, key) {
        Some(items) => all_texts(items),
        None => None,
    }
}

/// The comment log under the key `comments`.
pub open spec fn comments_at(e: Seq<(Seq<char>, Doc)>) -> Option<Seq<NoteView>> {
    match table_at(e, "comments"@) {
        Some(inner) => notes_of(inner),
        None => None,
    }
}

/// The ticket that a document holds, or why it holds none. A ticket is a
/// table with a text under `title`, a status under `status`, an identifier
/// under `id`, a list of texts under `assignees`, a text under `description`,
/// `V1` under `version` and a comment table under `comments`. Other keys are
/// passed over. The first field that is missing or ill-formed, in this
/// order, is the one reported.
pub open spec fn ticket_of(doc: Doc) -> Result<TicketView, Seq<char>> {
    match doc {
        Doc::Table(e) => {
            if text_at(e, "title"@) is None {
                Err(field_error("title"@))
            } else if status_at(e) is None {
                Err(field_error("status"@))
            } else if id_at(e, "id"@) is None {
                Err(field_error("id"@))
            } else if texts_at(e, "assignees"@) is None {
                Err(field_error("assignees"@))
            } else if text_at(e, "description"@) is None {
                Err(field_error("description"@))
            } else if text_at(e, "version"@) != Some("V1"@) {
                Err(field_error("version"@))
            } else if comments_at(e) is None {
                Err(field_error("comments"@))
            } else {
                Ok(
                    TicketView {
                        title: text_at(e, "title"@)->0,
                        status: status_at(e)->0,
                        id: id_at(e, "id"@)->0,
                        assignees: texts_at(e, "assignees"@)->0,
                        description: text_at(e, "description"@)->0,
                        version: Version::V1,
                        comments: comments_at(e)->0,
                    },
                )
            }
        },
        _ => Err(not_a_table()),
    }
}

/// The number under the key `number`: an integer that is not negative and
/// fits the machine's word.
pub open spec fn number_at(e: Seq<(Seq<char>, Doc)>) -> Option<usize> {
    match integer_at(e, "number"@) {
        Some(n) => if 0 <= n <= usize::MAX {
            Some(n as usize)
        } else {
            None
        },
        None => None,
    }
}

/// The legacy ticket that a document holds, or why it holds none. A legacy
/// ticket is a table with a text under `title`, a status under `status`, a
/// number under `number`, a text under `description` and, if it has the key
/// `assignee` at all, a text under it.
pub open spec fn ticket_v0_of(doc: Doc) -> Result<TicketV0View, Seq<char>> {
    match doc {
        Doc::Table(e) => {
            if text_at(e, "title"@) is None {
                Err(field_error("title"@))
            } else if status_at(e) is None {
                Err(field_error("status"@))
            } else if number_at(e) is None {
                Err(field_error("number"@))
            } else if lookup(e, "assignee"@) is Some && text_at(e, "assignee"@) is None {
                Err(field_error("assignee"@))
            } else if text_at(e, "description"@) is None {
                Err(field_error("description"@))
            } else {
                Ok(
                    TicketV0View {
                        title: text_at(e, "title"@)->0,
                        status: status_at(e)->0,
                        number: number_at(e)->0,
                        assignee: text_at(e, "assignee"@),
                        description: text_at(e, "description"@)->0,
                    },
                )
            }
        },
        _ => Err(not_a_table()),
    }
}

/// What is made of the bytes of a ticket's file: the ticket, or the
/// parser's or the decoder's reason for there being none.
pub open spec fn decoded(bytes: Seq<u8>) -> Result<TicketView, Seq<char>> {
    match parsed(bytes) {
        Ok(doc) => ticket_of(doc),
        Err(reason) => Err(reason),
    }
}

/// What is made of the bytes of a legacy ticket's file.
pub open spec fn decoded_v0(bytes: Seq<u8>) -> Result<TicketV0View, Seq<char>> {
    match parsed(bytes) {
        Ok(doc) => ticket_v0_of(doc),
        Err(reason) => Err(reason),
    }
}

/// The text of a ticket's file, or the printer's reason for there being
/// none.
pub open spec fn encoded(t: TicketView) -> Result<Seq<char>, Seq<char>> {
    printed(ticket_doc(t))
}

/// The text `"missing or invalid field "` followed by `name`.
fn field_missing(name: &str) -> (reason: String)
    ensures
        reason@ == field_error(name@),
{
    String::from_str("missing or invalid field ").concat(name)
}

/// The status that `text` names.
pub fn parse_status(text: &str) -> (status: Option<Status>)
    ensures
        status == status_of_text(text@),
{
    let given = String::from_str(text);
    if given == String::from_str("Open") {
        Some(Status::Open)
    } else if given == String::from_str("Closed") {
        Some(Status::Closed)
    } else {
        None
    }
}

/// How `status` is written.
pub fn status_name(status: Status) -> (text: String)
    ensures
        text@ == status_text(status),
{
    match status {
        Status::Open => String::from_str("Open"),
        Status::Closed => String::from_str("Closed"),
    }
}

/// The status under the key `status`.
fn get_status(entries: &Vec<(String, toml::Value)>) -> (status: Option<Status>)
    ensures
        status == status_at(entry_shapes(entries@)),
{
    match get_text(entries, "status") {
        Some(s) => parse_status(s.as_str()),
        None => None,
    }
}

/// The identifier under the key `key`.
fn get_id(entries: &Vec<(String, toml::Value)>, key: &str) -> (id: Option<u128>)
    ensures
        id == id_at(entry_shapes(entries@), key@),
{
    match get_text(entries, key) {
        Some(s) => parse_uuid(s.as_str()),
        None => None,
    }
}

/// The list of texts under the key `key`.
fn get_texts(entries: &Vec<(String, toml::Value)>, key: &str) -> (list: Option<Vec<String>>)
    ensures
        match list {
            Some(l) => texts_at(entry_shapes(entries@), key@) == Some(texts(l@)),
            None => texts_at(entry_shapes(entries@), key@) is None,
        },
{
    match get_list(entries, key) {
        Some(items) => texts_of(&items),
        None => None,
    }
}

/// The note that the entry `key`, `value` of a comment table holds.
fn note_from_entry(key: &String, value: &toml::Value) -> (note: Option<Note>)
    ensures
        match note {
            Some(n) => note_of_entry((key@, shape(*value))) == Some(n@),
            None => note_of_entry((key@, shape(*value))) is None,
        },
{
    let items = match as_list(value) {
        Some(items) => items,
        None => {
            return None;
        },
    };
    let mut parts = match texts_of(&items) {
        Some(parts) => parts,
        None => {
            return None;
        },
    };
    if parts.len() != 3 {
        return None;
    }
    let id = parse_uuid(key.as_str());
    let author_id = parse_uuid(parts[0].as_str());
    match (id, author_id) {
        (Some(id), Some(author_id)) => {
            let ghost texts_before = texts(parts@);
            let body = parts.remove(2);
            let author = parts.remove(1);
            assert(author@ == texts_before[1]);
            assert(body@ == texts_before[2]);
            Some(Note { id, author_id, author: Name(author), body: Comment(body) })
        },
        _ => None,
    }
}

/// The comment log that the entries of a comment table hold.
fn notes_from_entries(entries: &Vec<(String, toml::Value)>) -> (log: Option<Comments>)
    ensures
        match log {
            Some(l) => notes_of(entry_shapes(entries@)) == Some(l@),
            None => notes_of(entry_shapes(entries@)) is None,
        },
{
    let mut log = Comments::new();
    let ghost all = entry_shapes(entries@);
    let mut i: usize = 0;
    assert(all.take(0) =~= Seq::<(Seq<char>, Doc)>::empty());
    while i < entries.len()
        invariant
            i <= entries.len(),
            all == entry_shapes(entries@),
            notes_of(all.take(i as int)) == Some(log@),
        decreases entries.len() - i,
    {
        proof {
            assert(all.take(i + 1).drop_last() =~= all.take(i as int));
            assert(all.take(i + 1).last() == (entries@[i as int].0@, shape(entries@[i as int].1)));
        }
        match note_from_entry(&entries[i].0, &entries[i].1) {
            Some(note) => {
                log.insert(note);
            },
            None => {
                proof {
                    lemma_notes_of_prefix(all, i + 1);
                }
                return None;
            },
        }
        i += 1;
    }
    assert(all.take(entries.len() as int) =~= all);
    Some(log)
}

/// A comment table of which a prefix holds no log holds none.
proof fn lemma_notes_of_prefix(entries: Seq<(Seq<char>, Doc)>, n: int)
    requires
        0 <= n <= entries.len(),
        notes_of(entries.take(n)) is None,
    ensures
        notes_of(entries) is None,
    decreases entries.len() - n,
{
    if n < entries.len() {
        assert(entries.take(n + 1).drop_last() =~= entries.take(n));
        lemma_notes_of_prefix(entries, n + 1);
    } else {
        assert(entries.take(n) =~= entries);
    }
}

/// The comment log under the key `comments`.
fn get_comments(entries: &Vec<(String, toml::Value)>) -> (log: Option<Comments>)
    ensures
        match log {
            Some(l) => comments_at(entry_shapes(entries@)) == Some(l@),
            None => comments_at(entry_shapes(entries@)) is None,
        },
{
    match get_table(entries, "comments") {
        Some(inner) => notes_from_entries(&inner),
        None => None,
    }
}

/// The ticket that the value `v` holds, or why it holds none.
pub fn ticket_from_value(v: &toml::Value) -> (r: Result<Ticket, String>)
    ensures
        match r {
            Ok(t) => ticket_of(shape(*v)) == Ok::<TicketView, Seq<char>>(t@),
            Err(e) => ticket_of(shape(*v)) == Err::<TicketView, Seq<char>>(e@),
        },
{
    let entries = match as_table(v) {
        Some(entries) => entries,
        None => {
            return Err(String::from_str("expected a table"));
        },
    };
    let title = match get_text(&entries, "title") {
        Some(s) => s,
        None => {
            return Err(field_missing("title"));
        },
    };
    let status = match get_status(&entries) {
        Some(s) => s,
        None => {
            return Err(field_missing("status"));
        },
    };
    let id = match get_id(&entries, "id") {
        Some(id) => id,
        None => {
            return Err(field_missing("id"));
        },
    };
    let assignees = match get_texts(&entries, "assignees") {
        Some(l) => l,
        None => {
            return Err(field_missing("assignees"));
        },
    };
    let description = match get_text(&entries, "description") {
        Some(s) => s,
        None => {
            return Err(field_missing("description"));
        },
    };
    match get_text(&entries, "version") {
        Some(s) => {
            if !(s == String::from_str("V1")) {
                return Err(field_missing("version"));
            }
        },
        None => {
            return Err(field_missing("version"));
        },
    }
    let comments = match get_comments(&entries) {
        Some(l) => l,
        None => {
            return Err(field_missing("comments"));
        },
    };
    Ok(Ticket { title, status, id, assignees, description, version: Version::V1, comments })
}

/// The number under the key `number`.
fn get_number(entries: &Vec<(String, toml::Value)>) -> (number: Option<usize>)
    ensures
        number == number_at(entry_shapes(entries@)),
{
    match get_integer(entries, "number") {
        Some(n) => {
            if n >= 0 && n as u64 <= usize::MAX as u64 {
                Some(n as usize)
            } else {
                None
            }
        },
        None => None,
    }
}

/// The legacy ticket that the value `v` holds, or why it holds none.
pub fn ticket_v0_from_value(v: &toml::Value) -> (r: Result<TicketV0, String>)
    ensures
        match r {
            Ok(t) => ticket_v0_of(shape(*v)) == Ok::<TicketV0View, Seq<char>>(t@),
            Err(e) => ticket_v0_of(shape(*v)) == Err::<TicketV0View, Seq<char>>(e@),
        },
{
    let entries = match as_table(v) {
        Some(entries) => entries,
        None => {
            return Err(String::from_str("expected a table"));
        },
    };
    let title = match get_text(&entries, "title") {
        Some(s) => s,
        None => {
            return Err(field_missing("title"));
        },
    };
    let status = match get_status(&entries) {
        Some(s) => s,
        None => {
            return Err(field_missing("status"));
        },
    };
    let number = match get_number(&entries) {
        Some(n) => n,
        None => {
            return Err(field_missing("number"));
        },
    };
    let assignee = match crate::document::find(&entries, "assignee") {
        Some(a) => match as_text(a) {
            Some(s) => Some(s),
            None => {
                return Err(field_missing("assignee"));
            },
        },
        None => None,
    };
    let description = match get_text(&entries, "description") {
        Some(s) => s,
        None => {
            return Err(field_missing("description"));
        },
    };
    Ok(TicketV0 { title, status, number, assignee, description })
}

/// Reads a ticket from the bytes of its file.
pub fn decode_ticket(bytes: &[u8]) -> (r: Result<Ticket, String>)
    ensures
        match r {
            Ok(t) => decoded(bytes@) == Ok::<TicketView, Seq<char>>(t@),
            Err(e) => decoded(bytes@) == Err::<TicketView, Seq<char>>(e@),
        },
{
    match parse(bytes) {
        Ok(v) => ticket_from_value(&v),
        Err(e) => Err(e),
    }
}

/// Reads a legacy ticket from the bytes of its file.
pub fn decode_ticket_v0(bytes: &[u8]) -> (r: Result<TicketV0, String>)
    ensures
        match r {
            Ok(t) => decoded_v0(bytes@) == Ok::<TicketV0View, Seq<char>>(t@),
            Err(e) => decoded_v0(bytes@) == Err::<TicketV0View, Seq<char>>(e@),
        },
{
    match parse(bytes) {
        Ok(v) => ticket_v0_from_value(&v),
        Err(e) => Err(e),
    }
}

/// The text of `id` reads back as `id`.
pub open spec fn readable(id: u128) -> bool {
    uuid_parse(uuid_text(id)) == Some(id)
}

/// Every key and every author's identifier in the log reads back from its
/// text.
pub open spec fn all_readable(log: Seq<NoteView>) -> bool {
    forall|i: int|
        0 <= i < log.len() ==> readable((#[trigger] log[i]).id) && readable(log[i].author_id)
}

/// A note whose key is above every key of a log goes to the end of the log.
proof fn lemma_inserted_last(log: Seq<NoteView>, note: NoteView)
    requires
        forall|i: int| 0 <= i < log.len() ==> log[i].id < note.id,
    ensures
        inserted(log, note) == log.push(note),
{
    crate::order::lemma_filter_keeps(log, crate::comments::below(note.id));
    crate::order::lemma_filter_drops(log, crate::comments::above(note.id));
    assert(inserted(log, note) =~= log.push(note));
}

/// The comment table of a log holds that log.
proof fn lemma_notes_round_trip(log: Seq<NoteView>)
    requires
        increasing(log),
        all_readable(log),
    ensures
        notes_of(log.map_values(|n: NoteView| note_entry(n))) == Some(log),
    decreases log.len(),
{
    let entries = log.map_values(|n: NoteView| note_entry(n));
    if log.len() > 0 {
        let init = log.drop_last();
        let last = log.last();
        lemma_notes_round_trip(init);
        assert(entries.drop_last() =~= init.map_values(|n: NoteView| note_entry(n)));
        assert(entries.last() == note_entry(last));
        let items = note_entry(last).1->List_0;
        assert(items[0] is Text && items[1] is Text && items[2] is Text);
        assert(all_texts(items)->0 =~= seq![uuid_text(last.author_id), last.author, last.body]);
        assert(note_of_entry(note_entry(last)) == Some(last));
        assert forall|i: int| 0 <= i < init.len() implies init[i].id < last.id by {
            assert(init[i] == log[i]);
        }
        lemma_inserted_last(init, last);
        assert(init.push(last) =~= log);
    } else {
        assert(entries =~= Seq::<(Seq<char>, Doc)>::empty());
    }
}

/// The keys of a ticket's table differ from each other.
proof fn lemma_ticket_keys()
    ensures
        "title"@ != "status"@,
        "title"@ != "id"@,
        "title"@ != "assignees"@,
        "title"@ != "description"@,
        "title"@ != "version"@,
        "title"@ != "comments"@,
        "status"@ != "id"@,
        "status"@ != "assignees"@,
        "status"@ != "description"@,
        "status"@ != "version"@,
        "status"@ != "comments"@,
        "id"@ != "assignees"@,
        "id"@ != "description"@,
        "id"@ != "version"@,
        "id"@ != "comments"@,
        "assignees"@ != "description"@,
        "assignees"@ != "version"@,
        "assignees"@ != "comments"@,
        "description"@ != "version"@,
        "description"@ != "comments"@,
        "version"@ != "comments"@,
        "number"@ != "title"@,
        "number"@ != "status"@,
        "number"@ != "id"@,
        "number"@ != "assignees"@,
        "number"@ != "description"@,
        "number"@ != "version"@,
        "number"@ != "comments"@,
        "Open"@ != "Closed"@,
{
    reveal_strlit("title");
    reveal_strlit("status");
    reveal_strlit("id");
    reveal_strlit("assignees");
    reveal_strlit("description");
    reveal_strlit("version");
    reveal_strlit("comments");
    reveal_strlit("number");
    reveal_strlit("Open");
    reveal_strlit("Closed");
    assert("title"@.len() == 5);
    assert("id"@.len() == 2);
    assert("assignees"@.len() == 9);
    assert("description"@.len() == 11);
    assert("version"@.len() == 7);
    assert("comments"@.len() == 8);
    assert("number"@.len() == 6 && "status"@.len() == 6);
    assert("number"@[0] == 'n' && "status"@[0] == 's');
    assert("Open"@.len() == 4 && "Closed"@.len() == 6);
}

/// The document of a ticket holds that ticket.
proof fn lemma_ticket_round_trip(t: TicketView)
    requires
        increasing(t.comments),
        all_readable(t.comments),
        readable(t.id),
        t.version == Version::V1,
    ensures
        ticket_of(ticket_doc(t)) == Ok::<TicketView, Seq<char>>(t),
{
    lemma_ticket_keys();
    lemma_notes_round_trip(t.comments);
    reveal_with_fuel(lookup, 8);
    let e = ticket_doc(t)->Table_0;
    let listed = t.assignees.map_values(|s: Seq<char>| Doc::Text(s));
    assert(all_texts(listed)->0 =~= t.assignees);
    assert(all_texts(listed) is Some);
    assert(lookup(e, "title"@) == Some(Doc::Text(t.title)));
    assert(lookup(e, "status"@) == Some(Doc::Text(status_text(t.status))));
    assert(lookup(e, "id"@) == Some(Doc::Text(uuid_text(t.id))));
    assert(lookup(e, "assignees"@) == Some(Doc::List(listed)));
    assert(lookup(e, "description"@) == Some(Doc::Text(t.description)));
    assert(lookup(e, "version"@) == Some(Doc::Text("V1"@)));
    assert(lookup(e, "comments"@) == Some(
        Doc::Table(t.comments.map_values(|n: NoteView| note_entry(n))),
    ));
    assert(status_at(e) == Some(t.status));
    let back = ticket_of(ticket_doc(t))->Ok_0;
    assert(back.assignees == t.assignees);
}

/// A ticket of the current schema is no legacy ticket: its document has no
/// `number`, so the legacy decoder turns it down and a migration passes it
/// over.
pub proof fn lemma_current_is_not_legacy(t: TicketView)
    ensures
        ticket_v0_of(ticket_doc(t)) is Err,
{
    lemma_ticket_keys();
    reveal_with_fuel(lookup, 8);
    let e = ticket_doc(t)->Table_0;
    assert(lookup(e, "number"@) is None);
}

/// An identifier as a TOML value: the text that the `uuid` crate writes
/// for it.
fn id_value(id: u128) -> (v: toml::Value)
    ensures
        shape(v) == Doc::Text(uuid_text(id)),
        readable(id),
{
    text_value(format_uuid(id))
}

/// The entry of a comment table for `note`.
fn note_value(note: &Note) -> (entry: (String, toml::Value))
    ensures
        (entry.0@, shape(entry.1)) == note_entry(note@),
        readable(note.id),
        readable(note.author_id),
{
    let mut items: Vec<toml::Value> = Vec::new();
    items.push(id_value(note.author_id));
    items.push(text_value(note.author.0.clone()));
    items.push(text_value(note.body.0.clone()));
    assert(shapes(items@) =~= seq![
        Doc::Text(uuid_text(note.author_id)),
        Doc::Text(note.author@),
        Doc::Text(note.body@),
    ]);
    (format_uuid(note.id), list_value(items))
}

/// The comment table of `log`.
fn comments_value(log: &Comments) -> (v: toml::Value)
    ensures
        shape(v) == Doc::Table(log@.map_values(|n: NoteView| note_entry(n))),
        all_readable(log@),
        increasing(log@),
{
    let mut entries: Vec<(String, toml::Value)> = Vec::new();
    let n = log.len();
    let mut i: usize = 0;
    while i < n
        invariant
            i <= n,
            n == log@.len(),
            increasing(log@),
            entries.len() == i,
            forall|j: int|
                0 <= j < i ==> (#[trigger] entries@[j]).0@ == uuid_text(log@[j].id) && shape(
                    entries@[j].1,
                ) == note_entry(log@[j]).1,
            forall|j: int|
                0 <= j < i ==> readable((#[trigger] log@[j]).id) && readable(log@[j].author_id),
        decreases n - i,
    {
        let note = log.get(i);
        entries.push(note_value(note));
        i += 1;
    }
    let ghost made = entry_shapes(entries@);
    assert(made =~= log@.map_values(|n: NoteView| note_entry(n)));
    let ghost keys = keys_of(entries@);
    assert forall|a: int, b: int| 0 <= a < b < keys.len() implies keys[a] != keys[b] by {
        assert(keys[a] == uuid_text(log@[a].id));
        assert(keys[b] == uuid_text(log@[b].id));
        assert(log@[a].id < log@[b].id);
    }
    table_value(entries)
}

/// A ticket as a TOML value: the table that [`ticket_doc`] describes. Read
/// back, that table is the ticket again.
pub fn ticket_value(t: &Ticket) -> (v: toml::Value)
    ensures
        shape(v) == ticket_doc(t@),
        ticket_of(shape(v)) == Ok::<TicketView, Seq<char>>(t@),
{
    let mut entries: Vec<(String, toml::Value)> = Vec::new();
    entries.push((String::from_str("title"), text_value(t.title.clone())));
    entries.push((String::from_str("status"), text_value(status_name(t.status))));
    entries.push((String::from_str("id"), id_value(t.id)));
    entries.push((String::from_str("assignees"), text_list(&t.assignees)));
    entries.push((String::from_str("description"), text_value(t.description.clone())));
    entries.push((String::from_str("version"), text_value(String::from_str("V1"))));
    entries.push((String::from_str("comments"), comments_value(&t.comments)));
    proof {
        lemma_ticket_keys();
        let made = entry_shapes(entries@);
        let wanted = ticket_doc(t@)->Table_0;
        assert(made.len() == 7);
        assert(made[0] == wanted[0]);
        assert(made[1] == wanted[1]);
        assert(made[2] == wanted[2]);
        assert(made[3] == wanted[3]);
        assert(made[4] == wanted[4]);
        assert(made[5] == wanted[5]);
        assert(made[6] == wanted[6]);
        assert(made =~= wanted);
        assert(keys_of(entries@) =~= seq![
            "title"@,
            "status"@,
            "id"@,
            "assignees"@,
            "description"@,
            "version"@,
            "comments"@,
        ]);
        lemma_ticket_round_trip(t@);
    }
    table_value(entries)
}

/// Writes a ticket as the text of its file: its document, printed. Read
/// back, the document is the ticket again.
pub fn encode_ticket(t: &Ticket) -> (r: Result<String, String>)
    ensures
        match r {
            Ok(s) => encoded(t@) == Ok::<Seq<char>, Seq<char>>(s@),
            Err(e) => encoded(t@) == Err::<Seq<char>, Seq<char>>(e@),
        },
        ticket_of(ticket_doc(t@)) == Ok::<TicketView, Seq<char>>(t@),
{
    print(&ticket_value(t))
}

} // verus!
