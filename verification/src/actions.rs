//! The ticket store: where tickets live, how the files of a directory
//! become tickets, and what is written when a ticket is saved.

use crate::codec::{
    decode_ticket, decode_ticket_v0, decoded, decoded_v0, encode_ticket, encoded, ticket_doc,
    ticket_of,
};
use crate::error::{Error, ErrorView};
use crate::order::{key_fn, ordered, sort, sorted, views_of};
use crate::plan::{Base, Effect, EffectView, Location, LocationView};
use crate::text::{slug, slug_of};
use crate::ticket::{Status, Ticket, TicketV0, TicketV0View, TicketView};
use vstd::prelude::*;
use vstd::string::StringExecFns;

verus! {

/// An entry of a directory as it was found: its name, whether it is a
/// regular file, and for a regular file the bytes it holds.
#[derive(Debug, PartialEq, Eq)]
pub struct Entry {
    pub name: String,
    pub is_file: bool,
    pub contents: Vec<u8>,
}

/// An [`Entry`] as contracts see it.
pub ghost struct EntryView {
    pub name: Seq<char>,
    pub is_file: bool,
    pub contents: Seq<u8>,
}

impl View for Entry {
    type V = EntryView;

    open spec fn view(&self) -> EntryView {
        EntryView { name: self.name@, is_file: self.is_file, contents: self.contents@ }
    }
}

/// What the two ticket directories held when they were read.
#[derive(Debug, PartialEq, Eq)]
pub struct Snapshot {
    pub open: Vec<Entry>,
    pub closed: Vec<Entry>,
}

/// The directory that holds both ticket directories.
pub open spec fn root_place() -> LocationView {
    LocationView::at(Base::Repository).join(".dev-suite"@).join("ticket"@)
}

/// The name of the directory for tickets of a status.
pub open spec fn directory_name(status: Status) -> Seq<char> {
    match status {
        Status::Open => "open"@,
        Status::Closed => "closed"@,
    }
}

/// The directory for tickets of a status.
pub open spec fn directory_place(status: Status) -> LocationView {
    root_place().join(directory_name(status))
}

/// The name of the file of a ticket with this title: the slug of the title
/// and `.toml`.
pub open spec fn file_name_of(title: Seq<char>) -> Seq<char> {
    slug_of(title) + ".toml"@
}

/// The place of a ticket's file: named after its title, in the directory of
/// its status.
pub open spec fn place_of(t: TicketView) -> LocationView {
    directory_place(t.status).join(file_name_of(t.title))
}

/// The directory that holds both ticket directories.
pub fn ticket_root() -> (place: Location)
    ensures
        place@ == root_place(),
{
    Location::at(Base::Repository).join(".dev-suite").join("ticket")
}

/// The directory of the closed tickets.
pub fn closed_tickets() -> (place: Location)
    ensures
        place@ == directory_place(Status::Closed),
{
    ticket_root().join("closed")
}

/// The directory of the open tickets.
pub fn open_tickets() -> (place: Location)
    ensures
        place@ == directory_place(Status::Open),
{
    ticket_root().join("open")
}

/// The directory for tickets of `status`.
pub fn directory(status: Status) -> (place: Location)
    ensures
        place@ == directory_place(status),
{
    match status {
        Status::Open => open_tickets(),
        Status::Closed => closed_tickets(),
    }
}

/// The name of the file for a slug.
pub fn file_name_for(slug: &str) -> (name: String)
    ensures
        name@ == slug@ + ".toml"@,
{
    String::from_str(slug).concat(".toml")
}

/// The name of a ticket's file.
pub fn ticket_file_name(ticket: &Ticket) -> (name: String)
    ensures
        name@ == file_name_of(ticket@.title),
{
    let stem = slug(ticket.title.as_str());
    file_name_for(stem.as_str())
}

/// The place of a ticket's file.
pub fn ticket_path(ticket: &Ticket) -> (place: Location)
    ensures
        place@ == place_of(ticket@),
{
    let name = ticket_file_name(ticket);
    directory(ticket.status).join(name.as_str())
}

/// A ticket lives under `open` if and only if it is open, and under
/// `closed` if and only if it is closed; its file is named after its title.
pub proof fn lemma_place_matches_status(t: TicketView)
    ensures
        place_of(t).parts.len() == 4,
        place_of(t).parts[0] == ".dev-suite"@,
        place_of(t).parts[1] == "ticket"@,
        place_of(t).parts[2] == "open"@ <==> t.status == Status::Open,
        place_of(t).parts[2] == "closed"@ <==> t.status == Status::Closed,
        place_of(t).parts[3] == slug_of(t.title) + ".toml"@,
{
    reveal_strlit("open");
    reveal_strlit("closed");
    assert("open"@.len() == 4 && "closed"@.len() == 6);
}

/// The views of a sequence of entries.
pub open spec fn entry_views(entries: Seq<Entry>) -> Seq<EntryView> {
    entries.map_values(|e: Entry| e@)
}

/// The tickets in the files among `entries`, each with the name of its
/// file, in the order of the entries; or the first failure: a file that
/// holds no ticket of the current schema is reported with its place in `dir`
/// and the decoder's reason. Entries that are no files are passed over.
pub open spec fn found_in(entries: Seq<EntryView>, dir: LocationView) -> Result<
    Seq<(Seq<char>, TicketView)>,
    ErrorView,
>
    decreases entries.len(),
{
    if entries.len() == 0 {
        Ok(Seq::empty())
    } else {
        let last = entries.last();
        match found_in(entries.drop_last(), dir) {
            Err(e) => Err(e),
            Ok(before) => if !last.is_file {
                Ok(before)
            } else {
                match decoded(last.contents) {
                    Ok(t) => Ok(before.push((last.name, t))),
                    Err(reason) => Err(
                        ErrorView::CorruptTicket(dir.join(last.name).display(), reason),
                    ),
                }
            },
        }
    }
}

/// The tickets of named tickets.
pub open spec fn unnamed(found: Seq<(Seq<char>, TicketView)>) -> Seq<TicketView> {
    found.map_values(|p: (Seq<char>, TicketView)| p.1)
}

/// Names and tickets as contracts see them.
pub open spec fn named_views(found: Seq<(String, Ticket)>) -> Seq<(Seq<char>, TicketView)> {
    found.map_values(|p: (String, Ticket)| (p.0@, p.1@))
}

/// The tickets in the files among `entries`, in the order of the entries,
/// or the first failure.
pub open spec fn loaded(entries: Seq<EntryView>, dir: LocationView) -> Result<
    Seq<TicketView>,
    ErrorView,
> {
    match found_in(entries, dir) {
        Ok(found) => Ok(unnamed(found)),
        Err(e) => Err(e),
    }
}

/// The tickets of a directory: those in its files, sorted by identifier.
pub open spec fn tickets_in(entries: Seq<EntryView>, dir: LocationView) -> Result<
    Seq<TicketView>,
    ErrorView,
> {
    match loaded(entries, dir) {
        Ok(found) => Ok(sorted(found, key_fn::<Ticket>())),
        Err(e) => Err(e),
    }
}

/// The tickets of both directories: the open ones, then the closed ones,
/// each sorted among themselves. A failure among the open tickets comes
/// before one among the closed.
pub open spec fn all_tickets_in(open: Seq<EntryView>, closed: Seq<EntryView>) -> Result<
    Seq<TicketView>,
    ErrorView,
> {
    match tickets_in(open, directory_place(Status::Open)) {
        Err(e) => Err(e),
        Ok(first) => match tickets_in(closed, directory_place(Status::Closed)) {
            Err(e) => Err(e),
            Ok(second) => Ok(first + second),
        },
    }
}

/// A failure among the first entries is the failure of the whole.
proof fn lemma_found_prefix(entries: Seq<EntryView>, dir: LocationView, n: int)
    requires
        0 <= n <= entries.len(),
        found_in(entries.take(n), dir) is Err,
    ensures
        found_in(entries, dir) == found_in(entries.take(n), dir),
    decreases entries.len() - n,
{
    if n < entries.len() {
        assert(entries.take(n + 1).drop_last() =~= entries.take(n));
        lemma_found_prefix(entries, dir, n + 1);
    } else {
        assert(entries.take(n) =~= entries);
    }
}

/// Reads the tickets of the directory `dir` from its entries, each with the
/// name of its file, in the order of the entries.
pub fn load(entries: &Vec<Entry>, dir: &Location) -> (r: Result<Vec<(String, Ticket)>, Error>)
    ensures
        match r {
            Ok(found) => found_in(entry_views(entries@), dir@) == Ok::<
                Seq<(Seq<char>, TicketView)>,
                ErrorView,
            >(named_views(found@)),
            Err(e) => found_in(entry_views(entries@), dir@) == Err::<
                Seq<(Seq<char>, TicketView)>,
                ErrorView,
            >(e@),
        },
{
    let ghost all = entry_views(entries@);
    let mut out: Vec<(String, Ticket)> = Vec::new();
    let mut i: usize = 0;
    assert(all.take(0) =~= Seq::<EntryView>::empty());
    assert(named_views(out@) =~= Seq::<(Seq<char>, TicketView)>::empty());
    while i < entries.len()
        invariant
            i <= entries.len(),
            all == entry_views(entries@),
            found_in(all.take(i as int), dir@) == Ok::<Seq<(Seq<char>, TicketView)>, ErrorView>(
                named_views(out@),
            ),
        decreases entries.len() - i,
    {
        proof {
            assert(all.take(i + 1).drop_last() =~= all.take(i as int));
            assert(all.take(i + 1).last() == entries@[i as int]@);
        }
        if entries[i].is_file {
            match decode_ticket(entries[i].contents.as_slice()) {
                Ok(ticket) => {
                    let ghost before = named_views(out@);
                    let name = entries[i].name.clone();
                    out.push((name, ticket));
                    assert(named_views(out@) =~= before.push((name@, ticket@)));
                },
                Err(reason) => {
                    let place = dir.clone().join(entries[i].name.as_str());
                    proof {
                        lemma_found_prefix(all, dir@, i + 1);
                    }
                    return Err(Error::CorruptTicket(place.display(), reason));
                },
            }
        }
        i += 1;
    }
    assert(all.take(entries.len() as int) =~= all);
    Ok(out)
}

/// The tickets of `found`, without the names of their files.
pub fn without_names(found: Vec<(String, Ticket)>) -> (tickets: Vec<Ticket>)
    ensures
        views_of(tickets@) == unnamed(named_views(found@)),
{
    let ghost all = unnamed(named_views(found@));
    let mut rest = found;
    let mut out: Vec<Ticket> = Vec::new();
    assert(views_of(out@) =~= all.take(0));
    while rest.len() > 0
        invariant
            out.len() + rest.len() == all.len(),
            views_of(out@) == all.take(out.len() as int),
            unnamed(named_views(rest@)) == all.skip(out.len() as int),
        decreases rest.len(),
    {
        let ghost done = out.len() as int;
        let ghost left = unnamed(named_views(rest@));
        let pair = rest.remove(0);
        proof {
            assert(left[0] == pair.1@);
            assert(left[0] == all[done]);
            assert forall|k: int| 0 <= k < rest.len() implies (#[trigger] rest@[k]).1@ == all[done
                + 1 + k] by {
                assert(left[k + 1] == all.skip(done)[k + 1]);
            }
            assert(unnamed(named_views(rest@)) =~= all.skip(done + 1));
        }
        out.push(pair.1);
        assert(views_of(out@) =~= all.take(done + 1));
    }
    assert(all.take(all.len() as int) =~= all);
    out
}

/// Reads the tickets of the directory `dir` from its entries, sorted by
/// identifier.
pub fn get_tickets(entries: &Vec<Entry>, dir: &Location) -> (r: Result<Vec<Ticket>, Error>)
    ensures
        match r {
            Ok(tickets) => tickets_in(entry_views(entries@), dir@) == Ok::<
                Seq<TicketView>,
                ErrorView,
            >(views_of(tickets@)) && ordered(views_of(tickets@), key_fn::<Ticket>()),
            Err(e) => tickets_in(entry_views(entries@), dir@) == Err::<Seq<TicketView>, ErrorView>(
                e@,
            ),
        },
{
    match load(entries, dir) {
        Ok(found) => Ok(sort(without_names(found))),
        Err(e) => Err(e),
    }
}

/// Reads the open tickets.
pub fn get_open_tickets(snapshot: &Snapshot) -> (r: Result<Vec<Ticket>, Error>)
    ensures
        match r {
            Ok(tickets) => tickets_in(entry_views(snapshot.open@), directory_place(Status::Open))
                == Ok::<Seq<TicketView>, ErrorView>(views_of(tickets@)) && ordered(
                views_of(tickets@),
                key_fn::<Ticket>(),
            ),
            Err(e) => tickets_in(entry_views(snapshot.open@), directory_place(Status::Open))
                == Err::<Seq<TicketView>, ErrorView>(e@),
        },
{
    get_tickets(&snapshot.open, &open_tickets())
}

/// Reads the closed tickets.
pub fn get_closed_tickets(snapshot: &Snapshot) -> (r: Result<Vec<Ticket>, Error>)
    ensures
        match r {
            Ok(tickets) => tickets_in(
                entry_views(snapshot.closed@),
                directory_place(Status::Closed),
            ) == Ok::<Seq<TicketView>, ErrorView>(views_of(tickets@)) && ordered(
                views_of(tickets@),
                key_fn::<Ticket>(),
            ),
            Err(e) => tickets_in(entry_views(snapshot.closed@), directory_place(Status::Closed))
                == Err::<Seq<TicketView>, ErrorView>(e@),
        },
{
    get_tickets(&snapshot.closed, &closed_tickets())
}

/// Reads all tickets: the open ones, then the closed ones.
pub fn get_all_tickets(snapshot: &Snapshot) -> (r: Result<Vec<Ticket>, Error>)
    ensures
        match r {
            Ok(tickets) => all_tickets_in(
                entry_views(snapshot.open@),
                entry_views(snapshot.closed@),
            ) == Ok::<Seq<TicketView>, ErrorView>(views_of(tickets@)),
            Err(e) => all_tickets_in(entry_views(snapshot.open@), entry_views(snapshot.closed@))
                == Err::<Seq<TicketView>, ErrorView>(e@),
        },
{
    let mut tickets = match get_open_tickets(snapshot) {
        Ok(tickets) => tickets,
        Err(e) => {
            return Err(e);
        },
    };
    let mut closed = match get_closed_tickets(snapshot) {
        Ok(tickets) => tickets,
        Err(e) => {
            return Err(e);
        },
    };
    let ghost first = views_of(tickets@);
    let ghost second = views_of(closed@);
    tickets.append(&mut closed);
    assert(views_of(tickets@) =~= first + second);
    Ok(tickets)
}

/// The legacy tickets in the files among `entries`, in the order of the
/// entries. Whatever holds no legacy ticket is passed over.
pub open spec fn loaded_v0(entries: Seq<EntryView>) -> Seq<TicketV0View>
    decreases entries.len(),
{
    if entries.len() == 0 {
        Seq::empty()
    } else {
        let last = entries.last();
        let before = loaded_v0(entries.drop_last());
        if last.is_file && decoded_v0(last.contents) is Ok {
            before.push(decoded_v0(last.contents)->Ok_0)
        } else {
            before
        }
    }
}

/// Reads the legacy tickets of a directory from its entries, sorted by
/// number.
pub fn get_ticketsv0(entries: &Vec<Entry>) -> (tickets: Vec<TicketV0>)
    ensures
        views_of(tickets@) == sorted(loaded_v0(entry_views(entries@)), key_fn::<TicketV0>()),
        ordered(views_of(tickets@), key_fn::<TicketV0>()),
{
    let ghost all = entry_views(entries@);
    let mut out: Vec<TicketV0> = Vec::new();
    let mut i: usize = 0;
    assert(all.take(0) =~= Seq::<EntryView>::empty());
    assert(views_of(out@) =~= Seq::<TicketV0View>::empty());
    while i < entries.len()
        invariant
            i <= entries.len(),
            all == entry_views(entries@),
            loaded_v0(all.take(i as int)) == views_of(out@),
        decreases entries.len() - i,
    {
        proof {
            assert(all.take(i + 1).drop_last() =~= all.take(i as int));
            assert(all.take(i + 1).last() == entries@[i as int]@);
        }
        if entries[i].is_file {
            match decode_ticket_v0(entries[i].contents.as_slice()) {
                Ok(ticket) => {
                    let ghost before = views_of(out@);
                    out.push(ticket);
                    assert(views_of(out@) =~= before.push(ticket@));
                },
                Err(_) => {},
            }
        }
        i += 1;
    }
    assert(all.take(entries.len() as int) =~= all);
    sort(out)
}

/// Reads the open legacy tickets.
pub fn get_open_ticketsv0(snapshot: &Snapshot) -> (tickets: Vec<TicketV0>)
    ensures
        views_of(tickets@) == sorted(loaded_v0(entry_views(snapshot.open@)), key_fn::<TicketV0>()),
{
    get_ticketsv0(&snapshot.open)
}

/// Reads the closed legacy tickets.
pub fn get_closed_ticketsv0(snapshot: &Snapshot) -> (tickets: Vec<TicketV0>)
    ensures
        views_of(tickets@) == sorted(
            loaded_v0(entry_views(snapshot.closed@)),
            key_fn::<TicketV0>(),
        ),
{
    get_ticketsv0(&snapshot.closed)
}

/// Reads all legacy tickets: the open ones, then the closed ones.
pub fn get_all_ticketsv0(snapshot: &Snapshot) -> (tickets: Vec<TicketV0>)
    ensures
        views_of(tickets@) == sorted(loaded_v0(entry_views(snapshot.open@)), key_fn::<TicketV0>())
            + sorted(loaded_v0(entry_views(snapshot.closed@)), key_fn::<TicketV0>()),
{
    let mut tickets = get_open_ticketsv0(snapshot);
    let mut closed = get_closed_ticketsv0(snapshot);
    let ghost first = views_of(tickets@);
    let ghost second = views_of(closed@);
    tickets.append(&mut closed);
    assert(views_of(tickets@) =~= first + second);
    tickets
}

/// What saving a ticket does: its text is written to its place. Where the
/// ticket cannot be printed, nothing is done and the printer's reason is
/// reported for that place.
pub open spec fn saved(t: TicketView) -> Result<EffectView, ErrorView> {
    match encoded(t) {
        Ok(text) => Ok(EffectView::Write(place_of(t), text)),
        Err(reason) => Err(ErrorView::IOError(place_of(t).display(), reason)),
    }
}

/// Saves a ticket: says what is to be written where. What is written is
/// the ticket's document, which reads back as the ticket.
pub fn save_ticket(ticket: &Ticket) -> (r: Result<Effect, Error>)
    ensures
        match r {
            Ok(effect) => saved(ticket@) == Ok::<EffectView, ErrorView>(effect@),
            Err(e) => saved(ticket@) == Err::<EffectView, ErrorView>(e@),
        },
        ticket_of(ticket_doc(ticket@)) == Ok::<TicketView, Seq<char>>(ticket@),
{
    let place = ticket_path(ticket);
    match encode_ticket(ticket) {
        Ok(text) => Ok(Effect::Write(place, text)),
        Err(reason) => Err(Error::IOError(place.display(), reason)),
    }
}

/// All tickets are the open tickets followed by the closed tickets, and
/// each of the two is sorted by identifier and holds what its directory
/// holds, each ticket as often.
pub proof fn lemma_all_is_open_then_closed(open: Seq<EntryView>, closed: Seq<EntryView>)
    requires
        all_tickets_in(open, closed) is Ok,
    ensures
        ({
            let first = tickets_in(open, directory_place(Status::Open));
            let second = tickets_in(closed, directory_place(Status::Closed));
            &&& first is Ok
            &&& second is Ok
            &&& all_tickets_in(open, closed)->Ok_0 == first->Ok_0 + second->Ok_0
            &&& ordered(first->Ok_0, key_fn::<Ticket>())
            &&& ordered(second->Ok_0, key_fn::<Ticket>())
            &&& first->Ok_0.to_multiset() == loaded(
                open,
                directory_place(Status::Open),
            )->Ok_0.to_multiset()
            &&& second->Ok_0.to_multiset() == loaded(
                closed,
                directory_place(Status::Closed),
            )->Ok_0.to_multiset()
        }),
{
    crate::order::lemma_sorted(
        loaded(open, directory_place(Status::Open))->Ok_0,
        key_fn::<Ticket>(),
    );
    crate::order::lemma_sorted(
        loaded(closed, directory_place(Status::Closed))->Ok_0,
        key_fn::<Ticket>(),
    );
}

/// A ticket's file is read back as the ticket: a directory that holds one
/// file, whose bytes parse as the document of a ticket that its document
/// gives back, holds that ticket and no other. Saving a ticket writes the
/// printed document of such a ticket; that the bytes of what was printed
/// parse as what was printed is the printer's and the parser's affair.
pub proof fn lemma_parsed_ticket_is_read_back(
    t: TicketView,
    name: Seq<char>,
    bytes: Seq<u8>,
    dir: LocationView,
)
    requires
        crate::document::parsed(bytes) == Ok::<crate::document::Doc, Seq<char>>(ticket_doc(t)),
        ticket_of(ticket_doc(t)) == Ok::<TicketView, Seq<char>>(t),
    ensures
        tickets_in(seq![EntryView { name, is_file: true, contents: bytes }], dir) == Ok::<
            Seq<TicketView>,
            ErrorView,
        >(seq![t]),
{
    let entries = seq![EntryView { name, is_file: true, contents: bytes }];
    assert(entries.drop_last() =~= Seq::<EntryView>::empty());
    reveal_with_fuel(found_in, 2);
    let found = found_in(entries, dir)->Ok_0;
    assert(found =~= seq![(name, t)]);
    assert(unnamed(found) =~= seq![t]);
    reveal_with_fuel(sorted, 2);
    assert(seq![t].drop_last() =~= Seq::<TicketView>::empty());
    crate::order::lemma_sorted_of_ordered(seq![t], key_fn::<Ticket>());
}

/// Whether an entry is what a migration deals with: a file that decodes as
/// a legacy ticket.
pub open spec fn is_legacy(entry: EntryView) -> bool {
    entry.is_file && decoded_v0(entry.contents) is Ok
}

/// A directory in which no file decodes as a legacy ticket holds no legacy
/// ticket: a migration finds nothing to do there. That covers every file
/// that is no ticket at all and every ticket of the current schema that has
/// no number of its own, whatever the order of its keys.
pub proof fn lemma_nothing_to_migrate(entries: Seq<EntryView>)
    requires
        forall|i: int| 0 <= i < entries.len() ==> !is_legacy(#[trigger] entries[i]),
    ensures
        loaded_v0(entries) == Seq::<TicketV0View>::empty(),
        sorted(loaded_v0(entries), key_fn::<TicketV0>()) == Seq::<TicketV0View>::empty(),
    decreases entries.len(),
{
    if entries.len() > 0 {
        let init = entries.drop_last();
        assert forall|i: int| 0 <= i < init.len() implies !is_legacy(#[trigger] init[i]) by {
            assert(init[i] == entries[i]);
        }
        lemma_nothing_to_migrate(init);
        assert(!is_legacy(entries.last()));
    }
}

/// A directory in which a file decodes as a legacy ticket holds a legacy
/// ticket: a migration has something to do there.
pub proof fn lemma_something_to_migrate(entries: Seq<EntryView>, i: int)
    requires
        0 <= i < entries.len(),
        is_legacy(entries[i]),
    ensures
        loaded_v0(entries).len() > 0,
    decreases entries.len(),
{
    if i < entries.len() - 1 {
        let init = entries.drop_last();
        assert(init[i] == entries[i]);
        lemma_something_to_migrate(init, i);
    }
}

/// A file that parses as the document of a ticket of the current schema,
/// as every file does that a ticket was saved to and read from unharmed, is
/// no legacy ticket.
pub proof fn lemma_saved_ticket_is_no_legacy(entry: EntryView, t: TicketView)
    requires
        crate::document::parsed(entry.contents) == Ok::<crate::document::Doc, Seq<char>>(
            ticket_doc(t),
        ),
    ensures
        !is_legacy(entry),
{
    crate::codec::lemma_current_is_not_legacy(t);
}

} // verus!
