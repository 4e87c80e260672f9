//! The commands of the ticket tool. Each takes what was read from the
//! repository and says what is to be printed or done; none of them reads or
//! writes anything itself.

use crate::actions::{
    all_tickets_in, closed_tickets, directory, directory_place, entry_views, file_name_of,
    found_in, get_all_tickets, get_all_ticketsv0, load, named_views, open_tickets, save_ticket,
    saved, ticket_file_name, unnamed, EntryView, Snapshot,
};
use crate::codec::{ticket_doc, ticket_of};
use crate::comments::{Comment, Name, NoteView};
use crate::config::{file_view, get_user_config, user_in, UserConfig, UserConfigView};
use crate::error::{outcome_view, Error, ErrorView};
use crate::id::{id_view, possible_v1, uuid_v1};
use crate::order::{key_fn, sorted, views_of};
use crate::plan::{effect_views, plan_view, Effect, EffectView, Location};
use crate::render::{show_ticket, shown, span_views, Span, SpanView};
use crate::text::{decimal, decimal_of};
use crate::ticket::{Status, Ticket, TicketV0, TicketV0View, TicketView};
use vstd::prelude::*;
use vstd::string::StringExecFns;

verus! {

/// The plan that holds the one effect of a successful save.
pub open spec fn one_save(t: TicketView) -> Result<Seq<EffectView>, ErrorView> {
    match saved(t) {
        Ok(written) => Ok(seq![written]),
        Err(e) => Err(e),
    }
}

/// What `init` wants done: both ticket directories made.
pub open spec fn initialized() -> Seq<EffectView> {
    seq![
        EffectView::CreateDir(directory_place(Status::Open)),
        EffectView::CreateDir(directory_place(Status::Closed)),
    ]
}

/// Sets the repository up for tickets.
pub fn init() -> (effects: Vec<Effect>)
    ensures
        effect_views(effects@) == initialized(),
{
    let mut effects: Vec<Effect> = Vec::new();
    effects.push(Effect::CreateDir(open_tickets()));
    effects.push(Effect::CreateDir(closed_tickets()));
    assert(effect_views(effects@) =~= initialized());
    effects
}

/// What came back from asking the user for a title.
#[derive(Debug, PartialEq, Eq)]
pub enum Prompt {
    /// The user typed a line.
    Line(String),
    /// The user interrupted.
    Interrupted,
    /// The input ended.
    Eof,
    /// Reading failed, for this reason.
    Failed(String),
}

/// A [`Prompt`] with its texts as sequences of characters.
pub ghost enum PromptView {
    Line(Seq<char>),
    Interrupted,
    Eof,
    Failed(Seq<char>),
}

impl View for Prompt {
    type V = PromptView;

    open spec fn view(&self) -> PromptView {
        match *self {
            Prompt::Line(s) => PromptView::Line(s@),
            Prompt::Interrupted => PromptView::Interrupted,
            Prompt::Eof => PromptView::Eof,
            Prompt::Failed(cause) => PromptView::Failed(cause@),
        }
    }
}

/// The title that a prompt gave: a line that is not empty is the title, an
/// empty line is an error, an interrupt or the end of the input means that
/// the user has given up and the command ends in peace, with nothing done.
pub open spec fn title_of(prompt: PromptView) -> Result<Option<Seq<char>>, ErrorView> {
    match prompt {
        PromptView::Line(s) => if s.len() == 0 {
            Err(ErrorView::EmptyTitle)
        } else {
            Ok(Some(s))
        },
        PromptView::Interrupted => Ok(None),
        PromptView::Eof => Ok(None),
        PromptView::Failed(cause) => Err(ErrorView::IOError("standard input"@, cause)),
    }
}

/// A title or a failure, as contracts see it.
pub open spec fn title_view(r: Result<Option<String>, Error>) -> Result<
    Option<Seq<char>>,
    ErrorView,
> {
    match r {
        Ok(Some(s)) => Ok(Some(s@)),
        Ok(None) => Ok(None),
        Err(e) => Err(e@),
    }
}

/// Reads the title out of what the prompt came back with. `Ok(None)` says
/// that the user has given up: the command is to end with exit code 0 and
/// without doing anything.
pub fn title_from_prompt(prompt: Prompt) -> (r: Result<Option<String>, Error>)
    ensures
        title_view(r) == title_of(prompt@),
{
    match prompt {
        Prompt::Line(s) => {
            if s.as_str().is_empty() {
                Err(Error::EmptyTitle)
            } else {
                Ok(Some(s))
            }
        },
        Prompt::Interrupted => Ok(None),
        Prompt::Eof => Ok(None),
        Prompt::Failed(cause) => Err(Error::IOError(String::from_str("standard input"), cause)),
    }
}

/// The place of the file in which the user writes a new ticket's
/// description.
pub fn description_buffer() -> (place: Location)
    ensures
        place@ == crate::actions::root_place().join("description"@),
{
    crate::actions::ticket_root().join("description")
}

/// The editor to start: the configured one, or `vi` where none is
/// configured.
pub fn editor(configured: Option<String>) -> (program: String)
    ensures
        program@ == match configured {
            Some(e) => e@,
            None => "vi"@,
        },
{
    match configured {
        Some(e) => e,
        None => String::from_str("vi"),
    }
}

/// What `new` wants done for a title, a description and an identifier: an
/// empty title is an error and nothing is written; else the new ticket is
/// saved.
pub open spec fn created(title: Seq<char>, description: Seq<char>, id: u128) -> Result<
    Seq<EffectView>,
    ErrorView,
> {
    if title.len() == 0 {
        Err(ErrorView::EmptyTitle)
    } else {
        one_save(TicketView::fresh(title, description, id))
    }
}

/// Saves `ticket` as the only thing to do.
fn save_alone(ticket: &Ticket) -> (r: Result<Vec<Effect>, Error>)
    ensures
        plan_view(r) == one_save(ticket@),
{
    match save_ticket(ticket) {
        Ok(written) => {
            let mut effects: Vec<Effect> = Vec::new();
            effects.push(written);
            assert(effect_views(effects@) =~= seq![written@]);
            Ok(effects)
        },
        Err(e) => Err(e),
    }
}

/// Creates a ticket with the identifier `id`.
pub fn new_with(title: String, description: String, id: u128) -> (r: Result<Vec<Effect>, Error>)
    ensures
        plan_view(r) == created(title@, description@, id),
{
    if title.as_str().is_empty() {
        return Err(Error::EmptyTitle);
    }
    let ticket = Ticket::fresh(title, description, id);
    save_alone(&ticket)
}

/// What `new` wants done for what the prompt came back with: where the user
/// has given up, by the end of the input or by an interrupt, nothing at all;
/// where the prompt failed or the line is empty, nothing, for that reason;
/// else what it wants done for the title.
pub open spec fn created_from(
    prompt: PromptView,
    description: Seq<char>,
    fresh: Result<u128, ErrorView>,
) -> Result<Seq<EffectView>, ErrorView> {
    match title_of(prompt) {
        Err(e) => Err(e),
        Ok(None) => Ok(Seq::empty()),
        Ok(Some(title)) => match fresh {
            Ok(id) => created(title, description, id),
            Err(e) => Err(e),
        },
    }
}

impl Prompt {
    /// Whether the prompt gave a title, so that a description is to be asked
    /// for.
    pub fn gives_title(&self) -> (b: bool)
        ensures
            b == (title_of(self@) matches Ok(Some(_))),
    {
        match self {
            Prompt::Line(s) => !s.as_str().is_empty(),
            _ => false,
        }
    }
}

/// Creates a ticket from what the prompt came back with, under the
/// identifier `id`. The description is looked at only where the prompt gave
/// a title.
pub fn new_from_prompt(prompt: Prompt, description: String, id: u128) -> (r: Result<
    Vec<Effect>,
    Error,
>)
    ensures
        plan_view(r) == created_from(prompt@, description@, Ok(id)),
{
    match title_from_prompt(prompt) {
        Ok(Some(title)) => new_with(title, description, id),
        Ok(None) => {
            let effects: Vec<Effect> = Vec::new();
            assert(effect_views(effects@) =~= Seq::<EffectView>::empty());
            Ok(effects)
        },
        Err(e) => Err(e),
    }
}

/// Creates a ticket from what the prompt for its title came back with and
/// from the description that the user wrote, under a fresh identifier. The
/// description is looked at and an identifier made only where the prompt
/// gave a title: a user who has given up leaves everything as it is, and an
/// empty title is refused before the clock is read.
pub fn new(prompt: Prompt, description: String) -> (r: Result<Vec<Effect>, Error>)
    ensures
        exists|fresh: Result<u128, ErrorView>|
            #[trigger] possible_v1(fresh) && plan_view(r) == created_from(
                prompt@,
                description@,
                fresh,
            ),
{
    let ghost any = crate::id::v1_at(0, 0, seq![0u8, 0u8, 0u8, 0u8, 0u8, 0u8]);
    assert(possible_v1(any));
    match title_from_prompt(prompt) {
        Ok(Some(title)) => {
            let made = uuid_v1();
            let ghost fresh = id_view(made);
            let r = match made {
                Ok(id) => new_with(title, description, id),
                Err(e) => Err(e),
            };
            assert(possible_v1(fresh) && plan_view(r) == created_from(
                prompt@,
                description@,
                fresh,
            ));
            r
        },
        Ok(None) => {
            let effects: Vec<Effect> = Vec::new();
            assert(effect_views(effects@) =~= Seq::<EffectView>::empty());
            let r: Result<Vec<Effect>, Error> = Ok(effects);
            assert(plan_view(r) == created_from(prompt@, description@, any));
            r
        },
        Err(e) => {
            let r: Result<Vec<Effect>, Error> = Err(e);
            assert(plan_view(r) == created_from(prompt@, description@, any));
            r
        },
    }
}

/// A user who gives up at the prompt, by the end of the input or by an
/// interrupt, leaves everything as it is: nothing is written, and the
/// command ends with exit code 0. An empty title is refused, and nothing is
/// written either.
pub proof fn lemma_giving_up_writes_nothing(
    description: Seq<char>,
    fresh: Result<u128, ErrorView>,
    plan: Vec<Effect>,
)
    ensures
        created_from(PromptView::Eof, description, fresh) == Ok::<Seq<EffectView>, ErrorView>(
            Seq::empty(),
        ),
        created_from(PromptView::Interrupted, description, fresh) == Ok::<
            Seq<EffectView>,
            ErrorView,
        >(Seq::empty()),
        crate::error::exit_code_of(Ok::<Vec<Effect>, Error>(plan)) == 0,
        created_from(PromptView::Line(Seq::empty()), description, fresh) == Err::<
            Seq<EffectView>,
            ErrorView,
        >(ErrorView::EmptyTitle),
{
}

/// Whether a ticket of `tickets` has the identifier `id`.
pub open spec fn holds(tickets: Seq<TicketView>, id: u128) -> bool {
    exists|i: int| 0 <= i < tickets.len() && tickets[i].id == id
}

/// Whether `i` is the first position in `tickets` of a ticket with the
/// identifier `id`.
pub open spec fn is_first(tickets: Seq<TicketView>, id: u128, i: int) -> bool {
    &&& 0 <= i < tickets.len()
    &&& tickets[i].id == id
    &&& forall|j: int| 0 <= j < i ==> tickets[j].id != id
}

/// The first position in `tickets` of a ticket with the identifier `id`.
pub open spec fn first_with(tickets: Seq<TicketView>, id: u128) -> int {
    choose|i: int| is_first(tickets, id, i)
}

/// The first position is the only first position.
pub proof fn lemma_first_with(tickets: Seq<TicketView>, id: u128, i: int)
    requires
        is_first(tickets, id, i),
    ensures
        holds(tickets, id),
        first_with(tickets, id) == i,
{
    let c = first_with(tickets, id);
    assert(is_first(tickets, id, c));
    if c < i {
        assert(tickets[c].id != id);
    }
    if i < c {
        assert(tickets[i].id != id);
    }
}

/// The first position in `tickets` of a ticket with the identifier `id`.
pub fn find(tickets: &Vec<Ticket>, id: u128) -> (at: Option<usize>)
    ensures
        match at {
            Some(i) => holds(views_of(tickets@), id) && i == first_with(views_of(tickets@), id)
                && i < tickets.len() && tickets@[i as int].id == id,
            None => !holds(views_of(tickets@), id),
        },
{
    let mut i: usize = 0;
    while i < tickets.len()
        invariant
            i <= tickets.len(),
            forall|j: int| 0 <= j < i ==> views_of(tickets@)[j].id != id,
        decreases tickets.len() - i,
    {
        if tickets[i].id == id {
            proof {
                lemma_first_with(views_of(tickets@), id, i as int);
            }
            return Some(i);
        }
        i += 1;
    }
    None
}

/// The ticket with the identifier `id` among all tickets, or why there is
/// none: a file that holds no ticket, or no ticket with that identifier.
pub open spec fn target(open: Seq<EntryView>, closed: Seq<EntryView>, id: u128) -> Result<
    TicketView,
    ErrorView,
> {
    match all_tickets_in(open, closed) {
        Err(e) => Err(e),
        Ok(tickets) => if holds(tickets, id) {
            Ok(tickets[first_with(tickets, id)])
        } else {
            Err(ErrorView::NoSuchTicket(id))
        },
    }
}

/// A ticket or a failure, as contracts see it.
pub open spec fn ticket_view(r: Result<Ticket, Error>) -> Result<TicketView, ErrorView> {
    match r {
        Ok(t) => Ok(t@),
        Err(e) => Err(e@),
    }
}

/// Looks the ticket with the identifier `id` up among all tickets.
pub fn find_ticket(snapshot: &Snapshot, id: u128) -> (r: Result<Ticket, Error>)
    ensures
        ticket_view(r) == target(entry_views(snapshot.open@), entry_views(snapshot.closed@), id),
{
    let mut tickets = match get_all_tickets(snapshot) {
        Ok(tickets) => tickets,
        Err(e) => {
            return Err(e);
        },
    };
    match find(&tickets, id) {
        Some(i) => {
            let ghost all = views_of(tickets@);
            let ticket = tickets.remove(i);
            assert(ticket@ == all[i as int]);
            Ok(ticket)
        },
        None => Err(Error::NoSuchTicket(id)),
    }
}

/// What `show` prints: the ticket with the identifier `id`, or why there is
/// nothing to print.
pub open spec fn showing(open: Seq<EntryView>, closed: Seq<EntryView>, id: u128) -> Result<
    Seq<SpanView>,
    ErrorView,
> {
    match target(open, closed, id) {
        Ok(t) => Ok(shown(t)),
        Err(e) => Err(e),
    }
}

/// Shows the ticket with the identifier `id`.
pub fn show(snapshot: &Snapshot, id: u128) -> (r: Result<Vec<Span>, Error>)
    ensures
        match r {
            Ok(spans) => showing(
                entry_views(snapshot.open@),
                entry_views(snapshot.closed@),
                id,
            ) == Ok::<Seq<SpanView>, ErrorView>(span_views(spans@)),
            Err(e) => showing(entry_views(snapshot.open@), entry_views(snapshot.closed@), id)
                == Err::<Seq<SpanView>, ErrorView>(e@),
        },
{
    match find_ticket(snapshot, id) {
        Ok(ticket) => Ok(show_ticket(&ticket)),
        Err(e) => Err(e),
    }
}

/// What `close` wants done: the ticket with the identifier `id` among the
/// open tickets is written as a closed ticket, and after that the file it
/// was read from is removed. Where a file among the open tickets holds no
/// ticket, where no open ticket has the identifier, or where the ticket
/// cannot be printed, nothing is done.
pub open spec fn closing(open: Seq<EntryView>, id: u128) -> Result<Seq<EffectView>, ErrorView> {
    match found_in(open, directory_place(Status::Open)) {
        Err(e) => Err(e),
        Ok(found) => {
            let tickets = unnamed(found);
            if !holds(tickets, id) {
                Err(ErrorView::NoSuchTicket(id))
            } else {
                let i = first_with(tickets, id);
                match saved(tickets[i].with_status(Status::Closed)) {
                    Err(e) => Err(e),
                    Ok(written) => Ok(
                        seq![
                            written,
                            EffectView::Remove(directory_place(Status::Open).join(found[i].0)),
                        ],
                    ),
                }
            }
        },
    }
}

/// The first position in `found` of a ticket with the identifier `id`.
fn find_named(found: &Vec<(String, Ticket)>, id: u128) -> (at: Option<usize>)
    ensures
        match at {
            Some(i) => holds(unnamed(named_views(found@)), id) && i == first_with(
                unnamed(named_views(found@)),
                id,
            ) && i < found.len() && found@[i as int].1.id == id,
            None => !holds(unnamed(named_views(found@)), id),
        },
{
    let mut i: usize = 0;
    while i < found.len()
        invariant
            i <= found.len(),
            forall|j: int| 0 <= j < i ==> unnamed(named_views(found@))[j].id != id,
        decreases found.len() - i,
    {
        if found[i].1.id == id {
            proof {
                lemma_first_with(unnamed(named_views(found@)), id, i as int);
            }
            return Some(i);
        }
        i += 1;
    }
    None
}

/// Closes the open ticket with the identifier `id`. What is written first
/// is a ticket that reads back closed, under the same identifier.
pub fn close(snapshot: &Snapshot, id: u128) -> (r: Result<Vec<Effect>, Error>)
    ensures
        plan_view(r) == closing(entry_views(snapshot.open@), id),
        r matches Ok(effects) ==> exists|t: TicketView|
            {
                &&& t.status == Status::Closed
                &&& t.id == id
                &&& saved(t) == Ok::<EffectView, ErrorView>(#[trigger] effects@[0]@)
                &&& ticket_of(ticket_doc(t)) == Ok::<TicketView, Seq<char>>(t)
            },
{
    let mut found = match load(&snapshot.open, &open_tickets()) {
        Ok(found) => found,
        Err(e) => {
            return Err(e);
        },
    };
    match find_named(&found, id) {
        Some(i) => {
            let ghost all = named_views(found@);
            let (name, mut ticket) = found.remove(i);
            assert((name@, ticket@) == all[i as int]);
            ticket.status = Status::Closed;
            match save_ticket(&ticket) {
                Ok(written) => {
                    let mut effects: Vec<Effect> = Vec::new();
                    let ghost first = written@;
                    effects.push(written);
                    effects.push(Effect::Remove(open_tickets().join(name.as_str())));
                    assert(effect_views(effects@) =~= seq![
                        first,
                        EffectView::Remove(directory_place(Status::Open).join(name@)),
                    ]);
                    assert(ticket@.status == Status::Closed && ticket@.id == id && saved(ticket@)
                        == Ok::<EffectView, ErrorView>(effects@[0]@));
                    Ok(effects)
                },
                Err(e) => Err(e),
            }
        },
        None => Err(Error::NoSuchTicket(id)),
    }
}

/// The note that a user leaves.
pub open spec fn note_by(user: UserConfigView, message: Seq<char>, key: u128) -> NoteView {
    NoteView { id: key, author_id: user.uuid, author: user.name, body: message }
}

/// Writes `message` to the comment log of `ticket` in the name of `user`,
/// under the key `fresh`, and saves the ticket.
pub fn comment_on(ticket: Ticket, message: String, user: &UserConfig, fresh: u128) -> (r: Result<
    Vec<Effect>,
    Error,
>)
    ensures
        plan_view(r) == one_save(ticket@.commented(note_by(user@, message@, fresh))),
{
    let mut ticket = ticket;
    ticket.comment(fresh, user.uuid, Name(user.name.clone()), Comment(message));
    save_alone(&ticket)
}

/// What `comment` wants done where the identifier `fresh` was made for the
/// comment: the ticket with the identifier `id` is saved with the comment
/// in its log, in the name of the user whose configuration `user_file`
/// holds. The ticket is looked for first: where there is none, that is the
/// failure, whatever the user's configuration holds. Then the user's
/// configuration is read, and only then an identifier is asked for.
pub open spec fn commenting(
    open: Seq<EntryView>,
    closed: Seq<EntryView>,
    id: u128,
    message: Seq<char>,
    user_file: Option<Seq<u8>>,
    fresh: Result<u128, ErrorView>,
) -> Result<Seq<EffectView>, ErrorView> {
    match target(open, closed, id) {
        Err(e) => Err(e),
        Ok(t) => match user_in(user_file) {
            Err(e) => Err(e),
            Ok(user) => match fresh {
                Err(e) => Err(e),
                Ok(key) => one_save(t.commented(note_by(user, message, key))),
            },
        },
    }
}

/// Comments on the ticket with the identifier `id` in the name of the user
/// whose configuration is in `user_file`, the bytes of the user's
/// configuration file where there is one. The comment is filed under a
/// fresh identifier.
pub fn comment(snapshot: &Snapshot, id: u128, message: String, user_file: Option<&[u8]>) -> (r:
    Result<Vec<Effect>, Error>)
    ensures
        exists|fresh: Result<u128, ErrorView>|
            #[trigger] possible_v1(fresh) && plan_view(r) == commenting(
                entry_views(snapshot.open@),
                entry_views(snapshot.closed@),
                id,
                message@,
                file_view(user_file),
                fresh,
            ),
{
    let ghost any = crate::id::v1_at(0, 0, seq![0u8, 0u8, 0u8, 0u8, 0u8, 0u8]);
    assert(possible_v1(any));
    let ticket = match find_ticket(snapshot, id) {
        Ok(ticket) => ticket,
        Err(e) => {
            let r: Result<Vec<Effect>, Error> = Err(e);
            assert(plan_view(r) == commenting(
                entry_views(snapshot.open@),
                entry_views(snapshot.closed@),
                id,
                message@,
                file_view(user_file),
                any,
            ));
            return r;
        },
    };
    let user = match get_user_config(user_file) {
        Ok(user) => user,
        Err(e) => {
            let r: Result<Vec<Effect>, Error> = Err(e);
            assert(plan_view(r) == commenting(
                entry_views(snapshot.open@),
                entry_views(snapshot.closed@),
                id,
                message@,
                file_view(user_file),
                any,
            ));
            return r;
        },
    };
    let fresh = uuid_v1();
    let ghost outcome = id_view(fresh);
    match fresh {
        Ok(key) => {
            let r = comment_on(ticket, message, &user, key);
            assert(possible_v1(outcome) && plan_view(r) == commenting(
                entry_views(snapshot.open@),
                entry_views(snapshot.closed@),
                id,
                message@,
                file_view(user_file),
                outcome,
            ));
            r
        },
        Err(e) => {
            let r: Result<Vec<Effect>, Error> = Err(e);
            assert(possible_v1(outcome) && plan_view(r) == commenting(
                entry_views(snapshot.open@),
                entry_views(snapshot.closed@),
                id,
                message@,
                file_view(user_file),
                outcome,
            ));
            r
        },
    }
}

/// The name of the file of a legacy ticket: its number, a hyphen, and the
/// name that a ticket with its title has now.
pub open spec fn legacy_name(t: TicketV0View) -> Seq<char> {
    decimal_of(t.number as nat) + "-"@ + file_name_of(t.title)
}

/// How long a migration rests after each ticket, in milliseconds: long
/// enough for the next identifier to be made in another second.
pub const MIGRATION_PAUSE: u64 = 1000;

/// What the migration of one legacy ticket wants done: the ticket that takes
/// its place is written, then the legacy file is removed, then the
/// migration rests. Where the new ticket cannot be printed nothing is done.
pub open spec fn migrating(t: TicketV0View, fresh: u128) -> Result<Seq<EffectView>, ErrorView> {
    match saved(t.upgraded(fresh)) {
        Err(e) => Err(e),
        Ok(written) => Ok(
            seq![
                written,
                EffectView::Remove(directory_place(t.status).join(legacy_name(t))),
                EffectView::Sleep(MIGRATION_PAUSE),
            ],
        ),
    }
}

/// Migrates one legacy ticket, which becomes a ticket with the identifier
/// `fresh`.
pub fn migrate_with(legacy: TicketV0, fresh: u128) -> (r: Result<Vec<Effect>, Error>)
    ensures
        plan_view(r) == migrating(legacy@, fresh),
{
    let status = legacy.status;
    let number = decimal(legacy.number);
    let ticket = legacy.upgrade(fresh);
    let old_name = number.concat("-").concat(ticket_file_name(&ticket).as_str());
    match save_ticket(&ticket) {
        Ok(written) => {
            let mut effects: Vec<Effect> = Vec::new();
            let ghost first = written@;
            effects.push(written);
            effects.push(Effect::Remove(directory(status).join(old_name.as_str())));
            effects.push(Effect::Sleep(MIGRATION_PAUSE));
            assert(effect_views(effects@) =~= seq![
                first,
                EffectView::Remove(directory_place(legacy@.status).join(legacy_name(legacy@))),
                EffectView::Sleep(MIGRATION_PAUSE),
            ]);
            Ok(effects)
        },
        Err(e) => Err(e),
    }
}

/// Migrates one legacy ticket under a fresh identifier.
pub fn migrate_ticket(legacy: TicketV0) -> (r: Result<Vec<Effect>, Error>)
    ensures
        exists|fresh: Result<u128, ErrorView>|
            #[trigger] possible_v1(fresh) && plan_view(r) == match fresh {
                Ok(id) => migrating(legacy@, id),
                Err(e) => Err(e),
            },
{
    let fresh = uuid_v1();
    let ghost outcome = id_view(fresh);
    match fresh {
        Ok(id) => {
            let r = migrate_with(legacy, id);
            assert(possible_v1(outcome) && plan_view(r) == match outcome {
                Ok(id) => migrating(legacy@, id),
                Err(e) => Err(e),
            });
            r
        },
        Err(e) => {
            let r: Result<Vec<Effect>, Error> = Err(e);
            assert(possible_v1(outcome) && plan_view(r) == match outcome {
                Ok(id) => migrating(legacy@, id),
                Err(e) => Err(e),
            });
            r
        },
    }
}

/// The legacy tickets of both directories in the order in which a migration
/// deals with them: the open ones by number, then the closed ones by number.
pub open spec fn legacy_in(snapshot: Snapshot) -> Seq<TicketV0View> {
    sorted(crate::actions::loaded_v0(entry_views(snapshot.open@)), key_fn::<TicketV0>()) + sorted(
        crate::actions::loaded_v0(entry_views(snapshot.closed@)),
        key_fn::<TicketV0>(),
    )
}

/// The legacy tickets that a migration has to deal with, in the order in
/// which it deals with them. Each is then handed to [`migrate_ticket`].
pub fn migrate(snapshot: &Snapshot) -> (legacy: Vec<TicketV0>)
    ensures
        views_of(legacy@) == legacy_in(*snapshot),
{
    get_all_ticketsv0(snapshot)
}

/// What a migration has come to after some tickets: what it wants done, and
/// the failure that ended it, if one did.
pub ghost struct Migration {
    pub effects: Seq<EffectView>,
    pub failure: Option<ErrorView>,
}

/// What a migration wants done for the first `n` of the legacy tickets,
/// each of which becomes a ticket under the identifier that stands at its
/// place in `ids`. For each ticket in turn the new ticket is written, the
/// legacy file removed and a rest taken. A ticket that cannot be printed
/// ends the migration; what was to be done before it stays.
pub open spec fn migrated_upto(legacy: Seq<TicketV0View>, ids: Seq<u128>, n: int) -> Migration
    decreases n,
{
    if n <= 0 {
        Migration { effects: Seq::empty(), failure: None }
    } else {
        let before = migrated_upto(legacy, ids, n - 1);
        if before.failure is Some {
            before
        } else {
            match migrating(legacy[n - 1], ids[n - 1]) {
                Ok(steps) => Migration { effects: before.effects + steps, failure: None },
                Err(e) => Migration { effects: before.effects, failure: Some(e) },
            }
        }
    }
}

/// How many tickets a migration deals with: all that there are, as far as
/// there are identifiers for them.
pub open spec fn dealt_with(legacy: Seq<TicketV0View>, ids: Seq<u128>) -> int {
    if legacy.len() <= ids.len() {
        legacy.len() as int
    } else {
        ids.len() as int
    }
}

/// What the migration of a repository comes to where `ids` are the
/// identifiers made for its legacy tickets, one after the other.
pub open spec fn migration(snapshot: Snapshot, ids: Seq<u128>) -> Migration {
    migrated_upto(legacy_in(snapshot), ids, dealt_with(legacy_in(snapshot), ids))
}

/// A migration that has failed stays as it is.
proof fn lemma_migration_failed(legacy: Seq<TicketV0View>, ids: Seq<u128>, n: int, m: int)
    requires
        0 <= n <= m,
        migrated_upto(legacy, ids, n).failure is Some,
    ensures
        migrated_upto(legacy, ids, m) == migrated_upto(legacy, ids, n),
    decreases m - n,
{
    if n < m {
        lemma_migration_failed(legacy, ids, n, m - 1);
    }
}

/// Migrates the legacy tickets of a repository, the first under the first
/// of `ids`, the second under the second, and so on: `ids` are the
/// identifiers that were made for them, each in a second of its own. Says
/// everything that is to be done, in its order, and how the migration ends.
pub fn migrate_all(snapshot: &Snapshot, ids: &Vec<u128>) -> (r: (Vec<Effect>, Result<(), Error>))
    ensures
        effect_views(r.0@) == migration(*snapshot, ids@).effects,
        outcome_view(r.1) == match migration(*snapshot, ids@).failure {
            None => Ok::<(), ErrorView>(()),
            Some(e) => Err(e),
        },
{
    let mut rest = migrate(snapshot);
    let ghost legacy = views_of(rest@);
    let ghost total = dealt_with(legacy, ids@);
    let mut effects: Vec<Effect> = Vec::new();
    assert(effect_views(effects@) =~= Seq::<EffectView>::empty());
    let mut i: usize = 0;
    while rest.len() > 0 && i < ids.len()
        invariant
            i <= ids.len(),
            i + rest.len() == legacy.len(),
            views_of(rest@) == legacy.skip(i as int),
            total == dealt_with(legacy, ids@),
            legacy == legacy_in(*snapshot),
            effect_views(effects@) == migrated_upto(legacy, ids@, i as int).effects,
            migrated_upto(legacy, ids@, i as int).failure is None,
        decreases rest.len(),
    {
        let ghost left = views_of(rest@);
        let ticket = rest.remove(0);
        proof {
            assert(left[0] == ticket@);
            assert(ticket@ == legacy[i as int]);
            assert forall|k: int| 0 <= k < rest.len() implies (#[trigger] rest@[k])@ == legacy[i
                + 1 + k] by {
                assert(left[k + 1] == legacy.skip(i as int)[k + 1]);
            }
            assert(views_of(rest@) =~= legacy.skip(i + 1));
        }
        match migrate_with(ticket, ids[i]) {
            Ok(steps) => {
                let mut steps = steps;
                let ghost so_far = effect_views(effects@);
                let ghost more = effect_views(steps@);
                effects.append(&mut steps);
                assert(effect_views(effects@) =~= so_far + more);
            },
            Err(e) => {
                proof {
                    lemma_migration_failed(legacy, ids@, i + 1, total);
                }
                return (effects, Err(e));
            },
        }
        i += 1;
    }
    (effects, Ok(()))
}

/// In a repository in which no file decodes as a legacy ticket a migration
/// does nothing, whatever identifiers it is given: nothing is written,
/// nothing removed, and it does not fail.
pub proof fn lemma_migration_without_legacy_does_nothing(snapshot: Snapshot, ids: Seq<u128>)
    requires
        forall|i: int|
            0 <= i < snapshot.open.len() ==> !crate::actions::is_legacy(
                #[trigger] entry_views(snapshot.open@)[i],
            ),
        forall|i: int|
            0 <= i < snapshot.closed.len() ==> !crate::actions::is_legacy(
                #[trigger] entry_views(snapshot.closed@)[i],
            ),
    ensures
        legacy_in(snapshot) == Seq::<TicketV0View>::empty(),
        migration(snapshot, ids) == (Migration { effects: Seq::empty(), failure: None }),
{
    crate::actions::lemma_nothing_to_migrate(entry_views(snapshot.open@));
    crate::actions::lemma_nothing_to_migrate(entry_views(snapshot.closed@));
    assert(legacy_in(snapshot) =~= Seq::<TicketV0View>::empty());
}

/// Where every file holds a ticket and none of the tickets has the
/// identifier `id`, showing, closing and commenting all fail for want of
/// such a ticket, and none of them wants anything done; the process then
/// ends with exit code 1.
pub proof fn lemma_unknown_id_changes_nothing(
    open: Seq<EntryView>,
    closed: Seq<EntryView>,
    id: u128,
    message: Seq<char>,
    user_file: Option<Seq<u8>>,
    fresh: Result<u128, ErrorView>,
)
    requires
        all_tickets_in(open, closed) is Ok,
        !holds(all_tickets_in(open, closed)->Ok_0, id),
    ensures
        showing(open, closed, id) == Err::<Seq<SpanView>, ErrorView>(ErrorView::NoSuchTicket(id)),
        closing(open, id) == Err::<Seq<EffectView>, ErrorView>(ErrorView::NoSuchTicket(id)),
        commenting(open, closed, id, message, user_file, fresh) == Err::<
            Seq<EffectView>,
            ErrorView,
        >(
            ErrorView::NoSuchTicket(id),
        ),
        crate::error::exit_code_of(Err::<(), Error>(Error::NoSuchTicket(id))) == 1,
{
    let all = all_tickets_in(open, closed)->Ok_0;
    let found = found_in(open, directory_place(Status::Open))->Ok_0;
    let first = sorted(unnamed(found), key_fn::<Ticket>());
    crate::order::lemma_sorted(unnamed(found), key_fn::<Ticket>());
    if holds(unnamed(found), id) {
        let i = choose|i: int| 0 <= i < unnamed(found).len() && unnamed(found)[i].id == id;
        let t = unnamed(found)[i];
        unnamed(found).to_multiset_ensures();
        first.to_multiset_ensures();
        assert(unnamed(found).to_multiset().count(t) > 0);
        assert(first.contains(t));
        let j = choose|j: int| 0 <= j < first.len() && first[j] == t;
        assert(all[j] == t);
    }
}

/// No two tickets have the same identifier.
pub open spec fn distinct_ids(tickets: Seq<TicketView>) -> bool {
    forall|i: int, j: int| 0 <= i < j < tickets.len() ==> tickets[i].id != tickets[j].id
}

/// A ticket under an identifier that no ticket has yet leaves the
/// identifiers pairwise different: so does every new ticket and every
/// migrated one, as long as the identifier it was given is fresh.
pub proof fn lemma_fresh_id_keeps_ids_distinct(tickets: Seq<TicketView>, ticket: TicketView)
    requires
        distinct_ids(tickets),
        !holds(tickets, ticket.id),
    ensures
        distinct_ids(tickets.push(ticket)),
{
}

/// A ticket written again under its own identifier leaves the identifiers
/// pairwise different: so do closing and commenting.
pub proof fn lemma_rewriting_keeps_ids_distinct(
    tickets: Seq<TicketView>,
    i: int,
    status: Status,
    note: NoteView,
)
    requires
        distinct_ids(tickets),
        0 <= i < tickets.len(),
    ensures
        distinct_ids(tickets.update(i, tickets[i].with_status(status))),
        distinct_ids(tickets.update(i, tickets[i].commented(note))),
{
}

} // verus!
