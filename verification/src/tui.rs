//! The interactive browser's state and what each key does to it. Drawing
//! and waiting for keys are the caller's; this module decides.

use crate::actions::{
    entry_views, get_closed_tickets, get_open_tickets, save_ticket, saved, tickets_in,
    directory_place, Snapshot,
};
use crate::comments::{Comment, Name, NoteView};
use crate::config::{UserConfig, UserConfigView};
use crate::error::{outcome_view, Error, ErrorView};
use crate::id::{format_uuid, id_view, possible_v1, uuid_text, uuid_v1};
use crate::order::views_of;
use crate::plan::{effect_views, plan_view, Effect, EffectView};
use crate::render::{
    comment_spans, push_comments, span, span_views, styled, Span, SpanView, Style,
};
use crate::text::{pop_char, push_char, texts};
use crate::ticket::{Status, Ticket, TicketView};
use vstd::arithmetic::div_mod::lemma_small_mod;
use vstd::prelude::*;
use vstd::string::StringExecFns;

verus! {

/// A key of the keyboard, as far as the browser tells keys apart.
#[derive(Debug, Clone, Copy, PartialEq, Eq, Structural)]
pub enum Key {
    Esc,
    Left,
    Right,
    Up,
    Down,
    Backspace,
    Enter,
    Char(char),
    /// Any key without a binding.
    Other,
}

/// What the input side hands to the drawing side: a key, or the passing of
/// a tick without one.
#[derive(Debug, Clone, Copy, PartialEq, Eq)]
pub enum Event<I> {
    Input(I),
    Tick,
}

/// How the input side is set up.
#[derive(Debug, Clone, Copy, PartialEq, Eq)]
pub struct Config {
    pub exit_key: Key,
    /// Milliseconds to wait for a key before a tick is sent.
    pub tick_rate: u64,
}

impl Default for Config {
    fn default() -> (config: Config)
        ensures
            config.exit_key == Key::Char('q'),
            config.tick_rate == 250,
    {
        Config { exit_key: Key::Char('q'), tick_rate: 250 }
    }
}

/// The tab bar: its titles and which of them is active.
#[derive(Debug, PartialEq, Eq)]
pub struct TabsState {
    pub titles: Vec<String>,
    pub index: usize,
}

impl TabsState {
    /// A tab bar with the first tab active.
    pub fn new(titles: Vec<String>) -> (tabs: TabsState)
        ensures
            tabs.titles == titles,
            tabs.index == 0,
    {
        TabsState { titles, index: 0 }
    }

    /// Moves to the tab on the right, and from the last tab to the first.
    pub fn next(&mut self)
        requires
            old(self).titles.len() > 0,
            old(self).index < usize::MAX,
        ensures
            final(self).titles == old(self).titles,
            final(self).index == (old(self).index + 1) % (old(self).titles.len() as int),
    {
        self.index = (self.index + 1) % self.titles.len()
    }

    /// Moves to the tab on the left; the first tab stays where it is.
    pub fn previous(&mut self)
        requires
            old(self).index > 0 ==> old(self).titles.len() > 0,
        ensures
            final(self).titles == old(self).titles,
            final(self).index == if old(self).index > 0 {
                (old(self).index - 1) % (old(self).titles.len() as int)
            } else {
                0
            },
    {
        if self.index > 0 {
            self.index = (self.index - 1) % self.titles.len()
        }
    }
}

/// The tickets of both tabs, each with the comment being typed for it, and
/// the row that is selected in the active tab.
#[derive(Debug, PartialEq, Eq)]
pub struct TicketState {
    pub open: Vec<(Ticket, String)>,
    pub closed: Vec<(Ticket, String)>,
    pub index: usize,
    pub status: Status,
}

/// Tickets and drafts as contracts see them.
pub open spec fn draft_views(list: Seq<(Ticket, String)>) -> Seq<(TicketView, Seq<char>)> {
    list.map_values(|e: (Ticket, String)| (e.0@, e.1@))
}

impl TicketState {
    /// The state at start: the open tab active, its first row selected.
    pub fn new(open: Vec<(Ticket, String)>, closed: Vec<(Ticket, String)>) -> (state: TicketState)
        ensures
            state.open == open,
            state.closed == closed,
            state.index == 0,
            state.status == Status::Open,
    {
        TicketState { open, closed, index: 0, status: Status::Open }
    }

    /// The rows of the active tab.
    pub open spec fn active(self) -> Seq<(Ticket, String)> {
        match self.status {
            Status::Open => self.open@,
            Status::Closed => self.closed@,
        }
    }

    /// How many rows the active tab has.
    pub fn len(&self) -> (n: usize)
        ensures
            n == self.active().len(),
    {
        match self.status {
            Status::Open => self.open.len(),
            Status::Closed => self.closed.len(),
        }
    }

    /// Selects the row below, and from the last row the first.
    pub fn next(&mut self)
        requires
            old(self).active().len() > 0,
            old(self).index < usize::MAX,
        ensures
            final(self).index == (old(self).index + 1) % (old(self).active().len() as int),
            final(self).open == old(self).open,
            final(self).closed == old(self).closed,
            final(self).status == old(self).status,
    {
        let n = self.len();
        self.index = (self.index + 1) % n
    }

    /// Selects the row above; the first row stays selected.
    pub fn previous(&mut self)
        requires
            old(self).index > 0 ==> old(self).active().len() > 0,
        ensures
            final(self).index == if old(self).index > 0 {
                (old(self).index - 1) % (old(self).active().len() as int)
            } else {
                0
            },
            final(self).open == old(self).open,
            final(self).closed == old(self).closed,
            final(self).status == old(self).status,
    {
        if self.index > 0 {
            let n = self.len();
            self.index = (self.index - 1) % n
        }
    }
}

/// The browser: tab bar, tickets, and whether the user asked to leave.
#[derive(Debug, PartialEq, Eq)]
pub struct App {
    pub tabs: TabsState,
    pub tickets: TicketState,
    pub should_quit: bool,
}

/// An [`App`] as contracts see it.
pub ghost struct AppView {
    pub titles: Seq<Seq<char>>,
    pub tab: int,
    pub open: Seq<(TicketView, Seq<char>)>,
    pub closed: Seq<(TicketView, Seq<char>)>,
    pub index: int,
    pub status: Status,
    pub should_quit: bool,
}

/// The browser at start, over the tickets of both directories.
pub open spec fn opened(open: Seq<TicketView>, closed: Seq<TicketView>) -> AppView {
    AppView {
        titles: seq!["Open"@, "Closed"@],
        tab: 0,
        open: open.map_values(|t: TicketView| (t, Seq::<char>::empty())),
        closed: closed.map_values(|t: TicketView| (t, Seq::<char>::empty())),
        index: 0,
        status: Status::Open,
        should_quit: false,
    }
}

/// The status whose tickets the tab at `tab` shows.
pub open spec fn status_of_tab(tab: int) -> Status {
    if tab == 0 {
        Status::Open
    } else {
        Status::Closed
    }
}

impl AppView {
    /// The rows of the active tab.
    pub open spec fn active(self) -> Seq<(TicketView, Seq<char>)> {
        match self.status {
            Status::Open => self.open,
            Status::Closed => self.closed,
        }
    }

    /// This state with `rows` as the rows of the active tab.
    pub open spec fn with_active(self, rows: Seq<(TicketView, Seq<char>)>) -> AppView {
        match self.status {
            Status::Open => AppView { open: rows, ..self },
            Status::Closed => AppView { closed: rows, ..self },
        }
    }

    /// There are two tabs, the status goes with the active tab, and the
    /// selection is a row of the active tab, or 0 where that tab is empty.
    pub open spec fn wf(self) -> bool {
        &&& self.titles.len() == 2
        &&& 0 <= self.tab < 2
        &&& self.status == status_of_tab(self.tab)
        &&& 0 <= self.index
        &&& self.index < self.active().len() || self.index == 0
    }

    /// This state with the tab at `tab` active. A change of tab selects the
    /// first row.
    pub open spec fn at_tab(self, tab: int) -> AppView {
        if tab == self.tab {
            self
        } else {
            AppView { tab, status: status_of_tab(tab), index: 0, ..self }
        }
    }

    /// The state after `key` was pressed. `user` is who comments, and
    /// `fresh` the key under which a comment is filed: only `Enter` on a
    /// draft that is not empty reads them.
    pub open spec fn step(self, key: Key, user: UserConfigView, fresh: u128) -> AppView {
        let rows = self.active();
        let n = rows.len() as int;
        let i = self.index;
        match key {
            Key::Esc => AppView { should_quit: true, ..self },
            Key::Right => self.at_tab((self.tab + 1) % (self.titles.len() as int)),
            Key::Left => self.at_tab(
                if self.tab > 0 {
                    self.tab - 1
                } else {
                    0
                },
            ),
            Key::Down => if n > 0 {
                AppView { index: (i + 1) % n, ..self }
            } else {
                self
            },
            Key::Up => if i > 0 {
                AppView { index: i - 1, ..self }
            } else {
                self
            },
            Key::Backspace => if i < n && rows[i].1.len() > 0 {
                self.with_active(rows.update(i, (rows[i].0, rows[i].1.drop_last())))
            } else {
                self
            },
            Key::Char(c) => if i < n {
                self.with_active(rows.update(i, (rows[i].0, rows[i].1.push(c))))
            } else {
                self
            },
            Key::Enter => if self.wants_id(key) {
                let note = NoteView {
                    id: fresh,
                    author_id: user.uuid,
                    author: user.name,
                    body: rows[i].1,
                };
                self.with_active(rows.update(i, (rows[i].0.commented(note), Seq::empty())))
            } else {
                self
            },
            Key::Other => self,
        }
    }

    /// Whether `key` files a comment, for which a fresh identifier is
    /// needed: `Enter` on a selected row whose draft is not empty.
    pub open spec fn wants_id(self, key: Key) -> bool {
        key == Key::Enter && self.index < self.active().len() && self.active()[self.index].1.len()
            > 0
    }
}

/// Whatever key is pressed, the browser stays in order: two tabs, the status
/// that goes with the active tab, and a selection inside the active tab.
pub proof fn lemma_step_keeps_order(app: AppView, key: Key, user: UserConfigView, fresh: u128)
    requires
        app.wf(),
    ensures
        app.step(key, user, fresh).wf(),
        app.step(key, user, fresh).titles == app.titles,
        app.step(key, user, fresh).open.len() == app.open.len(),
        app.step(key, user, fresh).closed.len() == app.closed.len(),
{
}

impl View for App {
    type V = AppView;

    open spec fn view(&self) -> AppView {
        AppView {
            titles: texts(self.tabs.titles@),
            tab: self.tabs.index as int,
            open: draft_views(self.tickets.open@),
            closed: draft_views(self.tickets.closed@),
            index: self.tickets.index as int,
            status: self.tickets.status,
            should_quit: self.should_quit,
        }
    }
}

impl App {
    /// The browser at start: the tabs `Open` and `Closed`, the first of them
    /// active, every draft empty, the first row selected.
    pub fn new(open: Vec<Ticket>, closed: Vec<Ticket>) -> (app: App)
        ensures
            app@.wf(),
            app@ == opened(views_of(open@), views_of(closed@)),
    {
        let mut titles: Vec<String> = Vec::new();
        titles.push(String::from_str("Open"));
        titles.push(String::from_str("Closed"));
        let app = App {
            tabs: TabsState::new(titles),
            tickets: TicketState::new(with_drafts(open), with_drafts(closed)),
            should_quit: false,
        };
        proof {
            let want = opened(views_of(open@), views_of(closed@));
            assert(app@.titles =~= want.titles);
            assert(app@.open =~= want.open);
            assert(app@.closed =~= want.closed);
        }
        app
    }

    /// Whether a row is selected, which is whenever the active tab has one.
    pub fn has_selection(&self) -> (b: bool)
        requires
            self@.wf(),
        ensures
            b == (self@.index < self@.active().len()),
    {
        proof {
            self.lemma_active();
        }
        self.tickets.index < self.tickets.len()
    }

    /// The rows of the active tab, seen through the state and seen through
    /// its view, are the same rows.
    pub proof fn lemma_active(&self)
        ensures
            self@.active() == draft_views(self.tickets.active()),
    {
    }

    /// Whether `key` would file a comment in this state.
    pub fn wants_id(&self, key: Key) -> (b: bool)
        requires
            self@.wf(),
        ensures
            b == self@.wants_id(key),
    {
        if !self.has_selection() {
            return false;
        }
        let empty = match self.tickets.status {
            Status::Open => self.tickets.open[self.tickets.index].1.as_str().is_empty(),
            Status::Closed => self.tickets.closed[self.tickets.index].1.as_str().is_empty(),
        };
        match key {
            Key::Enter => !empty,
            _ => false,
        }
    }
}

/// Pairs each ticket with an empty draft.
pub fn with_drafts(tickets: Vec<Ticket>) -> (rows: Vec<(Ticket, String)>)
    ensures
        draft_views(rows@) == tickets@.map_values(|t: Ticket| (t@, Seq::<char>::empty())),
{
    let mut rows: Vec<(Ticket, String)> = Vec::new();
    let mut rest = tickets;
    let ghost all = tickets@.map_values(|t: Ticket| (t@, Seq::<char>::empty()));
    assert(draft_views(rows@) =~= all.take(0));
    while rest.len() > 0
        invariant
            rows.len() + rest.len() == all.len(),
            draft_views(rows@) == all.take(rows.len() as int),
            rest@.map_values(|t: Ticket| (t@, Seq::<char>::empty())) == all.skip(rows.len() as int),
        decreases rest.len(),
    {
        let ghost done = rows.len() as int;
        let ghost left = rest@.map_values(|t: Ticket| (t@, Seq::<char>::empty()));
        let ticket = rest.remove(0);
        assert(left[0] == (ticket@, Seq::<char>::empty()));
        assert(left[0] == all[done]);
        rows.push((ticket, String::new()));
        assert(draft_views(rows@) =~= all.take(done + 1));
        assert forall|k: int| 0 <= k < rest.len() implies (rest@[k]@, Seq::<char>::empty())
            == all[done + 1 + k] by {
            assert(left[k + 1] == all.skip(done)[k + 1]);
        }
        assert(rest@.map_values(|t: Ticket| (t@, Seq::<char>::empty())) =~= all.skip(done + 1));
    }
    assert(all.take(all.len() as int) =~= all);
    rows
}

/// Appends `c` to the draft of row `i`.
fn type_char(rows: &mut Vec<(Ticket, String)>, i: usize, c: char)
    requires
        i < old(rows).len(),
    ensures
        draft_views(final(rows)@) == draft_views(old(rows)@).update(
            i as int,
            (old(rows)@[i as int].0@, old(rows)@[i as int].1@.push(c)),
        ),
{
    push_char(&mut rows[i].1, c);
    assert(draft_views(rows@) =~= draft_views(old(rows)@).update(
        i as int,
        (old(rows)@[i as int].0@, old(rows)@[i as int].1@.push(c)),
    ));
}

/// Takes the last character off the draft of row `i`, if it has one.
fn erase_char(rows: &mut Vec<(Ticket, String)>, i: usize)
    requires
        i < old(rows).len(),
    ensures
        old(rows)@[i as int].1@.len() == 0 ==> draft_views(final(rows)@) == draft_views(
            old(rows)@,
        ),
        old(rows)@[i as int].1@.len() > 0 ==> draft_views(final(rows)@) == draft_views(
            old(rows)@,
        ).update(i as int, (old(rows)@[i as int].0@, old(rows)@[i as int].1@.drop_last())),
{
    let _ = pop_char(&mut rows[i].1);
    proof {
        if old(rows)@[i as int].1@.len() == 0 {
            assert(draft_views(rows@) =~= draft_views(old(rows)@));
        } else {
            assert(draft_views(rows@) =~= draft_views(old(rows)@).update(
                i as int,
                (old(rows)@[i as int].0@, old(rows)@[i as int].1@.drop_last()),
            ));
        }
    }
}

/// Files the draft of row `i` as a comment by `user` under the key `fresh`,
/// and empties the draft.
fn file_comment(rows: &mut Vec<(Ticket, String)>, i: usize, user: &UserConfig, fresh: u128)
    requires
        i < old(rows).len(),
    ensures
        draft_views(final(rows)@) == draft_views(old(rows)@).update(
            i as int,
            (
                old(rows)@[i as int].0@.commented(
                    NoteView {
                        id: fresh,
                        author_id: user.uuid,
                        author: user.name@,
                        body: old(rows)@[i as int].1@,
                    },
                ),
                Seq::<char>::empty(),
            ),
        ),
{
    let mut draft = String::new();
    core::mem::swap(&mut rows[i].1, &mut draft);
    rows[i].0.comment(fresh, user.uuid, Name(user.name.clone()), Comment(draft));
    assert(draft_views(rows@) =~= draft_views(old(rows)@).update(
        i as int,
        (
            old(rows)@[i as int].0@.commented(
                NoteView {
                    id: fresh,
                    author_id: user.uuid,
                    author: user.name@,
                    body: old(rows)@[i as int].1@,
                },
            ),
            Seq::<char>::empty(),
        ),
    ));
}

/// Does to the browser what `key` asks for. `fresh` is the key under which a
/// comment is filed, should `key` file one.
pub fn handle_key(app: &mut App, key: Key, user: &UserConfig, fresh: u128)
    requires
        old(app)@.wf(),
    ensures
        final(app)@.wf(),
        final(app)@ == old(app)@.step(key, user@, fresh),
{
    let selected = app.has_selection();
    let i = app.tickets.index;
    match key {
        Key::Esc => {
            app.should_quit = true;
        },
        Key::Right => {
            let before = app.tabs.index;
            app.tabs.next();
            if app.tabs.index != before {
                app.tickets.status = if app.tabs.index == 0 {
                    Status::Open
                } else {
                    Status::Closed
                };
                app.tickets.index = 0;
            }
        },
        Key::Left => {
            let before = app.tabs.index;
            proof {
                if before > 0 {
                    lemma_small_mod((before - 1) as nat, app.tabs.titles.len() as nat);
                }
            }
            app.tabs.previous();
            if app.tabs.index != before {
                app.tickets.status = if app.tabs.index == 0 {
                    Status::Open
                } else {
                    Status::Closed
                };
                app.tickets.index = 0;
            }
        },
        Key::Up => {
            if selected {
                proof {
                    if i > 0 {
                        lemma_small_mod((i - 1) as nat, app.tickets.active().len());
                    }
                }
                app.tickets.previous();
            }
        },
        Key::Down => {
            if i < app.tickets.len() {
                app.tickets.next();
            }
        },
        Key::Backspace => {
            if selected {
                match app.tickets.status {
                    Status::Open => erase_char(&mut app.tickets.open, i),
                    Status::Closed => erase_char(&mut app.tickets.closed, i),
                }
            }
        },
        Key::Char(c) => {
            if selected {
                match app.tickets.status {
                    Status::Open => type_char(&mut app.tickets.open, i, c),
                    Status::Closed => type_char(&mut app.tickets.closed, i, c),
                }
            }
        },
        Key::Enter => {
            if app.wants_id(key) {
                match app.tickets.status {
                    Status::Open => file_comment(&mut app.tickets.open, i, user, fresh),
                    Status::Closed => file_comment(&mut app.tickets.closed, i, user, fresh),
                }
            }
        },
        Key::Other => {},
    }
}

/// What an event comes to where `fresh` is what the making of an identifier
/// would come to: a tick changes nothing; a key does what [`AppView::step`]
/// says. Only a key that files a comment asks for an identifier: the comment
/// is filed under it, and where none could be made, nothing changes and the
/// failure is handed on.
pub open spec fn handled(
    app: AppView,
    event: Event<Key>,
    user: UserConfigView,
    fresh: Result<u128, ErrorView>,
) -> (AppView, Result<(), ErrorView>) {
    match event {
        Event::Tick => (app, Ok(())),
        Event::Input(key) => if app.wants_id(key) {
            match fresh {
                Ok(id) => (app.step(key, user, id), Ok(())),
                Err(e) => (app, Err(e)),
            }
        } else {
            (app.step(key, user, 0), Ok(()))
        },
    }
}

/// Takes one event from the input side. Where the event is a key that files
/// a comment, a fresh time-ordered identifier is made for it; which one
/// depends on the clock and on chance.
pub fn handle_event(app: &mut App, event: Event<Key>, user: &UserConfig) -> (outcome: Result<
    (),
    Error,
>)
    requires
        old(app)@.wf(),
    ensures
        final(app)@.wf(),
        exists|fresh: Result<u128, ErrorView>|
            #[trigger] possible_v1(fresh) && (final(app)@, outcome_view(outcome))
                == handled(old(app)@, event, user@, fresh),
{
    let ghost before = app@;
    let ghost any = crate::id::v1_at(0, 0, seq![0u8, 0u8, 0u8, 0u8, 0u8, 0u8]);
    assert(possible_v1(any));
    match event {
        Event::Tick => {
            let outcome: Result<(), Error> = Ok(());
            assert((app@, outcome_view(outcome)) == handled(
                before,
                event,
                user@,
                any,
            ));
            outcome
        },
        Event::Input(key) => {
            if app.wants_id(key) {
                let made = uuid_v1();
                let ghost fresh = id_view(made);
                match made {
                    Ok(id) => {
                        handle_key(app, key, user, id);
                        let outcome: Result<(), Error> = Ok(());
                        assert(possible_v1(fresh) && (app@, outcome_view(outcome))
                            == handled(before, event, user@, fresh));
                        outcome
                    },
                    Err(e) => {
                        let outcome: Result<(), Error> = Err(e);
                        assert(possible_v1(fresh) && (app@, outcome_view(outcome))
                            == handled(before, event, user@, fresh));
                        outcome
                    },
                }
            } else {
                handle_key(app, key, user, 0);
                let outcome: Result<(), Error> = Ok(());
                assert((app@, outcome_view(outcome)) == handled(
                    before,
                    event,
                    user@,
                    any,
                ));
                outcome
            }
        },
    }
}

/// A row of the table of tickets.
#[derive(Debug, PartialEq, Eq)]
pub struct Row {
    pub id: String,
    pub title: String,
    pub selected: bool,
}

/// A [`Row`] with its texts as sequences of characters.
pub ghost struct RowView {
    pub id: Seq<char>,
    pub title: Seq<char>,
    pub selected: bool,
}

impl View for Row {
    type V = RowView;

    open spec fn view(&self) -> RowView {
        RowView { id: self.id@, title: self.title@, selected: self.selected }
    }
}

/// The views of a sequence of rows.
pub open spec fn row_views(rows: Seq<Row>) -> Seq<RowView> {
    rows.map_values(|r: Row| r@)
}

/// The names of the assignees, each a span of its own, with a comma and a
/// space behind every name but the last.
pub open spec fn name_spans(assignees: Seq<Seq<char>>) -> Seq<SpanView> {
    Seq::new(
        assignees.len(),
        |i: int|
            if i < assignees.len() - 1 {
                span(Style::Name, assignees[i] + ", "@)
            } else {
                span(Style::Name, assignees[i])
            },
    )
}

/// The details of a ticket: its description, its assignees and its
/// comments, each under a heading.
pub open spec fn described(t: TicketView) -> Seq<SpanView> {
    seq![
        span(Style::Heading, "Description\n-------------\n"@),
        span(Style::Plain, t.description),
        span(Style::Heading, "\nAssignees\n---------\n"@),
    ] + name_spans(t.assignees) + seq![span(Style::Heading, "\nComments\n--------\n"@)]
        + comment_spans(t.comments)
}

/// The instruction strip.
pub open spec fn instructed() -> Seq<SpanView> {
    seq![
        span(Style::Key, "[ESC] "@),
        span(Style::Plain, "- Exit "@),
        span(Style::Key, "[Enter] "@),
        span(Style::Plain, "- Comment "@),
        span(Style::Key, "[Char] "@),
        span(Style::Plain, "- Write a comment "@),
        span(Style::Key, "[Backspace] "@),
        span(Style::Plain, "- Delete a character"@),
    ]
}

/// What saving tickets one after the other wants done: one write for each,
/// in their order. The first ticket that cannot be printed ends it, with
/// nothing done.
pub open spec fn saving(tickets: Seq<TicketView>) -> Result<Seq<EffectView>, ErrorView>
    decreases tickets.len(),
{
    if tickets.len() == 0 {
        Ok(Seq::empty())
    } else {
        match saving(tickets.drop_last()) {
            Err(e) => Err(e),
            Ok(before) => match saved(tickets.last()) {
                Ok(written) => Ok(before.push(written)),
                Err(e) => Err(e),
            },
        }
    }
}

/// A failure among the first tickets is the failure of the whole.
proof fn lemma_saving_prefix(tickets: Seq<TicketView>, n: int)
    requires
        0 <= n <= tickets.len(),
        saving(tickets.take(n)) is Err,
    ensures
        saving(tickets) == saving(tickets.take(n)),
    decreases tickets.len() - n,
{
    if n < tickets.len() {
        assert(tickets.take(n + 1).drop_last() =~= tickets.take(n));
        lemma_saving_prefix(tickets, n + 1);
    } else {
        assert(tickets.take(n) =~= tickets);
    }
}

/// The tickets of rows, drafts left aside.
pub open spec fn tickets_of(rows: Seq<(TicketView, Seq<char>)>) -> Seq<TicketView> {
    rows.map_values(|r: (TicketView, Seq<char>)| r.0)
}

/// Appends to `effects` the writes that save the tickets of `rows`.
fn save_rows(effects: &mut Vec<Effect>, rows: &Vec<(Ticket, String)>, Ghost(before): Ghost<
    Seq<TicketView>,
>) -> (r: Result<(), Error>)
    requires
        saving(before) == Ok::<Seq<EffectView>, ErrorView>(effect_views(old(effects)@)),
    ensures
        match r {
            Ok(_) => saving(before + tickets_of(draft_views(rows@))) == Ok::<
                Seq<EffectView>,
                ErrorView,
            >(effect_views(final(effects)@)),
            Err(e) => saving(before + tickets_of(draft_views(rows@))) == Err::<
                Seq<EffectView>,
                ErrorView,
            >(e@),
        },
{
    let ghost all = before + tickets_of(draft_views(rows@));
    let ghost base = before.len() as int;
    let mut i: usize = 0;
    assert(all.take(base) =~= before);
    while i < rows.len()
        invariant
            i <= rows.len(),
            base == before.len(),
            all == before + tickets_of(draft_views(rows@)),
            saving(all.take(base + i)) == Ok::<Seq<EffectView>, ErrorView>(
                effect_views(effects@),
            ),
        decreases rows.len() - i,
    {
        proof {
            assert(all.take(base + i + 1).drop_last() =~= all.take(base + i));
            assert(all.take(base + i + 1).last() == rows@[i as int].0@);
        }
        match save_ticket(&rows[i].0) {
            Ok(written) => {
                let ghost so_far = effect_views(effects@);
                effects.push(written);
                assert(effect_views(effects@) =~= so_far.push(written@));
            },
            Err(e) => {
                proof {
                    lemma_saving_prefix(all, base + i + 1);
                }
                return Err(e);
            },
        }
        i += 1;
    }
    assert(all.take(base + rows.len()) =~= all);
    Ok(())
}

/// What starting the browser on a snapshot comes to: the open and the closed
/// tickets, each sorted, or the failure to read them.
pub open spec fn starting(snapshot: Snapshot) -> Result<
    (Seq<TicketView>, Seq<TicketView>),
    ErrorView,
> {
    match tickets_in(entry_views(snapshot.open@), directory_place(Status::Open)) {
        Err(e) => Err(e),
        Ok(open) => match tickets_in(
            entry_views(snapshot.closed@),
            directory_place(Status::Closed),
        ) {
            Err(e) => Err(e),
            Ok(closed) => Ok((open, closed)),
        },
    }
}

impl App {
    /// Starts the browser on what the ticket directories hold. A file that
    /// holds no ticket keeps it from starting.
    pub fn start(snapshot: &Snapshot) -> (r: Result<App, Error>)
        ensures
            match r {
                Ok(app) => {
                    &&& app@.wf()
                    &&& starting(*snapshot) is Ok
                    &&& app@ == opened(starting(*snapshot)->Ok_0.0, starting(*snapshot)->Ok_0.1)
                },
                Err(e) => starting(*snapshot) == Err::<
                    (Seq<TicketView>, Seq<TicketView>),
                    ErrorView,
                >(e@),
            },
    {
        let open = match get_open_tickets(snapshot) {
            Ok(tickets) => tickets,
            Err(e) => {
                return Err(e);
            },
        };
        let closed = match get_closed_tickets(snapshot) {
            Ok(tickets) => tickets,
            Err(e) => {
                return Err(e);
            },
        };
        Ok(App::new(open, closed))
    }

    /// The table of the active tab: a row for each ticket, the selected one
    /// marked.
    pub fn table(&self) -> (rows: Vec<Row>)
        ensures
            row_views(rows@) == self@.active().map(
                |i: int, r: (TicketView, Seq<char>)|
                    RowView { id: uuid_text(r.0.id), title: r.0.title, selected: i == self@.index },
            ),
    {
        let list = match self.tickets.status {
            Status::Open => &self.tickets.open,
            Status::Closed => &self.tickets.closed,
        };
        let mut rows: Vec<Row> = Vec::new();
        let mut i: usize = 0;
        while i < list.len()
            invariant
                i <= list.len(),
                draft_views(list@) == self@.active(),
                rows.len() == i,
                forall|j: int|
                    0 <= j < i ==> (#[trigger] rows@[j])@ == (RowView {
                        id: uuid_text(list@[j].0.id),
                        title: list@[j].0.title@,
                        selected: j == self@.index,
                    }),
            decreases list.len() - i,
        {
            rows.push(
                Row {
                    id: format_uuid(list[i].0.id),
                    title: list[i].0.title.clone(),
                    selected: i == self.tickets.index,
                },
            );
            i += 1;
        }
        assert(row_views(rows@) =~= self@.active().map(
            |i: int, r: (TicketView, Seq<char>)|
                RowView { id: uuid_text(r.0.id), title: r.0.title, selected: i == self@.index },
        ));
        rows
    }

    /// The details of the selected ticket; nothing where no row is selected.
    pub fn description(&self) -> (spans: Vec<Span>)
        ensures
            span_views(spans@) == if 0 <= self@.index < self@.active().len() {
                described(self@.active()[self@.index].0)
            } else {
                Seq::empty()
            },
    {
        let list = match self.tickets.status {
            Status::Open => &self.tickets.open,
            Status::Closed => &self.tickets.closed,
        };
        let mut out: Vec<Span> = Vec::new();
        if self.tickets.index >= list.len() {
            assert(span_views(out@) =~= Seq::<SpanView>::empty());
            return out;
        }
        let t = &list[self.tickets.index].0;
        assert(t@ == self@.active()[self@.index].0);
        out.push(styled(Style::Heading, String::from_str("Description\n-------------\n")));
        out.push(styled(Style::Plain, t.description.clone()));
        out.push(styled(Style::Heading, String::from_str("\nAssignees\n---------\n")));
        let ghost head = span_views(out@);
        let n = t.assignees.len();
        let mut i: usize = 0;
        while i < n
            invariant
                i <= n,
                n == t.assignees.len(),
                out.len() == 3 + i,
                span_views(out@).take(3) == head,
                forall|j: int|
                    0 <= j < i ==> (#[trigger] out@[3 + j])@ == name_spans(t@.assignees)[j],
            decreases n - i,
        {
            let ghost so_far = span_views(out@);
            let name = if i < n - 1 {
                t.assignees[i].clone().concat(", ")
            } else {
                t.assignees[i].clone()
            };
            out.push(styled(Style::Name, name));
            assert(span_views(out@).take(3) =~= so_far.take(3));
            i += 1;
        }
        proof {
            let now = span_views(out@);
            let want = head + name_spans(t@.assignees);
            assert(now.len() == want.len());
            assert forall|k: int| 0 <= k < now.len() implies now[k] == want[k] by {
                if k < 3 {
                    assert(now.take(3)[k] == now[k]);
                } else {
                    assert(out@[3 + (k - 3)]@ == name_spans(t@.assignees)[k - 3]);
                }
            }
            assert(now =~= want);
        }
        out.push(styled(Style::Heading, String::from_str("\nComments\n--------\n")));
        assert(span_views(out@) =~= head + name_spans(t@.assignees) + seq![
            span(Style::Heading, "\nComments\n--------\n"@),
        ]);
        assert(head =~= seq![
            span(Style::Heading, "Description\n-------------\n"@),
            span(Style::Plain, t@.description),
            span(Style::Heading, "\nAssignees\n---------\n"@),
        ]);
        push_comments(&mut out, &t.comments);
        out
    }

    /// The line in which a comment is typed: a prompt and the draft of the
    /// selected ticket.
    pub fn comment(&self) -> (line: String)
        ensures
            line@ == "> "@ + if 0 <= self@.index < self@.active().len() {
                self@.active()[self@.index].1
            } else {
                Seq::empty()
            },
    {
        let list = match self.tickets.status {
            Status::Open => &self.tickets.open,
            Status::Closed => &self.tickets.closed,
        };
        if self.tickets.index < list.len() {
            String::from_str("> ").concat(list[self.tickets.index].1.as_str())
        } else {
            let line = String::from_str("> ");
            assert(line@ =~= "> "@ + Seq::<char>::empty());
            line
        }
    }

    /// The instruction strip.
    pub fn instructions() -> (spans: Vec<Span>)
        ensures
            span_views(spans@) == instructed(),
    {
        let mut out: Vec<Span> = Vec::new();
        out.push(styled(Style::Key, String::from_str("[ESC] ")));
        out.push(styled(Style::Plain, String::from_str("- Exit ")));
        out.push(styled(Style::Key, String::from_str("[Enter] ")));
        out.push(styled(Style::Plain, String::from_str("- Comment ")));
        out.push(styled(Style::Key, String::from_str("[Char] ")));
        out.push(styled(Style::Plain, String::from_str("- Write a comment ")));
        out.push(styled(Style::Key, String::from_str("[Backspace] ")));
        out.push(styled(Style::Plain, String::from_str("- Delete a character")));
        assert(span_views(out@) =~= instructed());
        out
    }

    /// What leaving the browser wants done: every ticket of both tabs is
    /// written back, the open ones first.
    pub fn flush(&self) -> (r: Result<Vec<Effect>, Error>)
        ensures
            plan_view(r) == saving(tickets_of(self@.open) + tickets_of(self@.closed)),
    {
        let mut effects: Vec<Effect> = Vec::new();
        assert(effect_views(effects@) =~= Seq::<EffectView>::empty());
        let ghost none = Seq::<TicketView>::empty();
        match save_rows(&mut effects, &self.tickets.open, Ghost(none)) {
            Ok(_) => {},
            Err(e) => {
                assert(none + tickets_of(self@.open) =~= tickets_of(self@.open));
                proof {
                    let all = tickets_of(self@.open) + tickets_of(self@.closed);
                    assert(all.take(tickets_of(self@.open).len() as int) =~= tickets_of(
                        self@.open,
                    ));
                    lemma_saving_prefix(all, tickets_of(self@.open).len() as int);
                }
                return Err(e);
            },
        }
        assert(none + tickets_of(self@.open) =~= tickets_of(self@.open));
        match save_rows(&mut effects, &self.tickets.closed, Ghost(tickets_of(self@.open))) {
            Ok(_) => Ok(effects),
            Err(e) => Err(e),
        }
    }
}

/// The browser after the keys were pressed one after the other, each with
/// the identifier that a comment would be filed under. Keys that come after
/// the user asked to leave are not looked at.
pub open spec fn played(app: AppView, keys: Seq<(Key, u128)>, user: UserConfigView) -> AppView
    decreases keys.len(),
{
    if keys.len() == 0 || app.should_quit {
        app
    } else {
        played(app.step(keys[0].0, user, keys[0].1), keys.drop_first(), user)
    }
}

/// What a session comes to: the browser starts on what the directories
/// hold, takes the keys, and when the user asked to leave, every ticket of
/// both tabs is written back. A session that the user has not left writes
/// nothing.
pub open spec fn session(snapshot: Snapshot, keys: Seq<(Key, u128)>, user: UserConfigView) -> Result<
    Seq<EffectView>,
    ErrorView,
> {
    match starting(snapshot) {
        Err(e) => Err(e),
        Ok((open, closed)) => {
            let end = played(opened(open, closed), keys, user);
            if end.should_quit {
                saving(tickets_of(end.open) + tickets_of(end.closed))
            } else {
                Ok(Seq::empty())
            }
        },
    }
}

/// Runs a session of the browser on the keys that the user pressed, each
/// with the identifier that a comment would be filed under, and says what
/// is to be written at its end.
pub fn run(snapshot: &Snapshot, user: &UserConfig, keys: &Vec<(Key, u128)>) -> (r: Result<
    Vec<Effect>,
    Error,
>)
    ensures
        plan_view(r) == session(*snapshot, keys@, user@),
{
    let mut app = match App::start(snapshot) {
        Ok(app) => app,
        Err(e) => {
            return Err(e);
        },
    };
    let ghost first = app@;
    assert(keys@.skip(0) =~= keys@);
    let mut i: usize = 0;
    while i < keys.len() && !app.should_quit
        invariant
            i <= keys.len(),
            app@.wf(),
            played(first, keys@, user@) == played(app@, keys@.skip(i as int), user@),
        decreases keys.len() - i,
    {
        let ghost rest = keys@.skip(i as int);
        assert(rest[0] == keys@[i as int]);
        assert(rest.drop_first() =~= keys@.skip(i + 1));
        handle_key(&mut app, keys[i].0, user, keys[i].1);
        i += 1;
    }
    assert(played(app@, keys@.skip(i as int), user@) == app@);
    if app.should_quit {
        app.flush()
    } else {
        let effects: Vec<Effect> = Vec::new();
        assert(effect_views(effects@) =~= Seq::<EffectView>::empty());
        Ok(effects)
    }
}

} // verus!
