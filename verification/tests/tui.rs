use dev_suite::actions::{Entry, Snapshot};
use dev_suite::codec::{decode_ticket, encode_ticket};
use dev_suite::comments::{Comment, Name, Note};
use dev_suite::config::UserConfig;
use dev_suite::plan::{Base, Effect, Location};
use dev_suite::render::{text_of, Span, Style};
use dev_suite::ticket::{Status, Ticket};
use dev_suite::tui::{
    handle_event, handle_key, run, App, Config, Event, Key, Row, TabsState, TicketState,
};

fn ticket(id: u128, title: &str, status: Status) -> Ticket {
    let mut t = Ticket::fresh(title.to_string(), format!("About {}.", title), id);
    t.status = status;
    t
}

fn ada() -> UserConfig {
    UserConfig { name: "Ada".to_string(), uuid: 42 }
}

fn app() -> App {
    App::new(
        vec![
            ticket(1, "One", Status::Open),
            ticket(2, "Two", Status::Open),
            ticket(3, "Three", Status::Open),
        ],
        vec![ticket(4, "Four", Status::Closed)],
    )
}

fn press(app: &mut App, keys: &[Key]) {
    for key in keys {
        handle_key(app, *key, &ada(), 1000);
    }
}

#[test]
fn the_browser_starts_on_the_first_open_ticket() {
    let a = app();
    assert_eq!(a.tabs.titles, vec!["Open".to_string(), "Closed".to_string()]);
    assert_eq!(a.tabs.index, 0);
    assert_eq!(a.tickets.index, 0);
    assert_eq!(a.tickets.status, Status::Open);
    assert!(!a.should_quit);
    assert_eq!(a.tickets.len(), 3);
    assert!(a.tickets.open.iter().all(|(_, draft)| draft.is_empty()));
}

#[test]
fn the_browser_reads_both_directories() {
    let file = |t: &Ticket| Entry {
        name: "x.toml".to_string(),
        is_file: true,
        contents: encode_ticket(t).unwrap().into_bytes(),
    };
    let snapshot = Snapshot {
        open: vec![file(&ticket(2, "Two", Status::Open)), file(&ticket(1, "One", Status::Open))],
        closed: vec![file(&ticket(4, "Four", Status::Closed))],
    };
    let a = App::start(&snapshot).unwrap();
    let ids: Vec<u128> = a.tickets.open.iter().map(|(t, _)| t.id).collect();
    assert_eq!(ids, vec![1, 2]);
    assert_eq!(a.tickets.closed.len(), 1);
    let broken = Snapshot {
        open: vec![Entry { name: "b".to_string(), is_file: true, contents: b"x = 1".to_vec() }],
        closed: Vec::new(),
    };
    assert!(App::start(&broken).is_err());
}

#[test]
fn escape_asks_to_leave() {
    let mut a = app();
    press(&mut a, &[Key::Esc]);
    assert!(a.should_quit);
}

#[test]
fn down_wraps_and_up_stops_at_the_top() {
    let mut a = app();
    press(&mut a, &[Key::Down]);
    assert_eq!(a.tickets.index, 1);
    press(&mut a, &[Key::Down]);
    assert_eq!(a.tickets.index, 2);
    press(&mut a, &[Key::Down]);
    assert_eq!(a.tickets.index, 0);
    press(&mut a, &[Key::Up]);
    assert_eq!(a.tickets.index, 0);
    press(&mut a, &[Key::Down, Key::Down, Key::Up]);
    assert_eq!(a.tickets.index, 1);
}

#[test]
fn a_change_of_tab_selects_the_first_row() {
    let mut a = app();
    press(&mut a, &[Key::Down, Key::Right]);
    assert_eq!((a.tabs.index, a.tickets.status, a.tickets.index), (1, Status::Closed, 0));
    assert_eq!(a.tickets.len(), 1);
    press(&mut a, &[Key::Left]);
    assert_eq!((a.tabs.index, a.tickets.status, a.tickets.index), (0, Status::Open, 0));
    press(&mut a, &[Key::Down, Key::Down, Key::Left]);
    assert_eq!((a.tabs.index, a.tickets.status, a.tickets.index), (0, Status::Open, 2));
    press(&mut a, &[Key::Right, Key::Right]);
    assert_eq!((a.tabs.index, a.tickets.status, a.tickets.index), (0, Status::Open, 0));
}

#[test]
fn characters_go_to_the_draft_of_the_selected_ticket() {
    let mut a = app();
    press(&mut a, &[Key::Down, Key::Char('h'), Key::Char('i'), Key::Char('!'), Key::Backspace]);
    assert_eq!(a.tickets.open[1].1, "hi");
    assert_eq!(a.tickets.open[0].1, "");
    assert_eq!(a.comment(), "> hi");
    press(&mut a, &[Key::Backspace, Key::Backspace, Key::Backspace]);
    assert_eq!(a.tickets.open[1].1, "");
    assert_eq!(a.comment(), "> ");
}

#[test]
fn enter_files_the_draft_as_a_comment() {
    let mut a = app();
    press(&mut a, &[Key::Char('o'), Key::Char('k'), Key::Enter]);
    assert_eq!(a.tickets.open[0].1, "");
    assert_eq!(a.tickets.open[0].0.comments.len(), 1);
    assert_eq!(
        a.tickets.open[0].0.comments.get(0),
        &Note {
            id: 1000,
            author_id: 42,
            author: Name("Ada".to_string()),
            body: Comment("ok".to_string())
        }
    );
    press(&mut a, &[Key::Enter]);
    assert_eq!(a.tickets.open[0].0.comments.len(), 1);
    assert!(a.wants_id(Key::Enter) == false);
    press(&mut a, &[Key::Char('x')]);
    assert!(a.wants_id(Key::Enter));
    assert!(!a.wants_id(Key::Char('y')));
}

#[test]
fn an_event_with_enter_files_under_a_fresh_key() {
    let mut a = app();
    handle_event(&mut a, Event::Input(Key::Char('y')), &ada()).unwrap();
    handle_event(&mut a, Event::Tick, &ada()).unwrap();
    handle_event(&mut a, Event::Input(Key::Enter), &ada()).unwrap();
    let log = &a.tickets.open[0].0.comments;
    assert_eq!(log.len(), 1);
    assert_eq!(log.get(0).body, Comment("y".to_string()));
    assert_eq!(uuid::Uuid::from_u128(log.get(0).id).get_version_num(), 1);
}

#[test]
fn keys_do_nothing_where_no_ticket_is_selected() {
    let mut a = App::new(Vec::new(), Vec::new());
    press(
        &mut a,
        &[Key::Down, Key::Up, Key::Char('a'), Key::Backspace, Key::Enter, Key::Other],
    );
    assert_eq!(a.tickets.index, 0);
    assert_eq!(a.comment(), "> ");
    assert!(a.description().is_empty());
    assert!(a.table().is_empty());
    press(&mut a, &[Key::Right, Key::Down, Key::Enter]);
    assert_eq!((a.tabs.index, a.tickets.status, a.tickets.index), (1, Status::Closed, 0));
}

#[test]
fn the_table_marks_the_selected_row() {
    let mut a = app();
    press(&mut a, &[Key::Down]);
    assert_eq!(
        a.table(),
        vec![
            Row {
                id: "00000000-0000-0000-0000-000000000001".to_string(),
                title: "One".to_string(),
                selected: false
            },
            Row {
                id: "00000000-0000-0000-0000-000000000002".to_string(),
                title: "Two".to_string(),
                selected: true
            },
            Row {
                id: "00000000-0000-0000-0000-000000000003".to_string(),
                title: "Three".to_string(),
                selected: false
            },
        ]
    );
}

#[test]
fn the_details_show_description_assignees_and_comments() {
    let mut t = ticket(1, "One", Status::Open);
    t.assignees = vec!["Ada".to_string(), "Bob".to_string(), "Cy".to_string()];
    t.comment(9, 1, Name("Bob".to_string()), Comment("Later.".to_string()));
    t.comment(8, 1, Name("Ada".to_string()), Comment("Sooner.".to_string()));
    let a = App::new(vec![t], Vec::new());
    let spans = a.description();
    let span = |style, text: &str| Span { style, text: text.to_string() };
    assert_eq!(
        spans,
        vec![
            span(Style::Heading, "Description\n-------------\n"),
            span(Style::Plain, "About One."),
            span(Style::Heading, "\nAssignees\n---------\n"),
            span(Style::Name, "Ada, "),
            span(Style::Name, "Bob, "),
            span(Style::Name, "Cy"),
            span(Style::Heading, "\nComments\n--------\n"),
            span(Style::Name, "Ada\n"),
            span(Style::Plain, "Sooner.\n\n"),
            span(Style::Name, "Bob\n"),
            span(Style::Plain, "Later.\n\n"),
        ]
    );
}

#[test]
fn the_instructions_name_the_four_bindings() {
    assert_eq!(
        text_of(&App::instructions()),
        "[ESC] - Exit [Enter] - Comment [Char] - Write a comment [Backspace] - Delete a character"
    );
    assert_eq!(App::instructions().len(), 8);
    assert_eq!(App::instructions()[0].style, Style::Key);
}

#[test]
fn leaving_writes_every_ticket_back() {
    let mut a = app();
    press(&mut a, &[Key::Char('o'), Key::Char('k'), Key::Enter]);
    let effects = a.flush().unwrap();
    assert_eq!(effects.len(), 4);
    let places: Vec<String> = effects
        .iter()
        .map(|e| match e {
            Effect::Write(at, _) => at.display(),
            other => panic!("unexpected effect {:?}", other),
        })
        .collect();
    assert_eq!(
        places,
        vec![
            ".dev-suite/ticket/open/one.toml",
            ".dev-suite/ticket/open/two.toml",
            ".dev-suite/ticket/open/three.toml",
            ".dev-suite/ticket/closed/four.toml",
        ]
    );
    match &effects[0] {
        Effect::Write(at, text) => {
            assert_eq!(at.base, Base::Repository);
            assert_eq!(decode_ticket(text.as_bytes()).unwrap(), a.tickets.open[0].0);
            assert_eq!(decode_ticket(text.as_bytes()).unwrap().comments.len(), 1);
        }
        other => panic!("unexpected effect {:?}", other),
    }
    let _ = Location::at(Base::Repository);
}

#[test]
fn tabs_and_rows_move_on_their_own() {
    let mut tabs = TabsState::new(vec!["a".to_string(), "b".to_string(), "c".to_string()]);
    tabs.previous();
    assert_eq!(tabs.index, 0);
    tabs.next();
    tabs.next();
    assert_eq!(tabs.index, 2);
    tabs.next();
    assert_eq!(tabs.index, 0);
    tabs.next();
    tabs.previous();
    assert_eq!(tabs.index, 0);
    let mut rows = TicketState::new(
        vec![(ticket(1, "One", Status::Open), String::new())],
        vec![
            (ticket(2, "Two", Status::Closed), String::new()),
            (ticket(3, "Three", Status::Closed), String::new()),
        ],
    );
    assert_eq!(rows.len(), 1);
    rows.next();
    assert_eq!(rows.index, 0);
    rows.status = Status::Closed;
    assert_eq!(rows.len(), 2);
    rows.next();
    assert_eq!(rows.index, 1);
    rows.previous();
    assert_eq!(rows.index, 0);
    rows.previous();
    assert_eq!(rows.index, 0);
}

#[test]
fn the_input_side_ticks_four_times_a_second() {
    let config = Config::default();
    assert_eq!(config.tick_rate, 250);
    assert_eq!(config.exit_key, Key::Char('q'));
}

fn directories() -> Snapshot {
    let file = |t: &Ticket| Entry {
        name: "x.toml".to_string(),
        is_file: true,
        contents: encode_ticket(t).unwrap().into_bytes(),
    };
    Snapshot {
        open: vec![file(&ticket(2, "Two", Status::Open)), file(&ticket(1, "One", Status::Open))],
        closed: vec![file(&ticket(4, "Four", Status::Closed))],
    }
}

#[test]
fn a_session_that_ends_writes_every_ticket_back() {
    let keys = vec![
        (Key::Down, 0),
        (Key::Char('o'), 0),
        (Key::Char('k'), 0),
        (Key::Enter, 900),
        (Key::Esc, 0),
        (Key::Char('x'), 0),
        (Key::Enter, 901),
    ];
    let effects = run(&directories(), &ada(), &keys).unwrap();
    assert_eq!(effects.len(), 3);
    let tickets: Vec<Ticket> = effects
        .iter()
        .map(|e| match e {
            Effect::Write(_, text) => decode_ticket(text.as_bytes()).unwrap(),
            other => panic!("unexpected effect {:?}", other),
        })
        .collect();
    assert_eq!(tickets.iter().map(|t| t.id).collect::<Vec<u128>>(), vec![1, 2, 4]);
    assert!(tickets[0].comments.is_empty());
    assert!(tickets[2].comments.is_empty());
    assert_eq!(tickets[1].comments.keys(), vec![900]);
    assert_eq!(tickets[1].comments.get(0).body, Comment("ok".to_string()));
}

#[test]
fn a_session_that_does_not_end_writes_nothing() {
    let keys = vec![(Key::Char('o'), 0), (Key::Enter, 900)];
    assert_eq!(run(&directories(), &ada(), &keys), Ok(Vec::new()));
    assert_eq!(run(&directories(), &ada(), &Vec::new()), Ok(Vec::new()));
}

#[test]
fn a_session_does_not_start_on_a_broken_directory() {
    let mut broken = directories();
    broken.closed.push(Entry { name: "b".to_string(), is_file: true, contents: b"x".to_vec() });
    assert!(run(&broken, &ada(), &vec![(Key::Esc, 0)]).is_err());
}

#[test]
fn an_event_without_a_comment_leaves_the_clock_alone() {
    let mut a = app();
    assert_eq!(handle_event(&mut a, Event::Input(Key::Enter), &ada()), Ok(()));
    assert_eq!(handle_event(&mut a, Event::Input(Key::Down), &ada()), Ok(()));
    assert_eq!(a.tickets.index, 1);
    assert!(a.tickets.open.iter().all(|(t, _)| t.comments.is_empty()));
}
