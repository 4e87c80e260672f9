use dev_suite::actions::{
    closed_tickets, get_all_tickets, get_all_ticketsv0, get_closed_tickets, get_open_tickets,
    open_tickets, save_ticket, ticket_file_name, ticket_path, ticket_root, Entry, Snapshot,
};
use dev_suite::codec::{decode_ticket, encode_ticket};
use dev_suite::commands::{
    close, comment, comment_on, description_buffer, editor, init, migrate, migrate_all,
    migrate_ticket, migrate_with, new, new_from_prompt, new_with, show,
    title_from_prompt, Prompt,
};
use dev_suite::comments::{Comment, Name, Note};
use dev_suite::config::UserConfig;
use dev_suite::error::{exit_code, Error};
use dev_suite::plan::{Base, Effect, Location};
use dev_suite::render::text_of;
use dev_suite::ticket::{Status, Ticket, Version};

fn place(parts: &[&str]) -> Location {
    Location { base: Base::Repository, parts: parts.iter().map(|p| p.to_string()).collect() }
}

fn file(name: &str, ticket: &Ticket) -> Entry {
    Entry {
        name: name.to_string(),
        is_file: true,
        contents: encode_ticket(ticket).unwrap().into_bytes(),
    }
}

fn ticket(id: u128, title: &str, status: Status) -> Ticket {
    let mut t = Ticket::fresh(title.to_string(), format!("About {}.", title), id);
    t.status = status;
    t
}

fn ada_file() -> Vec<u8> {
    match dev_suite::config::set_user_config(&ada()).unwrap() {
        Effect::Write(_, text) => text.into_bytes(),
        other => panic!("unexpected effect {:?}", other),
    }
}

fn ada() -> UserConfig {
    UserConfig { name: "Ada".to_string(), uuid: 0x11111111_2222_4333_8444_555555555555 }
}

fn repository() -> Snapshot {
    Snapshot {
        open: vec![
            file("third.toml", &ticket(30, "Third", Status::Open)),
            Entry { name: "notes".to_string(), is_file: false, contents: Vec::new() },
            file("first.toml", &ticket(10, "First", Status::Open)),
        ],
        closed: vec![
            file("second.toml", &ticket(20, "Second", Status::Closed)),
            file("zeroth.toml", &ticket(5, "Zeroth", Status::Closed)),
        ],
    }
}

#[test]
fn the_ticket_directories_lie_under_dev_suite() {
    assert_eq!(ticket_root(), place(&[".dev-suite", "ticket"]));
    assert_eq!(open_tickets(), place(&[".dev-suite", "ticket", "open"]));
    assert_eq!(closed_tickets(), place(&[".dev-suite", "ticket", "closed"]));
    assert_eq!(open_tickets().display(), ".dev-suite/ticket/open");
    assert_eq!(description_buffer(), place(&[".dev-suite", "ticket", "description"]));
}

#[test]
fn init_makes_both_directories() {
    assert_eq!(
        init(),
        vec![
            Effect::CreateDir(place(&[".dev-suite", "ticket", "open"])),
            Effect::CreateDir(place(&[".dev-suite", "ticket", "closed"])),
        ]
    );
}

#[test]
fn a_ticket_lives_where_its_status_and_title_say() {
    let open = ticket(1, "Fix  the Parser", Status::Open);
    assert_eq!(ticket_file_name(&open), "fix-the-parser.toml");
    assert_eq!(ticket_path(&open), place(&[".dev-suite", "ticket", "open", "fix-the-parser.toml"]));
    let closed = ticket(1, "Fix  the Parser", Status::Closed);
    assert_eq!(
        ticket_path(&closed),
        place(&[".dev-suite", "ticket", "closed", "fix-the-parser.toml"])
    );
}

#[test]
fn new_writes_one_open_ticket() {
    let effects = new_with("Fix parser".to_string(), "Crashes on tabs.\n".to_string(), 77).unwrap();
    assert_eq!(effects.len(), 1);
    match &effects[0] {
        Effect::Write(at, text) => {
            assert_eq!(at, &place(&[".dev-suite", "ticket", "open", "fix-parser.toml"]));
            let t = decode_ticket(text.as_bytes()).unwrap();
            assert_eq!(t.status, Status::Open);
            assert_eq!(t.title, "Fix parser");
            assert!(t.assignees.is_empty());
            assert!(t.comments.is_empty());
            assert_eq!(t.version, Version::V1);
            assert_eq!(t.description, "Crashes on tabs.\n");
            assert_eq!(t.id, 77);
        }
        other => panic!("unexpected effect {:?}", other),
    }
}

#[test]
fn new_with_a_fresh_identifier_writes_one_open_ticket() {
    let effects =
        new(Prompt::Line("Fix parser".to_string()), "Crashes on tabs.".to_string()).unwrap();
    assert_eq!(effects.len(), 1);
    match &effects[0] {
        Effect::Write(at, text) => {
            assert_eq!(at, &place(&[".dev-suite", "ticket", "open", "fix-parser.toml"]));
            let t = decode_ticket(text.as_bytes()).unwrap();
            assert_eq!(uuid::Uuid::from_u128(t.id).get_version_num(), 1);
            assert_eq!(t.description, "Crashes on tabs.");
        }
        other => panic!("unexpected effect {:?}", other),
    }
}

#[test]
fn new_without_a_title_writes_nothing() {
    assert_eq!(new_with(String::new(), "text".to_string(), 1), Err(Error::EmptyTitle));
    assert_eq!(new(Prompt::Line(String::new()), "text".to_string()), Err(Error::EmptyTitle));
    assert_eq!(title_from_prompt(Prompt::Line(String::new())), Err(Error::EmptyTitle));
    assert_eq!(exit_code(&new(Prompt::Line(String::new()), String::new())), 1);
    assert_eq!(Error::EmptyTitle.message(), "Title may not be empty");
}

#[test]
fn the_end_of_input_at_the_prompt_ends_in_peace() {
    assert_eq!(title_from_prompt(Prompt::Eof), Ok(None));
    assert_eq!(title_from_prompt(Prompt::Interrupted), Ok(None));
    assert_eq!(exit_code(&title_from_prompt(Prompt::Eof)), 0);
    assert_eq!(exit_code(&title_from_prompt(Prompt::Interrupted)), 0);
}

#[test]
fn a_line_at_the_prompt_is_the_title() {
    assert_eq!(
        title_from_prompt(Prompt::Line("Fix parser".to_string())),
        Ok(Some("Fix parser".to_string()))
    );
    assert_eq!(
        title_from_prompt(Prompt::Failed("broken pipe".to_string())),
        Err(Error::IOError("standard input".to_string(), "broken pipe".to_string()))
    );
}

#[test]
fn the_editor_defaults_to_vi() {
    assert_eq!(editor(None), "vi");
    assert_eq!(editor(Some("nano".to_string())), "nano");
}

#[test]
fn tickets_are_read_sorted_and_open_ones_come_first() {
    let repo = repository();
    let open: Vec<u128> = get_open_tickets(&repo).unwrap().iter().map(|t| t.id).collect();
    let closed: Vec<u128> = get_closed_tickets(&repo).unwrap().iter().map(|t| t.id).collect();
    let all: Vec<u128> = get_all_tickets(&repo).unwrap().iter().map(|t| t.id).collect();
    assert_eq!(open, vec![10, 30]);
    assert_eq!(closed, vec![5, 20]);
    assert_eq!(all, vec![10, 30, 5, 20]);
    let mut joined = open.clone();
    joined.extend(closed);
    assert_eq!(all, joined);
}

#[test]
fn a_file_that_is_no_ticket_is_reported_with_its_place() {
    let mut repo = repository();
    repo.open.insert(
        1,
        Entry { name: "broken.toml".to_string(), is_file: true, contents: b"title = 3".to_vec() },
    );
    let e = get_open_tickets(&repo).unwrap_err();
    assert_eq!(
        e,
        Error::CorruptTicket(
            ".dev-suite/ticket/open/broken.toml".to_string(),
            "missing or invalid field title".to_string()
        )
    );
    assert!(e.message().contains("ticket migrate"));
    assert!(e.message().contains(".dev-suite/ticket/open/broken.toml"));
    assert_eq!(get_all_tickets(&repo).unwrap_err(), e);
    assert!(get_closed_tickets(&repo).is_ok());
}

#[test]
fn a_file_that_is_no_toml_is_reported_with_the_parser_s_reason() {
    let mut repo = repository();
    repo.closed.push(Entry {
        name: "bad.toml".to_string(),
        is_file: true,
        contents: b"title = ".to_vec(),
    });
    match get_closed_tickets(&repo).unwrap_err() {
        Error::CorruptTicket(path, reason) => {
            assert_eq!(path, ".dev-suite/ticket/closed/bad.toml");
            assert!(!reason.is_empty());
        }
        other => panic!("unexpected error {:?}", other),
    }
    repo.closed.pop();
    repo.closed.push(Entry { name: "bin".to_string(), is_file: true, contents: vec![0xff, 0xfe] });
    assert!(matches!(get_all_tickets(&repo), Err(Error::CorruptTicket(_, _))));
}

#[test]
fn show_prints_heading_status_assignees_description_and_comments() {
    let mut t = ticket(0xf3b49580_52a1_11e7_802a_010203040506, "Fix parser", Status::Open);
    t.assignees = vec!["Ada".to_string(), "Bob".to_string()];
    t.comment(2, 9, Name("Bob".to_string()), Comment("Second.".to_string()));
    t.comment(1, 8, Name("Ada".to_string()), Comment("First.".to_string()));
    let repo = Snapshot { open: vec![file("fix-parser.toml", &t)], closed: Vec::new() };
    let spans = show(&repo, t.id).unwrap();
    assert_eq!(
        text_of(&spans),
        "f3b49580-52a1-11e7-802a-010203040506 - Fix parser\n\n\
         Status: Open\n\
         Assignees: Ada, Bob\n\n\
         About Fix parser.\n\n\
         Ada\nFirst.\n\n\
         Bob\nSecond.\n\n"
    );
}

#[test]
fn show_says_none_where_nobody_is_assigned() {
    let t = ticket(7, "Closed one", Status::Closed);
    let repo = Snapshot { open: Vec::new(), closed: vec![file("closed-one.toml", &t)] };
    let text = text_of(&show(&repo, 7).unwrap());
    assert!(text.contains("Status: Closed\n"));
    assert!(text.contains("Assignees: None\n"));
}

#[test]
fn an_unknown_identifier_changes_nothing() {
    let repo = repository();
    assert_eq!(show(&repo, 99), Err(Error::NoSuchTicket(99)));
    assert_eq!(close(&repo, 99), Err(Error::NoSuchTicket(99)));
    assert_eq!(comment(&repo, 99, "hello".to_string(), Some(&ada_file())), Err(Error::NoSuchTicket(99)));
    assert_eq!(exit_code(&close(&repo, 99)), 1);
    assert_eq!(exit_code(&show(&repo, 99)), 1);
    assert_eq!(exit_code(&comment(&repo, 99, "hello".to_string(), Some(&ada_file()))), 1);
    assert_eq!(
        Error::NoSuchTicket(0xf3b49580_52a1_11e7_802a_010203040506).message(),
        "No ticket with id f3b49580-52a1-11e7-802a-010203040506 exists."
    );
}

#[test]
fn close_does_not_find_closed_tickets() {
    assert_eq!(close(&repository(), 20), Err(Error::NoSuchTicket(20)));
}

#[test]
fn close_writes_the_closed_ticket_and_then_removes_the_open_one() {
    let t = ticket(77, "Fix parser", Status::Open);
    let repo = Snapshot { open: vec![file("fix-parser.toml", &t)], closed: Vec::new() };
    let effects = close(&repo, 77).unwrap();
    assert_eq!(effects.len(), 2);
    match &effects[0] {
        Effect::Write(at, text) => {
            assert_eq!(at, &place(&[".dev-suite", "ticket", "closed", "fix-parser.toml"]));
            let back = decode_ticket(text.as_bytes()).unwrap();
            assert_eq!(back.status, Status::Closed);
            assert_eq!(back.id, 77);
            assert_eq!(back.title, t.title);
            assert_eq!(back.description, t.description);
        }
        other => panic!("unexpected effect {:?}", other),
    }
    assert_eq!(
        effects[1],
        Effect::Remove(place(&[".dev-suite", "ticket", "open", "fix-parser.toml"]))
    );
}

#[test]
fn close_removes_the_file_that_the_ticket_was_read_from() {
    let t = ticket(77, "Fix parser", Status::Open);
    let repo = Snapshot { open: vec![file("odd name.toml", &t)], closed: Vec::new() };
    let effects = close(&repo, 77).unwrap();
    assert_eq!(
        effects[1],
        Effect::Remove(place(&[".dev-suite", "ticket", "open", "odd name.toml"]))
    );
}

#[test]
fn a_comment_is_filed_under_the_user_s_name() {
    let t = ticket(77, "Fix parser", Status::Open);
    let effects = comment_on(t.clone(), "Looks good.".to_string(), &ada(), 500).unwrap();
    assert_eq!(effects.len(), 1);
    match &effects[0] {
        Effect::Write(at, text) => {
            assert_eq!(at, &place(&[".dev-suite", "ticket", "open", "fix-parser.toml"]));
            let back = decode_ticket(text.as_bytes()).unwrap();
            assert_eq!(back.comments.len(), 1);
            assert_eq!(
                back.comments.get(0),
                &Note {
                    id: 500,
                    author_id: ada().uuid,
                    author: Name("Ada".to_string()),
                    body: Comment("Looks good.".to_string())
                }
            );
            assert_eq!(back.title, t.title);
            assert_eq!(back.id, t.id);
            assert_eq!(back.status, t.status);
        }
        other => panic!("unexpected effect {:?}", other),
    }
}

#[test]
fn a_comment_gets_a_fresh_key() {
    let t = ticket(77, "Fix parser", Status::Open);
    let repo = Snapshot { open: vec![file("fix-parser.toml", &t)], closed: Vec::new() };
    let effects = comment(&repo, 77, "Looks good.".to_string(), Some(&ada_file())).unwrap();
    match &effects[0] {
        Effect::Write(_, text) => {
            let back = decode_ticket(text.as_bytes()).unwrap();
            assert_eq!(back.comments.len(), 1);
            let note = back.comments.get(0);
            assert_eq!(
                (note.author_id, &note.author, &note.body),
                (ada().uuid, &Name("Ada".to_string()), &Comment("Looks good.".to_string()))
            );
            assert_eq!(uuid::Uuid::from_u128(note.id).get_version_num(), 1);
        }
        other => panic!("unexpected effect {:?}", other),
    }
}

#[test]
fn a_comment_on_a_closed_ticket_is_written_among_the_closed() {
    let effects = comment(&repository(), 20, "late".to_string(), Some(&ada_file())).unwrap();
    match &effects[0] {
        Effect::Write(at, _) => {
            assert_eq!(at, &place(&[".dev-suite", "ticket", "closed", "second.toml"]))
        }
        other => panic!("unexpected effect {:?}", other),
    }
}

fn legacy(name: &str, text: &str) -> Entry {
    Entry { name: name.to_string(), is_file: true, contents: text.as_bytes().to_vec() }
}

#[test]
fn a_legacy_ticket_is_written_anew_and_its_file_removed() {
    let repo = Snapshot {
        open: vec![legacy(
            "3-fix-parser.toml",
            "title = \"Fix parser\"\nstatus = \"Open\"\nnumber = 3\nassignee = \"Ada\"\ndescription = \"...\"\n",
        )],
        closed: Vec::new(),
    };
    let mut found = migrate(&repo);
    assert_eq!(found.len(), 1);
    let effects = migrate_with(found.remove(0), 1234).unwrap();
    assert_eq!(effects.len(), 3);
    match &effects[0] {
        Effect::Write(at, text) => {
            assert_eq!(at, &place(&[".dev-suite", "ticket", "open", "fix-parser.toml"]));
            let t = decode_ticket(text.as_bytes()).unwrap();
            assert_eq!(t.assignees, vec!["Ada".to_string()]);
            assert_eq!(t.id, 1234);
            assert!(t.comments.is_empty());
            assert_eq!(t.title, "Fix parser");
            assert_eq!(t.status, Status::Open);
            assert_eq!(t.description, "...");
        }
        other => panic!("unexpected effect {:?}", other),
    }
    assert_eq!(
        effects[1],
        Effect::Remove(place(&[".dev-suite", "ticket", "open", "3-fix-parser.toml"]))
    );
    assert_eq!(effects[2], Effect::Sleep(1000));
}

#[test]
fn a_migrated_ticket_gets_a_fresh_identifier() {
    let repo = Snapshot {
        open: Vec::new(),
        closed: vec![legacy(
            "12-old.toml",
            "title = \"Old\"\nstatus = \"Closed\"\nnumber = 12\ndescription = \"\"\n",
        )],
    };
    let mut found = migrate(&repo);
    let effects = migrate_ticket(found.remove(0)).unwrap();
    match &effects[0] {
        Effect::Write(at, text) => {
            assert_eq!(at, &place(&[".dev-suite", "ticket", "closed", "old.toml"]));
            let t = decode_ticket(text.as_bytes()).unwrap();
            assert_eq!(uuid::Uuid::from_u128(t.id).get_version_num(), 1);
            assert!(t.assignees.is_empty());
        }
        other => panic!("unexpected effect {:?}", other),
    }
    assert_eq!(
        effects[1],
        Effect::Remove(place(&[".dev-suite", "ticket", "closed", "12-old.toml"]))
    );
}

#[test]
fn a_migration_of_current_tickets_has_nothing_to_do() {
    let repo = repository();
    assert!(migrate(&repo).is_empty());
    assert!(get_all_ticketsv0(&repo).is_empty());
}

#[test]
fn legacy_tickets_are_dealt_with_by_number_open_ones_first() {
    let v0 = |n: usize, status: &str| {
        legacy(
            "x.toml",
            &format!(
                "title = \"T{}\"\nstatus = \"{}\"\nnumber = {}\ndescription = \"\"\n",
                n, status, n
            ),
        )
    };
    let mut repo = repository();
    repo.open.push(v0(9, "Open"));
    repo.open.push(v0(2, "Open"));
    repo.open.push(legacy("junk", "not toml at all ["));
    repo.closed.push(v0(7, "Closed"));
    repo.closed.push(v0(1, "Closed"));
    let numbers: Vec<usize> = migrate(&repo).iter().map(|t| t.number).collect();
    assert_eq!(numbers, vec![2, 9, 1, 7]);
}

#[test]
fn saving_writes_the_ticket_s_text_to_its_place() {
    let t = ticket(77, "Fix parser", Status::Closed);
    assert_eq!(
        save_ticket(&t),
        Ok(Effect::Write(
            place(&[".dev-suite", "ticket", "closed", "fix-parser.toml"]),
            encode_ticket(&t).unwrap()
        ))
    );
}

#[test]
fn giving_up_at_the_prompt_writes_nothing() {
    for prompt in [Prompt::Eof, Prompt::Interrupted] {
        assert!(!prompt.gives_title());
        let plan = new_from_prompt(prompt, "never read".to_string(), 7);
        assert_eq!(plan, Ok(Vec::new()));
        assert_eq!(exit_code(&plan), 0);
    }
    assert_eq!(new(Prompt::Eof, String::new()), Ok(Vec::new()));
    assert_eq!(new(Prompt::Interrupted, String::new()), Ok(Vec::new()));
}

#[test]
fn a_title_at_the_prompt_makes_a_ticket() {
    let line = || Prompt::Line("Fix parser".to_string());
    assert!(line().gives_title());
    assert_eq!(
        new_from_prompt(line(), "d".to_string(), 7),
        new_with("Fix parser".to_string(), "d".to_string(), 7)
    );
    let made = new(line(), "d".to_string()).unwrap();
    assert_eq!(made.len(), 1);
    let empty = || Prompt::Line(String::new());
    assert!(!empty().gives_title());
    assert_eq!(new_from_prompt(empty(), "d".to_string(), 7), Err(Error::EmptyTitle));
    assert_eq!(new(empty(), "d".to_string()), Err(Error::EmptyTitle));
    let failed = || Prompt::Failed("broken".to_string());
    assert!(!failed().gives_title());
    assert_eq!(
        new(failed(), String::new()),
        Err(Error::IOError("standard input".to_string(), "broken".to_string()))
    );
}

#[test]
fn a_migration_is_the_steps_of_its_tickets_one_after_the_other() {
    let v0 = |n: usize, status: &str| {
        legacy(
            "x.toml",
            &format!(
                "title = \"T{}\"\nstatus = \"{}\"\nnumber = {}\ndescription = \"\"\n",
                n, status, n
            ),
        )
    };
    let mut repo = repository();
    repo.open.push(v0(9, "Open"));
    repo.open.push(v0(2, "Open"));
    repo.closed.push(v0(7, "Closed"));
    let ids = vec![100, 200, 300, 400];
    let (effects, outcome) = migrate_all(&repo, &ids);
    assert_eq!(outcome, Ok(()));
    let mut expected = Vec::new();
    for (ticket, id) in migrate(&repo).into_iter().zip([100u128, 200, 300]) {
        expected.extend(migrate_with(ticket, id).unwrap());
    }
    assert_eq!(effects, expected);
    assert_eq!(effects.len(), 9);
    assert_eq!(
        effects[1],
        Effect::Remove(place(&[".dev-suite", "ticket", "open", "2-t2.toml"]))
    );
    assert_eq!(
        effects[7],
        Effect::Remove(place(&[".dev-suite", "ticket", "closed", "7-t7.toml"]))
    );
    assert_eq!(effects[8], Effect::Sleep(1000));
    let (some, outcome) = migrate_all(&repo, &vec![100]);
    assert_eq!(outcome, Ok(()));
    assert_eq!(some[..], expected[..3]);
    assert_eq!(migrate_all(&repository(), &ids), (Vec::new(), Ok(())));
    assert_eq!(migrate_all(&repo, &Vec::new()), (Vec::new(), Ok(())));
}

#[test]
fn a_comment_looks_for_the_ticket_before_it_asks_who_comments() {
    let repo = repository();
    assert_eq!(comment(&repo, 99, "hello".to_string(), None), Err(Error::NoSuchTicket(99)));
    assert_eq!(
        comment(&repo, 99, "hello".to_string(), Some(b"not a configuration")),
        Err(Error::NoSuchTicket(99))
    );
    assert_eq!(comment(&repo, 10, "hello".to_string(), None), Err(Error::NotInitialized));
    assert!(matches!(
        comment(&repo, 10, "hello".to_string(), Some(b"name = 'Ada'")),
        Err(Error::IOError(_, _))
    ));
    let mut broken = repository();
    broken.open.push(Entry { name: "b".to_string(), is_file: true, contents: b"x = 1".to_vec() });
    assert!(matches!(
        comment(&broken, 10, "hello".to_string(), None),
        Err(Error::CorruptTicket(_, _))
    ));
}
