use dev_suite::comments::{Comment, Comments, Name, Note};
use dev_suite::order::sort;
use dev_suite::ticket::{Status, Ticket, TicketV0, Version};

fn note(id: u128, body: &str) -> Note {
    Note { id, author_id: 1, author: Name("Ada".to_string()), body: Comment(body.to_string()) }
}

#[test]
fn a_fresh_ticket_is_open_and_bare() {
    let t = Ticket::fresh("Fix parser".to_string(), "Crashes on tabs.".to_string(), 9);
    assert_eq!(t.title, "Fix parser");
    assert_eq!(t.description, "Crashes on tabs.");
    assert_eq!(t.id, 9);
    assert_eq!(t.status, Status::Open);
    assert_eq!(t.version, Version::V1);
    assert!(t.assignees.is_empty());
    assert!(t.comments.is_empty());
    assert_eq!(t.comments.len(), 0);
}

#[test]
fn comments_stand_in_the_order_of_their_keys() {
    let mut log = Comments::new();
    for id in [50u128, 10, 40, 20, 30, u128::MAX, 0] {
        log.insert(note(id, "x"));
    }
    assert_eq!(log.len(), 7);
    let keys: Vec<u128> = (0..log.len()).map(|i| log.get(i).id).collect();
    assert_eq!(keys, vec![0, 10, 20, 30, 40, 50, u128::MAX]);
    assert_eq!(log.keys(), keys);
    for i in 1..log.len() {
        assert!(log.get(i - 1).id <= log.get(i).id);
    }
}

#[test]
fn a_comment_under_a_known_key_takes_the_place_of_the_old_one() {
    let mut log = Comments::new();
    log.insert(note(1, "one"));
    log.insert(note(2, "two"));
    log.insert(note(3, "three"));
    log.insert(note(2, "zwei"));
    assert_eq!(log.len(), 3);
    assert_eq!(log.get(0), &note(1, "one"));
    assert_eq!(log.get(1), &note(2, "zwei"));
    assert_eq!(log.get(2), &note(3, "three"));
    assert_eq!(log.position(2), Some(1));
    assert_eq!(log.position(4), None);
}

#[test]
fn a_comment_adds_one_key_and_keeps_the_rest() {
    let mut t = Ticket::fresh("Fix parser".to_string(), "Crashes on tabs.".to_string(), 9);
    t.assignees.push("Ada".to_string());
    t.comment(5, 77, Name("Ada".to_string()), Comment("first".to_string()));
    let before = t.clone();
    t.comment(3, 78, Name("Bob".to_string()), Comment("second".to_string()));
    assert_eq!(t.comments.len(), before.comments.len() + 1);
    assert_eq!(t.title, before.title);
    assert_eq!(t.status, before.status);
    assert_eq!(t.id, before.id);
    assert_eq!(t.assignees, before.assignees);
    assert_eq!(t.description, before.description);
    assert_eq!(t.version, before.version);
    assert_eq!(t.comments.get(1), before.comments.get(0));
    assert_eq!(
        t.comments.get(0),
        &Note {
            id: 3,
            author_id: 78,
            author: Name("Bob".to_string()),
            body: Comment("second".to_string())
        }
    );
}

#[test]
fn a_copy_of_a_ticket_is_the_ticket() {
    let mut t = Ticket::fresh("a".to_string(), "b".to_string(), 1);
    t.assignees.push("Ada".to_string());
    t.comment(5, 77, Name("Ada".to_string()), Comment("first".to_string()));
    assert_eq!(t.clone(), t);
}

#[test]
fn a_legacy_ticket_is_upgraded_field_by_field() {
    let legacy = TicketV0 {
        title: "Fix parser".to_string(),
        status: Status::Closed,
        number: 3,
        assignee: Some("Ada".to_string()),
        description: "...".to_string(),
    };
    let t = legacy.upgrade(12);
    assert_eq!(t.title, "Fix parser");
    assert_eq!(t.status, Status::Closed);
    assert_eq!(t.id, 12);
    assert_eq!(t.assignees, vec!["Ada".to_string()]);
    assert_eq!(t.description, "...");
    assert_eq!(t.version, Version::V1);
    assert!(t.comments.is_empty());
}

#[test]
fn a_legacy_ticket_without_assignee_has_none_afterwards() {
    let legacy = TicketV0 {
        title: "t".to_string(),
        status: Status::Open,
        number: 0,
        assignee: None,
        description: String::new(),
    };
    assert!(legacy.upgrade(1).assignees.is_empty());
}

#[test]
fn sorting_is_by_identifier_and_stable() {
    let mut tickets = Vec::new();
    for (id, title) in [(3u128, "c"), (1, "a"), (2, "b"), (1, "a2"), (3, "c2"), (0, "z")] {
        tickets.push(Ticket::fresh(title.to_string(), String::new(), id));
    }
    let sorted = sort(tickets);
    let got: Vec<(u128, &str)> = sorted.iter().map(|t| (t.id, t.title.as_str())).collect();
    assert_eq!(got, vec![(0, "z"), (1, "a"), (1, "a2"), (2, "b"), (3, "c"), (3, "c2")]);
}
