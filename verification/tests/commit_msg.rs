use dev_suite::commit_msg::{
    check_lengths, check_message, complaint_message, lines, Complaint, HEADER_MAX, HEADER_MIN,
    LINE_MAX,
};
use dev_suite::text::{chars_of, string_of};

fn split(text: &str) -> Vec<String> {
    lines(&chars_of(text)).iter().map(string_of).collect()
}

#[test]
fn lines_agree_with_the_standard_library() {
    for text in [
        "",
        "\n",
        "one",
        "one\n",
        "one\ntwo",
        "one\r\ntwo\r\n",
        "one\r",
        "one\rtwo\n",
        "\r\n\r\n",
        "a\n\nb\n\n",
        "bare \r in the middle\r\r\nend\r",
    ] {
        let expected: Vec<String> = text.lines().map(String::from).collect();
        assert_eq!(split(text), expected, "{:?}", text);
    }
}

#[test]
fn the_header_has_ten_to_fifty_characters() {
    assert_eq!((HEADER_MIN, HEADER_MAX, LINE_MAX), (10, 50, 72));
    assert_eq!(check_lengths(&vec![]), Ok(()));
    assert_eq!(check_lengths(&vec![10]), Ok(()));
    assert_eq!(check_lengths(&vec![50]), Ok(()));
    assert_eq!(check_lengths(&vec![9]), Err(Complaint::HeaderTooShort));
    assert_eq!(check_lengths(&vec![0]), Err(Complaint::HeaderTooShort));
    assert_eq!(check_lengths(&vec![51]), Err(Complaint::HeaderTooLong));
    assert_eq!(check_lengths(&vec![51, 100]), Err(Complaint::HeaderTooLong));
    assert_eq!(check_lengths(&vec![9, 100]), Err(Complaint::HeaderTooShort));
}

#[test]
fn a_line_of_the_body_has_at_most_seventy_two_characters() {
    assert_eq!(check_lengths(&vec![20, 0, 72, 72]), Ok(()));
    assert_eq!(check_lengths(&vec![20, 0, 73]), Err(Complaint::LineTooLong));
    assert_eq!(check_lengths(&vec![20, 73, 0]), Err(Complaint::LineTooLong));
}

#[test]
fn a_character_is_a_grapheme_cluster() {
    assert_eq!(check_message("Fix the parser\n\nIt crashed on tabs.\n"), Ok(()));
    assert_eq!(check_message(""), Ok(()));
    assert_eq!(check_message("too short"), Err(Complaint::HeaderTooShort));
    let clusters = "e\u{301}".repeat(50);
    assert_eq!(clusters.chars().count(), 100);
    assert_eq!(check_message(&clusters), Ok(()));
    let more = "e\u{301}".repeat(51);
    assert_eq!(check_message(&more), Err(Complaint::HeaderTooLong));
    let body = format!("Fix the parser\n{}\n", "x".repeat(73));
    assert_eq!(check_message(&body), Err(Complaint::LineTooLong));
    let body = format!("Fix the parser\r\n{}\r\n", "x".repeat(72));
    assert_eq!(check_message(&body), Ok(()));
}

#[test]
fn each_complaint_has_its_text() {
    assert!(complaint_message(Complaint::HeaderTooLong).starts_with("Your commit header is over 50"));
    assert!(complaint_message(Complaint::HeaderTooShort)
        .starts_with("Your commit header is less than 10"));
    assert!(complaint_message(Complaint::LineTooLong).starts_with("One of the lines in the body"));
}
