use dev_suite::error::Error;
use dev_suite::root::{find_git_root, find_root};

#[test]
fn the_nearest_marked_ancestor_is_the_root() {
    assert_eq!(find_root(&vec![true]), Ok(0));
    assert_eq!(find_root(&vec![false, false, true, false, true]), Ok(2));
    assert_eq!(find_git_root(&vec![false, true]), Ok((1, ".git".to_string())));
}

#[test]
fn without_a_marked_ancestor_there_is_no_repository() {
    assert_eq!(find_root(&Vec::new()), Err(Error::NotInRepository));
    assert_eq!(find_root(&vec![false, false]), Err(Error::NotInRepository));
    assert_eq!(find_git_root(&vec![false]), Err(Error::NotInRepository));
    assert_eq!(Error::NotInRepository.message(), "Unable to find a valid git repo");
}

#[test]
fn every_error_has_its_line() {
    assert_eq!(Error::NotInitialized.message(), "Not initialized. Did you run 'ds init'?");
    assert_eq!(Error::EditorFailure("gone".to_string()).message(), "Editor failed: gone");
    assert_eq!(
        Error::IOError("a/b".to_string(), "denied".to_string()).message(),
        "a/b: denied"
    );
    assert_eq!(Error::ClockOutOfRange(-1).message(), "The system clock is out of range");
    assert_eq!(
        Error::CorruptTicket("open/x.toml".to_string(), "why".to_string()).message(),
        "Failed to parse ticket open/x.toml. Is the file an old ticket format? You might need \
         to run `ticket migrate`. Underlying error was why"
    );
    assert_eq!(dev_suite::error::no_such_ticket("abc"), "No ticket with id abc exists.");
}
