use chatrs::nick::{check_nick, nick_prompt, NickError};
use chatrs::ConnectionHandler;

#[test]
fn nick_is_trimmed_and_lowercased() {
    assert_eq!(check_nick("Bob "), Ok("bob".to_string()));
    assert_eq!(check_nick("  ALICE42\r\n"), Ok("alice42".to_string()));
}

#[test]
fn empty_nick_is_refused() {
    assert_eq!(check_nick(""), Err(NickError::Empty));
    assert_eq!(check_nick(" \t\n"), Err(NickError::Empty));
    assert_eq!(check_nick("\u{3000}\u{a0}"), Err(NickError::Empty));
}

#[test]
fn non_alphanumeric_nick_is_refused() {
    assert_eq!(check_nick("a-b"), Err(NickError::NotAlphanumeric));
    assert_eq!(check_nick("bob smith"), Err(NickError::NotAlphanumeric));
    assert_eq!(check_nick("\u{e9}mile"), Err(NickError::NotAlphanumeric));
}

#[test]
fn handshake_texts() {
    assert_eq!(nick_prompt(), "Please enter your nick.\n> ");
    assert_eq!(NickError::Empty.notice(), "Nick can't be empty.\n");
    assert_eq!(NickError::NotAlphanumeric.notice(), "Nick must be alphanumeric.\n");
}

#[test]
fn handler_takes_checked_nick() {
    let h = ConnectionHandler::new(7, "  Carol\n").unwrap();
    assert_eq!(h.id(), 7);
    assert_eq!(h.nick(), "carol");
    assert!(matches!(ConnectionHandler::new(7, "c@rol"), Err(NickError::NotAlphanumeric)));
    assert!(matches!(ConnectionHandler::new(7, "\n"), Err(NickError::Empty)));
}
