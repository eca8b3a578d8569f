use chatrs::worker::{ReadOutcome, WorkerStep};
use chatrs::{ConnectionHandler, Event};

fn handler() -> ConnectionHandler {
    ConnectionHandler::new(3, "alice").unwrap()
}

#[test]
fn join_event_names_connection() {
    assert_eq!(handler().join_event(), Event::Join(3, "alice".to_string()));
}

#[test]
fn clean_line_becomes_trimmed_chat() {
    assert_eq!(handler().message("  hello there \n"), Some(Event::Chat(3, "hello there".to_string())));
    assert_eq!(handler().message("tab\there\r\n"), Some(Event::Chat(3, "tab\there".to_string())));
}

#[test]
fn line_with_control_character_is_dropped() {
    assert_eq!(handler().message("ring\u{7}bell\n"), None);
    assert_eq!(handler().message("\u{1b}[31mred\n"), None);
    assert_eq!(handler().message("del\u{7f}\n"), None);
}

#[test]
fn read_outcomes() {
    let h = handler();
    assert_eq!(
        h.on_read(ReadOutcome::Line("hi\n".to_string())),
        WorkerStep::Forward(Event::Chat(3, "hi".to_string()))
    );
    assert_eq!(h.on_read(ReadOutcome::Line("\u{0}\n".to_string())), WorkerStep::Ignore);
    assert_eq!(h.on_read(ReadOutcome::WouldBlock), WorkerStep::Wait);
    assert_eq!(
        h.on_read(ReadOutcome::Eof),
        WorkerStep::Finish(Event::Disconnect(3, "Disconnected".to_string()))
    );
    assert_eq!(
        h.on_read(ReadOutcome::Failed("connection reset".to_string())),
        WorkerStep::Finish(Event::Disconnect(3, "connection reset".to_string()))
    );
}
