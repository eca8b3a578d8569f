use chatrs::{Action, Event, MessageHandler};

fn send(to: usize, line: &str) -> Action {
    Action::Send(to, line.to_string())
}

fn join(id: usize, nick: &str) -> Event {
    Event::Join(id, nick.to_string())
}

fn chat(id: usize, text: &str) -> Event {
    Event::Chat(id, text.to_string())
}

fn leave(id: usize, reason: &str) -> Event {
    Event::Disconnect(id, reason.to_string())
}

#[test]
fn scenario_two_users_join() {
    let mut h = MessageHandler::new();
    assert_eq!(h.handle_event(join(1, "alice")), vec![send(1, "online: alice")]);
    assert_eq!(
        h.handle_event(join(2, "bob")),
        vec![send(1, "[+] bob"), send(2, "online: alice bob")]
    );
    assert_eq!(h.user_list(), "alice bob");
}

#[test]
fn scenario_duplicate_nick_rejected() {
    let mut h = MessageHandler::new();
    h.handle_event(join(1, "alice"));
    assert_eq!(
        h.handle_event(join(2, "alice")),
        vec![send(2, "Already present."), Action::Shutdown(2)]
    );
    assert_eq!(h.len(), 1);
    assert_eq!(h.nick(1), Some("alice".to_string()));
    assert_eq!(h.nick(2), None);
    // The rejected connection's own disconnect is then a no-op.
    assert_eq!(h.handle_event(leave(2, "Disconnected")), vec![]);
    assert_eq!(h.user_list(), "alice");
}

#[test]
fn scenario_chat_then_leave() {
    let mut h = MessageHandler::new();
    h.handle_event(join(1, "alice"));
    h.handle_event(join(2, "bob"));
    assert_eq!(
        h.handle_event(chat(1, "hello")),
        vec![send(1, "<alice> hello"), send(2, "<alice> hello")]
    );
    assert_eq!(
        h.handle_event(leave(1, "Disconnected")),
        vec![send(2, "[-] alice (Disconnected)")]
    );
    assert_eq!(h.handle_event(chat(1, "still here?")), vec![]);
    assert_eq!(h.user_list(), "bob");
}

#[test]
fn disconnect_twice_announces_once() {
    let mut h = MessageHandler::new();
    h.handle_event(join(1, "alice"));
    h.handle_event(join(2, "bob"));
    assert_eq!(h.handle_event(leave(2, "broken pipe")), vec![send(1, "[-] bob (broken pipe)")]);
    assert_eq!(h.handle_event(leave(2, "broken pipe")), vec![]);
    assert_eq!(h.handle_event(leave(9, "Disconnected")), vec![]);
    assert_eq!(h.len(), 1);
}

#[test]
fn broadcast_addresses_every_user_once() {
    let mut h = MessageHandler::default();
    h.handle_event(join(1, "a"));
    h.handle_event(join(2, "b"));
    h.handle_event(join(3, "c"));
    let out = h.handle_event(chat(2, "x"));
    assert_eq!(out, vec![send(1, "<b> x"), send(2, "<b> x"), send(3, "<b> x")]);
    // Whatever happens to the writes, the roster is unchanged.
    assert_eq!(h.len(), 3);
    assert_eq!(h.user_list(), "a b c");
}

#[test]
fn interleaved_events_keep_arrival_order() {
    let mut h = MessageHandler::new();
    h.handle_event(join(1, "alice"));
    h.handle_event(join(2, "bob"));
    let events = vec![chat(2, "one"), join(3, "carol"), chat(1, "two"), leave(3, "timed out"), chat(2, "three")];
    let mut seen_by_1: Vec<String> = Vec::new();
    for e in events {
        for a in h.handle_event(e) {
            if let Action::Send(1, line) = a {
                seen_by_1.push(line);
            }
        }
    }
    assert_eq!(
        seen_by_1,
        vec!["<bob> one", "[+] carol", "<alice> two", "[-] carol (timed out)", "<bob> three"]
    );
}

#[test]
fn join_with_identity_in_use_is_ignored() {
    let mut h = MessageHandler::new();
    h.handle_event(join(1, "alice"));
    assert_eq!(h.handle_event(join(1, "other")), vec![]);
    assert_eq!(h.user_list(), "alice");
}

#[test]
fn empty_roster_lists_nobody() {
    let h = MessageHandler::new();
    assert_eq!(h.user_list(), "");
    assert_eq!(h.len(), 0);
}
