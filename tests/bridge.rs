use rori_discord_bridge::message::{route_chat_message, USAGE};
use rori_discord_bridge::{
    Account, Database, DiscordMsg, Endpoint, InitError, Interaction, Mailbox, Outcome, Signal,
    StorageError,
};

fn s(x: &str) -> String {
    x.to_string()
}

fn account() -> Account {
    Account { id: s("acc"), ring_id: s("abcdef"), alias: s("bridge"), enabled: true }
}

fn endpoint() -> Endpoint {
    Endpoint::init(account(), "peer", Database::new()).ok().unwrap()
}

fn chat(id: &str, body: &str, author: &str, channel: &str) -> DiscordMsg {
    DiscordMsg { id: s(id), body: s(body), author: s(author), channel: s(channel) }
}

fn pairs(p: &[(&str, &str)]) -> Vec<(String, String)> {
    p.iter().map(|(k, v)| (s(k), s(v))).collect()
}

fn interaction(datatype: &str, body: &str, metadata: &[(&str, &str)]) -> Interaction {
    Interaction {
        author_ring_id: s("peer"),
        body: s(body),
        datatype: s(datatype),
        time: 0,
        metadatas: pairs(metadata),
    }
}

fn confirmation(e: &mut Endpoint, username: &str, registered: bool) -> Outcome {
    let body = format!("{{\"username\":\"{}\",\"registered\":{}}}", username, registered);
    e.handle_interaction(&s("acc"), interaction("rori/message", &body, &[]))
}

#[test]
fn register_then_confirm_then_chat_resolves_username() {
    let mut e = endpoint();
    let p = e.handle_user_message(chat("100", "/register alice", "42", "9")).unwrap();
    assert_eq!(
        p,
        pairs(&[("rori/command", "/register alice"), ("sa", ""), ("th", "100"), ("ch", "9")])
    );
    assert_eq!(e.pending_requester(&s("alice")), Some(s("42")));
    match confirmation(&mut e, "alice", true) {
        Outcome::Committed { id, username } => {
            assert_eq!(id, "42");
            assert_eq!(username, "alice");
        }
        _ => panic!("expected a commit"),
    }
    assert_eq!(e.pending_requester(&s("alice")), None);
    assert_eq!(e.database().username(&s("42")), "alice");
    assert_eq!(e.database().id(&s("alice")), "42");
    let p = e.handle_user_message(chat("101", "hello", "42", "9")).unwrap();
    assert_eq!(p, pairs(&[("text/plain", "hello"), ("sa", "alice"), ("th", "101"), ("ch", "9")]));
}

#[test]
fn register_free_username_opens_one_request() {
    let mut e = endpoint();
    let p = e.handle_user_message(chat("1", "/register bob", "7", "c"));
    assert!(p.is_some());
    assert_eq!(p.unwrap()[0], (s("rori/command"), s("/register bob")));
    assert_eq!(e.pending_requester(&s("bob")), Some(s("7")));
    assert_eq!(e.database().len(), 0);
}

#[test]
fn register_pending_username_is_dropped() {
    let mut e = endpoint();
    assert!(e.handle_user_message(chat("1", "/register bob", "7", "c")).is_some());
    assert!(e.handle_user_message(chat("2", "/register bob", "8", "c")).is_none());
    assert_eq!(e.pending_requester(&s("bob")), Some(s("7")));
}

#[test]
fn register_committed_username_is_dropped() {
    let mut db = Database::new();
    db.add_user(&s("7"), &s("bob")).unwrap();
    let mut e = Endpoint::init(account(), "peer", db).ok().unwrap();
    assert!(e.handle_user_message(chat("1", "/register bob", "8", "c")).is_none());
    assert_eq!(e.pending_requester(&s("bob")), None);
    assert_eq!(e.database().len(), 1);
}

#[test]
fn register_of_username_held_by_empty_id_is_dropped() {
    let mut db = Database::new();
    db.add_user(&s(""), &s("alice")).unwrap();
    let mut e = Endpoint::init(account(), "peer", db).ok().unwrap();
    assert!(e.handle_user_message(chat("1", "/register alice", "42", "c")).is_none());
    assert_eq!(e.pending_requester(&s("alice")), None);
    assert_eq!(e.database().len(), 1);
}

#[test]
fn register_with_tab_opens_request() {
    let mut e = endpoint();
    let p = e.handle_user_message(chat("1", "/register\talice", "42", "c")).unwrap();
    assert_eq!(p[0], (s("rori/command"), s("/register\talice")));
    assert_eq!(e.pending_requester(&s("alice")), Some(s("42")));
}

#[test]
fn register_from_registered_requester_is_dropped() {
    let mut db = Database::new();
    db.add_user(&s("7"), &s("bob")).unwrap();
    let mut e = Endpoint::init(account(), "peer", db).ok().unwrap();
    assert!(e.handle_user_message(chat("1", "/register carol", "7", "c")).is_none());
    assert_eq!(e.pending_requester(&s("carol")), None);
}

#[test]
fn register_without_username_is_dropped() {
    let mut e = endpoint();
    assert!(e.handle_user_message(chat("1", "/register", "7", "c")).is_none());
    assert!(e.handle_user_message(chat("2", "/register ", "7", "c")).is_none());
    assert!(e.handle_user_message(chat("3", "/register \t ", "7", "c")).is_none());
}

#[test]
fn unregister_from_unregistered_requester_is_dropped() {
    let mut e = endpoint();
    assert!(e.handle_user_message(chat("1", "/unregister", "7", "c")).is_none());
}

#[test]
fn unregister_from_registered_requester_is_forwarded() {
    let mut db = Database::new();
    db.add_user(&s("7"), &s("bob")).unwrap();
    let mut e = Endpoint::init(account(), "peer", db).ok().unwrap();
    let p = e.handle_user_message(chat("5", "/unregister", "7", "c")).unwrap();
    assert_eq!(p, pairs(&[("rori/command", "/unregister"), ("sa", "bob"), ("th", "5"), ("ch", "c")]));
    assert_eq!(e.database().username(&s("7")), "bob");
}

#[test]
fn other_commands_are_forwarded_as_commands() {
    let mut e = endpoint();
    let p = e.handle_user_message(chat("5", "/link alice", "7", "c")).unwrap();
    assert_eq!(p[0], (s("rori/command"), s("/link alice")));
    let p = e.handle_user_message(chat("6", "/registered x", "7", "c")).unwrap();
    assert_eq!(p[0], (s("text/plain"), s("/registered x")));
}

#[test]
fn empty_body_is_not_forwarded() {
    let mut e = endpoint();
    assert!(e.handle_user_message(DiscordMsg::new()).is_none());
}

#[test]
fn positive_confirmation_commits_once() {
    let mut e = endpoint();
    e.handle_user_message(chat("1", "/register alice", "42", "c")).unwrap();
    assert!(matches!(confirmation(&mut e, "alice", true), Outcome::Committed { .. }));
    assert!(matches!(confirmation(&mut e, "alice", true), Outcome::Nothing));
    assert_eq!(e.database().len(), 1);
}

#[test]
fn positive_confirmation_for_mapped_requester_is_refused() {
    let mut e = endpoint();
    e.handle_user_message(chat("1", "/register alice", "42", "c")).unwrap();
    e.handle_user_message(chat("2", "/register alicia", "42", "c")).unwrap();
    assert!(matches!(confirmation(&mut e, "alice", true), Outcome::Committed { .. }));
    match confirmation(&mut e, "alicia", true) {
        Outcome::CommitRefused { id, username, error } => {
            assert_eq!(id, "42");
            assert_eq!(username, "alicia");
            assert_eq!(error, StorageError::Conflict);
        }
        _ => panic!("expected a refusal"),
    }
    assert_eq!(e.pending_requester(&s("alicia")), None);
    assert_eq!(e.database().username(&s("42")), "alice");
}

#[test]
fn negative_confirmation_clears_pending_only() {
    let mut e = endpoint();
    e.handle_user_message(chat("1", "/register alice", "42", "c")).unwrap();
    match confirmation(&mut e, "alice", false) {
        Outcome::Rejected { username } => assert_eq!(username, "alice"),
        _ => panic!("expected a rejection"),
    }
    assert_eq!(e.pending_requester(&s("alice")), None);
    assert_eq!(e.database().len(), 0);
    assert_eq!(e.database().id(&s("alice")), "");
}

#[test]
fn confirmation_without_pending_is_dropped() {
    let mut e = endpoint();
    assert!(matches!(confirmation(&mut e, "ghost", true), Outcome::Nothing));
    assert_eq!(e.database().len(), 0);
    assert_eq!(e.pending_requester(&s("ghost")), None);
}

#[test]
fn negative_confirmation_without_pending_removes_record() {
    let mut db = Database::new();
    db.add_user(&s("7"), &s("bob")).unwrap();
    let mut e = Endpoint::init(account(), "peer", db).ok().unwrap();
    match confirmation(&mut e, "bob", false) {
        Outcome::Removed { username } => assert_eq!(username, "bob"),
        _ => panic!("expected a removal"),
    }
    assert_eq!(e.database().username(&s("7")), "");
}

#[test]
fn malformed_confirmation_is_dropped() {
    let mut e = endpoint();
    e.handle_user_message(chat("1", "/register alice", "42", "c")).unwrap();
    let out = e.handle_interaction(&s("acc"), interaction("rori/message", "not json", &[]));
    assert!(matches!(out, Outcome::Nothing));
    let out = e.handle_interaction(
        &s("acc"),
        interaction("rori/message", "{\"username\":\"alice\"}", &[]),
    );
    assert!(matches!(out, Outcome::Nothing));
    let out = e.handle_interaction(
        &s("acc"),
        interaction("rori/message", "{\"username\":\"alice\",\"registered\":\"true\"}", &[]),
    );
    assert!(matches!(out, Outcome::Nothing));
    assert_eq!(e.pending_requester(&s("alice")), Some(s("42")));
}

#[test]
fn text_interaction_is_delivered_to_its_channel() {
    let mut e = endpoint();
    let out = e.handle_interaction(&s("acc"), interaction("text/plain", "hi there", &[("ch", "55")]));
    match out {
        Outcome::Deliver(m) => {
            assert_eq!(m.body, "hi there");
            assert_eq!(m.channel, "55");
            assert_eq!(m.id, "");
            assert_eq!(m.author, "");
        }
        _ => panic!("expected a delivery"),
    }
}

#[test]
fn text_interaction_without_channel_goes_to_default() {
    let mut e = endpoint();
    match e.handle_interaction(&s("acc"), interaction("text/plain", "hi", &[("th", "3")])) {
        Outcome::Deliver(m) => assert_eq!(m.channel, ""),
        _ => panic!("expected a delivery"),
    }
}

#[test]
fn interaction_for_other_account_is_dropped() {
    let mut e = endpoint();
    let out = e.handle_interaction(&s("other"), interaction("text/plain", "hi", &[]));
    assert!(matches!(out, Outcome::Nothing));
}

#[test]
fn signals_other_than_messages_do_nothing() {
    let mut e = endpoint();
    assert!(matches!(e.handle_signal(Signal::AccountsChanged), Outcome::Nothing));
    assert!(matches!(
        e.handle_signal(Signal::IncomingTrustRequest { account_id: s("acc"), from: s("x") }),
        Outcome::Nothing
    ));
    assert!(matches!(
        e.handle_signal(Signal::RegistrationStateChanged { account_id: s("acc"), state: s("ok") }),
        Outcome::Nothing
    ));
    assert!(matches!(e.handle_signal(Signal::Other), Outcome::Nothing));
    let msg = Signal::IncomingAccountMessage {
        account_id: s("acc"),
        interaction: interaction("text/plain", "yo", &[]),
    };
    assert!(matches!(e.handle_signal(msg), Outcome::Deliver(_)));
}

#[test]
fn burst_of_two_chat_messages_forwards_only_the_second() {
    let mut e = endpoint();
    let mut inbound = Mailbox::new();
    assert_eq!(route_chat_message(&mut inbound, chat("1", "first", "42", "c")), None);
    assert_eq!(route_chat_message(&mut inbound, chat("2", "second", "42", "c")), None);
    let (out, forward) = e.step(Signal::Other, &mut inbound);
    assert!(matches!(out, Outcome::Nothing));
    assert_eq!(
        forward.unwrap(),
        pairs(&[("text/plain", "second"), ("sa", ""), ("th", "2"), ("ch", "c")])
    );
    assert!(!inbound.has_message());
    let (_, forward) = e.step(Signal::Other, &mut inbound);
    assert!(forward.is_none());
}

#[test]
fn help_is_answered_locally() {
    let mut inbound = Mailbox::new();
    let reply = route_chat_message(&mut inbound, chat("1", "/help", "42", "c"));
    assert_eq!(reply, Some(s(USAGE)));
    assert!(reply.unwrap().contains("/register <username>"));
    assert!(!inbound.has_message());
    let mut e = endpoint();
    let (_, forward) = e.step(Signal::Other, &mut inbound);
    assert!(forward.is_none());
}

#[test]
fn mailbox_take_empties_slot() {
    let mut m = Mailbox::new();
    m.put(chat("1", "x", "2", "3"));
    assert!(m.has_message());
    let t = m.take();
    assert_eq!(t.body, "x");
    assert_eq!(t.id, "1");
    assert!(!m.has_message());
}

#[test]
fn bridgify_payload() {
    let e = endpoint();
    assert_eq!(e.bridgify(), pairs(&[("rori/command", "/bridgify")]));
}

#[test]
fn command_classification() {
    let e = endpoint();
    for c in ["/register a", "/unregister", "/add_device d", "/rm_device d 1", "/link x"] {
        assert!(e.is_a_command(&s(c)), "{}", c);
    }
    for c in ["/register\talice", " /register a", "\n/link x"] {
        assert!(e.is_a_command(&s(c)), "{:?}", c);
    }
    for c in ["hello", "/help", "/registerx", "", "   "] {
        assert!(!e.is_a_command(&s(c)), "{}", c);
    }
}

#[test]
fn init_needs_a_ring_id() {
    let mut a = account();
    a.ring_id = String::new();
    assert_eq!(Endpoint::init(a, "peer", Database::new()).err(), Some(InitError::NoRingId));
    let e = endpoint();
    assert_eq!(e.rori_ring_id(), "peer");
    assert_eq!(e.account().id, "acc");
}

#[test]
fn interaction_from_payloads_splits_content_and_metadata() {
    let p = pairs(&[("ch", "5"), ("text/plain", "hello"), ("th", "9")]);
    let i = Interaction::from_payloads(s("author"), &p, 17);
    assert_eq!(i.datatype, "text/plain");
    assert_eq!(i.body, "hello");
    assert_eq!(i.time, 17);
    assert_eq!(i.metadatas, pairs(&[("ch", "5"), ("th", "9")]));
    assert_eq!(i.metadata(&s("ch")), Some(s("5")));
    assert_eq!(i.metadata(&s("sa")), None);
    let j = Interaction::from_payloads(s("a"), &pairs(&[("x", "y")]), 0);
    assert_eq!(j.datatype, "");
    assert_eq!(j.body, "");
}

#[test]
fn forget_username_rolls_back_a_commit() {
    let mut e = endpoint();
    e.handle_user_message(chat("1", "/register alice", "42", "c")).unwrap();
    assert!(matches!(confirmation(&mut e, "alice", true), Outcome::Committed { .. }));
    e.forget_username(&s("alice"));
    assert_eq!(e.database().username(&s("42")), "");
    assert_eq!(e.database().len(), 0);
    assert!(e.handle_user_message(chat("2", "/register alice", "42", "c")).is_some());
}
