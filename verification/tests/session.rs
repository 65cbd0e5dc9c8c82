use chat_relay::codec::{encode_chat_message, ChatMessage, DecodeError, ProtocolFrame};
use chat_relay::connection::{ConnectionHandle, SendError};
use chat_relay::session::{avatar_url, is_image, Session, UserProfile};

fn roster_update(names: &[&str]) -> ProtocolFrame {
    ProtocolFrame::RosterUpdate { names: names.iter().map(|n| n.to_string()).collect() }
}

fn chat_frame(from: &str, body: &str) -> ProtocolFrame {
    let message = ChatMessage { from: from.to_string(), body: body.to_string() };
    ProtocolFrame::ChatMessage { payload: encode_chat_message(&message) }
}

fn names_of(session: &Session) -> Vec<String> {
    session.roster().iter().map(|p| p.name().to_string()).collect()
}

#[test]
fn avatar_url_is_built_from_the_name() {
    assert_eq!(avatar_url("alice"), "https://avatars.dicebear.com/api/adventurer-neutral/alice.svg");
    assert_eq!(avatar_url(""), "https://avatars.dicebear.com/api/adventurer-neutral/.svg");
    assert_eq!(
        avatar_url("J\u{fc}rgen M/\u{1f600}"),
        "https://avatars.dicebear.com/api/adventurer-neutral/J\u{fc}rgen M/\u{1f600}.svg"
    );
}

#[test]
fn avatar_url_is_the_same_for_the_same_name() {
    for name in ["alice", "bob", "", "a b", "\u{e9}"] {
        assert_eq!(avatar_url(name), avatar_url(&name.to_string()));
        assert_eq!(UserProfile::new(name.to_string()).avatar_url(), avatar_url(name));
        assert_eq!(UserProfile::new(name.to_string()).name(), name);
    }
    assert_ne!(avatar_url("alice"), avatar_url("bob"));
}

#[test]
fn body_that_ends_in_gif_is_an_image() {
    assert!(is_image("cat.gif"));
    assert!(is_image(".gif"));
    assert!(is_image("https://example.org/a.b/c.gif"));
    assert!(!is_image("cat.GIF"));
    assert!(!is_image("cat.gif "));
    assert!(!is_image("cat.gifs"));
    assert!(!is_image("gif"));
    assert!(!is_image("catgif"));
    assert!(!is_image(""));
    assert!(!is_image("hello"));
}

#[test]
fn new_session_is_empty_and_unregistered() {
    let session = Session::new("alice".to_string());
    assert_eq!(session.username(), "alice");
    assert!(!session.is_registered());
    assert!(session.roster().is_empty());
    assert!(session.message_log().is_empty());
}

#[test]
fn registering_then_a_roster_update_lists_both_users() {
    let mut connection = ConnectionHandle::open(true, 8).unwrap();
    let mut session = Session::new("alice".to_string());
    assert_eq!(session.register(&mut connection), Ok(()));
    assert!(session.is_registered());
    assert_eq!(
        connection.next_outbound(),
        Some("{\"messageType\":\"register\",\"data\":\"alice\"}".to_string())
    );
    assert_eq!(connection.next_outbound(), None);

    assert_eq!(
        session.apply_text("{\"messageType\":\"users\",\"dataArray\":[\"alice\",\"bob\"]}"),
        Ok(true)
    );
    let roster = session.roster();
    assert_eq!(roster.len(), 2);
    assert_eq!(roster[0].name(), "alice");
    assert_eq!(roster[0].avatar_url(), avatar_url("alice"));
    assert_eq!(roster[1].name(), "bob");
    assert_eq!(roster[1].avatar_url(), avatar_url("bob"));
    assert_eq!(roster[0], UserProfile::new("alice".to_string()));
    assert_eq!(roster[1], UserProfile::new("bob".to_string()));
    assert_eq!(session.username(), "alice");
    assert!(session.message_log().is_empty());
}

#[test]
fn chat_message_of_a_listed_user_is_appended() {
    let mut session = Session::new("alice".to_string());
    assert_eq!(session.apply(&roster_update(&["alice"])), Ok(true));
    assert_eq!(
        session.apply_text(
            "{\"messageType\":\"message\",\"data\":\"{\\\"from\\\":\\\"alice\\\",\\\"message\\\":\\\"hello\\\"}\"}"
        ),
        Ok(true)
    );
    assert_eq!(
        session.message_log(),
        &vec![ChatMessage { from: "alice".to_string(), body: "hello".to_string() }]
    );
    assert_eq!(names_of(&session), vec!["alice".to_string()]);
}

#[test]
fn roster_is_replaced_not_merged() {
    let mut session = Session::new("alice".to_string());
    assert_eq!(session.apply(&roster_update(&["alice", "bob", "carol"])), Ok(true));
    assert_eq!(session.apply(&roster_update(&["dave"])), Ok(true));
    assert_eq!(names_of(&session), vec!["dave".to_string()]);
    assert_eq!(session.apply(&roster_update(&["bob", "bob"])), Ok(true));
    assert_eq!(names_of(&session), vec!["bob".to_string(), "bob".to_string()]);
    assert_eq!(session.apply(&roster_update(&[])), Ok(true));
    assert!(session.roster().is_empty());
}

#[test]
fn last_of_many_roster_updates_wins() {
    let mut session = Session::new("alice".to_string());
    let mut all: Vec<String> = Vec::new();
    for round in 0..20 {
        all.push(format!("user{}", round));
        let names: Vec<&str> = all.iter().map(|n| n.as_str()).rev().take(round % 4 + 1).collect();
        assert_eq!(session.apply(&roster_update(&names)), Ok(true));
        let expected: Vec<String> = names.iter().map(|n| n.to_string()).collect();
        assert_eq!(names_of(&session), expected);
        for profile in session.roster() {
            assert_eq!(profile.avatar_url(), avatar_url(profile.name()));
        }
    }
    assert!(session.message_log().is_empty());
}

#[test]
fn message_log_only_grows() {
    let mut session = Session::new("alice".to_string());
    assert_eq!(session.apply(&chat_frame("alice", "one")), Ok(true));
    assert_eq!(session.apply(&roster_update(&["bob"])), Ok(true));
    assert_eq!(session.apply(&chat_frame("bob", "two")), Ok(true));
    assert_eq!(session.apply(&chat_frame("alice", "one")), Ok(true));
    let bodies: Vec<&str> = session.message_log().iter().map(|m| m.body.as_str()).collect();
    assert_eq!(bodies, vec!["one", "two", "one"]);
    let senders: Vec<&str> = session.message_log().iter().map(|m| m.from.as_str()).collect();
    assert_eq!(senders, vec!["alice", "bob", "alice"]);
}

#[test]
fn frames_without_a_fold_rule_change_nothing() {
    let mut session = Session::new("alice".to_string());
    assert_eq!(session.apply(&roster_update(&["alice"])), Ok(true));
    assert_eq!(session.apply(&chat_frame("alice", "hi")), Ok(true));
    assert_eq!(session.apply(&ProtocolFrame::Register { username: "mallory".to_string() }), Ok(false));
    assert_eq!(session.apply(&ProtocolFrame::Unrecognized { tag: "ping".to_string() }), Ok(false));
    assert_eq!(session.apply_text("{\"messageType\":\"ping\",\"data\":7}"), Ok(false));
    assert_eq!(session.apply_text("{\"messageType\":\"register\",\"data\":\"bob\"}"), Ok(false));
    assert_eq!(session.username(), "alice");
    assert_eq!(names_of(&session), vec!["alice".to_string()]);
    assert_eq!(session.message_log().len(), 1);
}

#[test]
fn failing_frame_leaves_the_session_as_it_was() {
    let mut session = Session::new("alice".to_string());
    assert_eq!(session.apply(&roster_update(&["alice"])), Ok(true));
    assert_eq!(session.apply(&chat_frame("alice", "hi")), Ok(true));
    let cases = [
        ("not json", DecodeError::Malformed),
        ("{\"messageType\":\"message\",\"data\":\"not json\"}", DecodeError::Malformed),
        ("{\"messageType\":\"message\",\"data\":\"{\\\"from\\\":\\\"a\\\"}\"}", DecodeError::MissingField),
        ("{\"messageType\":\"message\",\"data\":\"{\\\"from\\\":1,\\\"message\\\":\\\"b\\\"}\"}", DecodeError::UnexpectedType),
        ("{\"messageType\":\"message\"}", DecodeError::MissingField),
        ("{\"messageType\":\"users\",\"dataArray\":[1]}", DecodeError::UnexpectedType),
        ("{\"messageType\":\"users\",\"dataArray\":[],\"dataArray\":[]}", DecodeError::DuplicateField),
    ];
    for (text, error) in cases {
        assert_eq!(session.apply_text(text), Err(error), "for {:?}", text);
        assert_eq!(names_of(&session), vec!["alice".to_string()]);
        assert_eq!(
            session.message_log(),
            &vec![ChatMessage { from: "alice".to_string(), body: "hi".to_string() }]
        );
    }
    let broken = ProtocolFrame::ChatMessage { payload: "{".to_string() };
    assert_eq!(session.apply(&broken), Err(DecodeError::Malformed));
    assert_eq!(session.message_log().len(), 1);
}

#[test]
fn registration_fails_where_the_connection_refuses() {
    let mut closed = ConnectionHandle::open(true, 8).unwrap();
    closed.close();
    let mut session = Session::new("alice".to_string());
    assert_eq!(session.register(&mut closed), Err(SendError::Closed));
    assert!(!session.is_registered());
    assert_eq!(closed.pending(), 0);

    let mut full = ConnectionHandle::open(true, 0).unwrap();
    assert_eq!(session.register(&mut full), Err(SendError::Full));
    assert!(!session.is_registered());
    assert_eq!(session.submit_chat_text(&mut full, "hi"), Err(SendError::Full));
    assert_eq!(full.pending(), 0);
}

#[test]
fn submitted_text_is_sent_with_an_empty_sender() {
    let mut connection = ConnectionHandle::open(true, 8).unwrap();
    let session = Session::new("alice".to_string());
    assert_eq!(session.submit_chat_text(&mut connection, "say \"hi\""), Ok(()));
    let frame = connection.next_outbound().unwrap();
    let outer: serde_json::Value = serde_json::from_str(&frame).unwrap();
    assert_eq!(outer.get("messageType").and_then(|v| v.as_str()), Some("message"));
    let payload = outer.get("data").and_then(|v| v.as_str()).unwrap();
    let inner: serde_json::Value = serde_json::from_str(payload).unwrap();
    assert_eq!(inner.get("from").and_then(|v| v.as_str()), Some(""));
    assert_eq!(inner.get("message").and_then(|v| v.as_str()), Some("say \"hi\""));
}

#[test]
fn profile_is_the_first_with_the_name() {
    let mut session = Session::new("alice".to_string());
    assert!(session.profile("alice").is_none());
    assert_eq!(session.apply(&roster_update(&["alice", "bob", "alice"])), Ok(true));
    assert_eq!(session.profile("alice"), Some(&session.roster()[0]));
    assert_eq!(session.profile("bob"), Some(&session.roster()[1]));
    assert_eq!(session.profile("bob").unwrap().avatar_url(), avatar_url("bob"));
    assert!(session.profile("carol").is_none());
    assert!(session.profile("Alice").is_none());
    assert!(session.profile("").is_none());
}
