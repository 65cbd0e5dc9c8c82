use chat_relay::bus::EventBus;
use chat_relay::chat::{Chat, ChatView, MessageView, Msg, RosterLookupError, UpdateError};
use chat_relay::codec::{ChatMessage, DecodeError};
use chat_relay::connection::{ConnectionHandle, SendError};
use chat_relay::login::{login, LoginForm, User};
use chat_relay::session::{avatar_url, UserProfile};

fn new_chat(bus: &mut EventBus<String>, capacity: usize) -> Chat {
    let wss = ConnectionHandle::open(true, capacity).unwrap();
    Chat::create("alice".to_string(), wss, bus.subscribe())
}

fn users_frame(names: &[&str]) -> Msg {
    let quoted: Vec<String> = names.iter().map(|n| format!("\"{}\"", n)).collect();
    Msg::HandleMsg(format!("{{\"messageType\":\"users\",\"dataArray\":[{}]}}", quoted.join(",")))
}

fn message_frame(from: &str, body: &str) -> Msg {
    Msg::HandleMsg(format!(
        "{{\"messageType\":\"message\",\"data\":\"{{\\\"from\\\":\\\"{}\\\",\\\"message\\\":\\\"{}\\\"}}\"}}",
        from, body
    ))
}

#[test]
fn created_chat_announces_its_user() {
    let mut bus: EventBus<String> = EventBus::new(8);
    let mut chat = new_chat(&mut bus, 8);
    assert!(chat.session().is_registered());
    assert_eq!(chat.session().username(), "alice");
    assert!(chat.session().roster().is_empty());
    assert!(chat.session().message_log().is_empty());
    assert_eq!(chat.chat_input(), None);
    assert!(bus.is_subscribed(chat.producer()));
    assert_eq!(
        chat.next_outbound(),
        Some("{\"messageType\":\"register\",\"data\":\"alice\"}".to_string())
    );
    assert_eq!(chat.next_outbound(), None);
    assert_eq!(chat.view(), Ok(ChatView { users: vec![], messages: vec![] }));
}

#[test]
fn chat_is_created_even_where_the_connection_refuses() {
    let mut bus: EventBus<String> = EventBus::new(8);
    let mut chat = new_chat(&mut bus, 0);
    assert!(!chat.session().is_registered());
    assert_eq!(chat.next_outbound(), None);
    assert_eq!(chat.update(users_frame(&["bob"])), Ok(true));
    assert_eq!(chat.session().roster().len(), 1);

    let mut closed = ConnectionHandle::open(true, 8).unwrap();
    closed.close();
    let other = Chat::create("bob".to_string(), closed, bus.subscribe());
    assert!(!other.session().is_registered());
    assert_eq!(other.session().username(), "bob");
}

#[test]
fn update_folds_inbound_frames() {
    let mut bus: EventBus<String> = EventBus::new(8);
    let mut chat = new_chat(&mut bus, 8);
    assert_eq!(chat.update(users_frame(&["alice", "bob"])), Ok(true));
    assert_eq!(chat.update(message_frame("bob", "hello")), Ok(true));
    assert_eq!(chat.update(message_frame("alice", "dog.gif")), Ok(true));
    assert_eq!(chat.update(Msg::HandleMsg("{\"messageType\":\"ping\"}".to_string())), Ok(false));
    assert_eq!(
        chat.update(Msg::HandleMsg("{\"messageType\":\"register\",\"data\":\"x\"}".to_string())),
        Ok(false)
    );
    assert_eq!(
        chat.view(),
        Ok(ChatView {
            users: vec![UserProfile::new("alice".to_string()), UserProfile::new("bob".to_string())],
            messages: vec![
                MessageView {
                    from: "bob".to_string(),
                    avatar_url: avatar_url("bob"),
                    body: "hello".to_string(),
                    is_image: false,
                },
                MessageView {
                    from: "alice".to_string(),
                    avatar_url: "https://avatars.dicebear.com/api/adventurer-neutral/alice.svg"
                        .to_string(),
                    body: "dog.gif".to_string(),
                    is_image: true,
                },
            ],
        })
    );
}

#[test]
fn update_drops_a_frame_that_does_not_decode() {
    let mut bus: EventBus<String> = EventBus::new(8);
    let mut chat = new_chat(&mut bus, 8);
    assert_eq!(chat.update(users_frame(&["alice"])), Ok(true));
    assert_eq!(chat.update(message_frame("alice", "hi")), Ok(true));
    let before = chat.view();
    assert_eq!(
        chat.update(Msg::HandleMsg("garbage".to_string())),
        Err(UpdateError::Decode(DecodeError::Malformed))
    );
    assert_eq!(
        chat.update(Msg::HandleMsg("{\"messageType\":\"message\",\"data\":\"{}\"}".to_string())),
        Err(UpdateError::Decode(DecodeError::MissingField))
    );
    assert_eq!(
        chat.update(Msg::HandleMsg("{\"messageType\":\"users\",\"dataArray\":7}".to_string())),
        Err(UpdateError::Decode(DecodeError::UnexpectedType))
    );
    assert_eq!(
        chat.update(Msg::HandleMsg("{\"messageType\":\"a\",\"messageType\":\"b\"}".to_string())),
        Err(UpdateError::Decode(DecodeError::DuplicateField))
    );
    assert_eq!(chat.view(), before);
    assert_eq!(chat.update(message_frame("alice", "still here")), Ok(true));
    assert_eq!(chat.session().message_log().len(), 2);
}

#[test]
fn submit_sends_what_the_input_holds_and_empties_it() {
    let mut bus: EventBus<String> = EventBus::new(8);
    let mut chat = new_chat(&mut bus, 8);
    assert!(chat.next_outbound().is_some());
    chat.set_chat_input(Some("cat.gif".to_string()));
    assert_eq!(chat.chat_input(), Some("cat.gif"));
    assert_eq!(chat.update(Msg::SubmitMessage), Ok(false));
    assert_eq!(chat.chat_input(), Some(""));
    assert_eq!(
        chat.next_outbound(),
        Some(
            "{\"messageType\":\"message\",\"data\":\"{\\\"from\\\":\\\"\\\",\\\"message\\\":\\\"cat.gif\\\"}\"}"
                .to_string()
        )
    );
    assert_eq!(chat.next_outbound(), None);
    assert!(chat.session().message_log().is_empty());
}

#[test]
fn submit_without_an_input_field_does_nothing() {
    let mut bus: EventBus<String> = EventBus::new(8);
    let mut chat = new_chat(&mut bus, 8);
    assert!(chat.next_outbound().is_some());
    assert_eq!(chat.update(Msg::SubmitMessage), Ok(false));
    assert_eq!(chat.chat_input(), None);
    assert_eq!(chat.next_outbound(), None);
}

#[test]
fn submit_that_the_connection_refuses_loses_the_text() {
    let mut bus: EventBus<String> = EventBus::new(8);
    let mut chat = new_chat(&mut bus, 1);
    chat.set_chat_input(Some("hello".to_string()));
    assert_eq!(chat.update(Msg::SubmitMessage), Err(UpdateError::Send(SendError::Full)));
    assert_eq!(chat.chat_input(), Some(""));
    assert_eq!(
        chat.next_outbound(),
        Some("{\"messageType\":\"register\",\"data\":\"alice\"}".to_string())
    );
    assert_eq!(chat.next_outbound(), None);
}

#[test]
fn sender_missing_from_the_roster_fails_the_view_every_time() {
    let mut bus: EventBus<String> = EventBus::new(8);
    let mut chat = new_chat(&mut bus, 8);
    assert_eq!(chat.update(users_frame(&["alice"])), Ok(true));
    assert_eq!(chat.update(message_frame("alice", "hi")), Ok(true));
    assert!(chat.view().is_ok());
    assert_eq!(chat.update(message_frame("mallory", "boo")), Ok(true));
    assert_eq!(chat.update(message_frame("trent", "hm")), Ok(true));
    let missing = Err(RosterLookupError { sender: "mallory".to_string() });
    assert_eq!(chat.view(), missing);
    assert_eq!(chat.view(), missing);
    assert_eq!(
        chat.session().message_log(),
        &vec![
            ChatMessage { from: "alice".to_string(), body: "hi".to_string() },
            ChatMessage { from: "mallory".to_string(), body: "boo".to_string() },
            ChatMessage { from: "trent".to_string(), body: "hm".to_string() },
        ]
    );
    assert_eq!(chat.update(users_frame(&["alice", "mallory"])), Ok(true));
    assert_eq!(chat.view(), Err(RosterLookupError { sender: "trent".to_string() }));
    assert_eq!(chat.update(users_frame(&["trent", "mallory", "alice"])), Ok(true));
    assert_eq!(chat.view().map(|v| v.messages.len()), Ok(3));
    assert_eq!(chat.update(users_frame(&[])), Ok(true));
    assert_eq!(chat.view(), Err(RosterLookupError { sender: "alice".to_string() }));
}

#[test]
fn whole_relay_from_the_wire_to_the_screen() {
    let mut bus: EventBus<String> = EventBus::new(8);
    let transport = ConnectionHandle::open(true, 8).unwrap();
    let mut chat = new_chat(&mut bus, 8);
    for text in [
        "{\"messageType\":\"users\",\"dataArray\":[\"alice\",\"bob\"]}",
        "{\"messageType\":\"message\",\"data\":\"{\\\"from\\\":\\\"bob\\\",\\\"message\\\":\\\"hi alice\\\"}\"}",
    ] {
        assert_eq!(transport.receive(text.to_string(), &mut bus), Ok(()));
    }
    let mut drawn = 0;
    while let Some(text) = bus.take(chat.producer()) {
        if chat.update(Msg::HandleMsg((*text).clone())) == Ok(true) {
            drawn += 1;
        }
    }
    assert_eq!(drawn, 2);
    let view = chat.view().unwrap();
    assert_eq!(view.users.len(), 2);
    assert_eq!(view.messages.len(), 1);
    assert_eq!(view.messages[0].from, "bob");
    assert_eq!(view.messages[0].body, "hi alice");
    assert_eq!(view.messages[0].avatar_url, avatar_url("bob"));
    assert!(!view.messages[0].is_image);
}

#[test]
fn destroyed_chat_gives_its_subscription_back() {
    let mut bus: EventBus<String> = EventBus::new(8);
    let watcher = bus.subscribe();
    let chat = new_chat(&mut bus, 8);
    assert_eq!(bus.publish("a".to_string()), Ok(()));
    assert_eq!(bus.pending(chat.producer()), 1);
    chat.destroy(&mut bus);
    assert_eq!(bus.publish("b".to_string()), Ok(()));
    assert_eq!(bus.pending(&watcher), 2);
    let next = bus.subscribe();
    assert_eq!(bus.pending(&next), 0);
}

#[test]
fn login_button_is_disabled_while_the_name_is_empty() {
    let mut form = LoginForm::new();
    let view = login(&form);
    assert_eq!(view.username, "");
    assert!(view.disabled);
    form.input("a".to_string());
    let view = login(&form);
    assert_eq!(view.username, "a");
    assert!(!view.disabled);
    form.input("alice".to_string());
    assert!(!login(&form).disabled);
    form.input(String::new());
    assert!(login(&form).disabled);
    form.input(" ".to_string());
    assert!(!login(&form).disabled);
}

#[test]
fn login_takes_the_name_over_when_the_button_is_pressed() {
    let mut user = User { username: String::new() };
    let mut form = LoginForm::new();
    assert!(!form.submit(&mut user));
    assert_eq!(user.username, "");
    form.input("alice".to_string());
    assert_eq!(user.username, "");
    assert!(form.submit(&mut user));
    assert_eq!(user.username, "alice");
    form.input(String::new());
    assert!(!form.submit(&mut user));
    assert_eq!(user.username, "alice");
    form.input("bob".to_string());
    assert!(form.submit(&mut user));
    assert_eq!(user, User { username: "bob".to_string() });
}
