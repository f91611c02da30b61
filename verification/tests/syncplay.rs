use dim::events::Seconds;
use dim::sync_engine::engine::SyncEngine;
use dim::sync_engine::room::Clock;
use dim::syncplay_proto::{
    participant_file, ready_value, ChatValue, ClientChat, ClientHello, ClientMessage, ClientObject,
    ClientPlaystate, ClientState, FileFields, Flag, IgnoringOnTheFly, Part, RoomSpec,
};
use dim::syncplay_server::{
    handshake, is_idle, open, server_password_ok, HandshakeStep, ServerLine,
};

fn at(nanos: u64) -> Clock {
    Clock { monotonic_nanos: nanos, unix_ms: 0 }
}

fn empty() -> ClientObject {
    ClientObject {
        hello: Part::Absent,
        state: Part::Absent,
        chat: None,
        set: None,
        list: false,
    }
}

fn hello(name: &str, room: &str, password: Option<&str>) -> ClientHello {
    ClientHello {
        username: Some(name.to_string()),
        room: Some(RoomSpec::Simple(room.to_string())),
        version: Some("1.7.0".to_string()),
        password: password.map(|p| p.to_string()),
    }
}

#[test]
fn messages_are_told_apart() {
    assert!(ClientMessage::parse(empty()).is_none());
    let list = ClientObject { list: true, ..empty() };
    assert!(matches!(ClientMessage::parse(list), Some(ClientMessage::List)));
    let chat = ClientObject { chat: Some(ChatValue::Text("hi".to_string())), list: true, ..empty() };
    match ClientMessage::parse(chat) {
        Some(ClientMessage::Chat(ClientChat { message })) => {
            assert_eq!(message, Some("hi".to_string()))
        }
        other => panic!("{other:?}"),
    }
    let broken = ClientObject { hello: Part::Malformed, list: true, ..empty() };
    assert!(ClientMessage::parse(broken).is_none());
}

#[test]
fn rooms_are_named_in_two_ways() {
    assert_eq!(RoomSpec::Simple("a".to_string()).name(), "a");
    assert_eq!(RoomSpec::Named { name: "b".to_string() }.name(), "b");
}

#[test]
fn handshakes_refuse_tls_and_wait_for_hello() {
    assert!(matches!(handshake("{\"TLS\": {\"startTLS\": \"send\"}}", None), HandshakeStep::RefuseTls));
    assert!(matches!(handshake("{}", None), HandshakeStep::Ignore));
    assert!(matches!(
        handshake("{}", Some(ClientMessage::Hello(hello("a", "r", None)))),
        HandshakeStep::Hello(_)
    ));
}

#[test]
fn server_passwords_are_plain_or_digests() {
    assert!(server_password_ok("", None));
    assert!(!server_password_ok("pw", None));
    assert!(server_password_ok("pw", Some("8fe4c11451281c094a6578e6ddbf5eed")));
    assert!(!server_password_ok("pw", Some("8fe4c11451281c094a6578e6ddbf5eee")));
}

#[test]
fn connections_join_rooms_and_leave_them() {
    let mut engine = SyncEngine::new();
    let first = open(&mut engine, hello("vlc", "night", None), "", "welcome", at(0)).unwrap();
    let second = open(&mut engine, hello("vlc", "night", None), "", "", at(0)).unwrap();
    assert_eq!(engine.rooms.len(), 1);
    assert_eq!(engine.rooms[0].participants.len(), 2);
    assert_ne!(first.conn.username, second.conn.username);
    second.conn.close(&mut engine, at(0));
    assert_eq!(engine.rooms[0].participants.len(), 1);
    first.conn.close(&mut engine, at(0));
    assert!(engine.rooms.is_empty());
}

#[test]
fn wrong_server_passwords_are_refused() {
    let mut engine = SyncEngine::new();
    match open(&mut engine, hello("vlc", "night", Some("nope")), "pw", "", at(0)) {
        Err(ServerLine::Error(_)) => {}
        other => panic!("{other:?}"),
    }
    assert!(engine.rooms.is_empty());
}

fn report(position: f64, paused: bool, server: Option<u64>) -> ClientState {
    ClientState {
        playstate: Some(ClientPlaystate {
            position: Some(Seconds { bits: position.to_bits() }),
            paused: Some(paused),
            do_seek: Some(false),
            near: true,
        }),
        ping: None,
        ignoring_on_the_fly: server.map(|s| IgnoringOnTheFly { server: Some(s), client: None }),
    }
}

#[test]
fn stale_reports_are_not_heard_until_the_counter_is_echoed() {
    let mut engine = SyncEngine::new();
    let mut opened = open(&mut engine, hello("vlc", "night", None), "", "", at(0)).unwrap();
    // The initial state is still to be echoed, so a report that plays is not heard.
    let counter = opened.conn.proto.server_iotf;
    if opened.conn.proto.awaiting_server_echo {
        opened.conn.on_message(&mut engine, ClientMessage::State(report(5.0, false, None)), at(0));
        assert_eq!(engine.rooms[0].playback_state.as_str(), "paused");
    }
    opened.conn.on_message(
        &mut engine,
        ClientMessage::State(report(5.0, false, Some(counter))),
        at(0),
    );
    assert_eq!(engine.rooms[0].playback_state.as_str(), "playing");
}

#[test]
fn chat_and_lists_are_handled() {
    let mut engine = SyncEngine::new();
    let mut opened = open(&mut engine, hello("vlc", "night", None), "", "", at(0)).unwrap();
    let chat = ClientMessage::Chat(ClientChat { message: Some("hey".to_string()) });
    opened.conn.on_message(&mut engine, chat, at(0));
    assert_eq!(engine.rooms[0].chat_messages[0].text, "hey");
    let step = opened.conn.on_message(&mut engine, ClientMessage::List, at(0));
    assert_eq!(step.lines.len(), 1);
    assert!(step.goes_on);
}

#[test]
fn ready_flags_have_two_shapes() {
    let flag = |key: &str, value| Flag { key: key.to_string(), value };
    assert_eq!(ready_value(&vec![flag("isReady", true), flag("me", false)], "me"), Some(true));
    assert_eq!(ready_value(&vec![flag("me", false)], "me"), Some(false));
    assert_eq!(ready_value(&vec![flag("you", true)], "me"), None);
}

#[test]
fn missing_file_fields_are_empty() {
    let f = participant_file(FileFields { name: None, duration: None, size: Some(7), dim_file_id: None });
    assert_eq!((f.name.as_str(), f.duration.bits, f.size, f.dim_file_id), ("", 0, 7, 0));
}

#[test]
fn silent_connections_are_idle() {
    assert!(!is_idle(0, 89_999_999_999));
    assert!(is_idle(0, 90_000_000_000));
}
