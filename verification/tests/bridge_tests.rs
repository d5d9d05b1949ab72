use webtiles_rs::bridge::{
    input_keystrokes, process_message_action, split_control, DatagramAssembler, ProcessAction, ProcessEvent,
    SocketMessage,
};
use webtiles_rs::protocol::{is_known_message_name, ServerMessage};
use webtiles_rs::session::{
    lobby_entry_of, spectator_count, ExitInfo, OutgoingMessage, WhereInfo,
};

#[test]
fn fragments_are_joined_until_a_newline() {
    let mut a = DatagramAssembler::new();
    assert_eq!(a.push(b"{\"msg\":"), None);
    assert_eq!(a.push(b"\"x\"}\n"), Some(b"{\"msg\":\"x\"}".to_vec()));
    assert_eq!(a.push(b"one\n"), Some(b"one".to_vec()));
    assert_eq!(a.push(b"\n"), Some(Vec::new()));
}

#[test]
fn star_marks_control_messages() {
    match split_control(b"*{\"msg\":\"flush_messages\"}".to_vec()) {
        SocketMessage::Control(c) => assert_eq!(c, b"{\"msg\":\"flush_messages\"}".to_vec()),
        SocketMessage::Forward(_) => panic!("expected a control message"),
    }
    match split_control(b"{\"msg\":\"map\",\"cells\":[]}".to_vec()) {
        SocketMessage::Forward(f) => assert_eq!(f, b"{\"msg\":\"map\",\"cells\":[]}".to_vec()),
        SocketMessage::Control(_) => panic!("expected a forwarded message"),
    }
}

#[test]
fn player_dump_is_announced_with_its_url() {
    let exit = ExitInfo::default();
    let action = process_message_action(
        ProcessEvent::Dump { kind: "command".to_string(), filename: "/m/alice/morgue-x.txt".to_string() },
        false,
        &exit,
        Some("http://x/morgue/alice/"),
    );
    match action {
        ProcessAction::Broadcast(OutgoingMessage::Typed(ServerMessage::Dump { url })) => {
            assert_eq!(url, "http://x/morgue/alice/morgue-x")
        }
        _ => panic!("expected a dump broadcast"),
    }
}

#[test]
fn other_dumps_become_the_exit_dump() {
    let exit = ExitInfo { reason: Some("quit".to_string()), message: None, dump_url: None };
    match process_message_action(
        ProcessEvent::Dump { kind: "crash".to_string(), filename: "c.txt".to_string() },
        false,
        &exit,
        Some("u/"),
    ) {
        ProcessAction::SetExitInfo(e) => {
            assert_eq!(e.reason.as_deref(), Some("quit"));
            assert_eq!(e.dump_url.as_deref(), Some("u/c"));
        }
        _ => panic!("expected new exit info"),
    }
}

#[test]
fn configured_client_wins_over_process_client_path() {
    let exit = ExitInfo::default();
    let ev = || ProcessEvent::ClientPath { path: "/x/y".to_string(), version: None };
    assert!(matches!(process_message_action(ev(), true, &exit, None), ProcessAction::Nothing));
    assert!(matches!(
        process_message_action(ev(), false, &exit, None),
        ProcessAction::RegisterClient { .. }
    ));
}

#[test]
fn exit_reason_keeps_dump_url() {
    let exit = ExitInfo { reason: None, message: None, dump_url: Some("d".to_string()) };
    match process_message_action(
        ProcessEvent::ExitReason { kind: "dead".to_string(), message: Some("slain".to_string()) },
        false,
        &exit,
        None,
    ) {
        ProcessAction::SetExitInfo(e) => {
            assert_eq!(e.reason.as_deref(), Some("dead"));
            assert_eq!(e.message.as_deref(), Some("slain"));
            assert_eq!(e.dump_url.as_deref(), Some("d"));
        }
        _ => panic!("expected new exit info"),
    }
}

#[test]
fn known_message_names() {
    for name in ["login", "pong", "go_lobby", "go_admin", "set_login_cookie", "admin_pw_reset_clear"] {
        assert!(is_known_message_name(name));
    }
    assert!(!is_known_message_name("key"));
    assert!(!is_known_message_name("input"));
    assert!(!is_known_message_name(""));
}

#[test]
fn lobby_entry_reflects_where_info() {
    let w = WhereInfo {
        xl: Some("5".to_string()),
        char: Some("HuFi".to_string()),
        place: Some("D:3".to_string()),
        ..Default::default()
    };
    let entry = lobby_entry_of(1, &"alice".to_string(), 2, 7, &"dcss-web-trunk".to_string(), &w, &None);
    assert_eq!(entry.username, "alice");
    assert_eq!(entry.xl.as_deref(), Some("5"));
    assert_eq!(entry.place.as_deref(), Some("D:3"));
    assert_eq!(entry.spectator_count, 2);
    assert_eq!(entry.milestone, None);
}

#[test]
fn watcher_count_excludes_the_player_and_hidden_chatters() {
    assert_eq!(spectator_count(&vec![(true, false), (false, false), (false, true)]), 1);
    assert_eq!(spectator_count(&Vec::new()), 0);
}

#[test]
fn input_frames_carry_their_keystrokes() {
    assert_eq!(
        input_keystrokes(Some("input"), Some(vec![Some(104), Some(0xe9)]), Some("!")),
        Some("hé!".as_bytes().to_vec())
    );
    assert_eq!(input_keystrokes(Some("input"), None, Some("ab")), Some(b"ab".to_vec()));
    assert_eq!(input_keystrokes(Some("input"), None, None), Some(Vec::new()));
    assert_eq!(input_keystrokes(Some("key"), None, Some("ab")), None);
    assert_eq!(input_keystrokes(None, None, Some("ab")), None);
    assert_eq!(input_keystrokes(Some("input"), Some(vec![Some(65), None]), None), None);
    assert_eq!(input_keystrokes(Some("input"), Some(vec![Some(0xd800)]), None), None);
    // codes are cut to 32 bits before they name a character
    assert_eq!(input_keystrokes(Some("input"), Some(vec![Some((1u64 << 32) + 65)]), None), Some(b"A".to_vec()));
}
