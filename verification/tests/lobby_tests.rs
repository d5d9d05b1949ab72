use webtiles_rs::config::{GameConfig, GameFields, ServerConfig};
use webtiles_rs::lobby::{
    chat_decision, watch_decision, ChatDecision, WatchDecision, chat_content, connection_limit_reached, game_links_html, html_escape, play_decision,
    truncate_chat, PlayDecision,
};

#[test]
fn html_escape_replaces_the_four_specials() {
    assert_eq!(html_escape(r#"<a href="x">&</a>"#), "&lt;a href=&quot;x&quot;&gt;&amp;&lt;/a&gt;");
    assert_eq!(html_escape("plain 'text'"), "plain 'text'");
    assert_eq!(html_escape("&amp;"), "&amp;amp;");
}

#[test]
fn long_chat_text_is_cut_with_marker() {
    assert_eq!(truncate_chat("hello world", 8), "hel[...]");
    assert_eq!(truncate_chat("hello", 8), "hello");
    assert_eq!(truncate_chat("12345678", 8), "123[...]");
    assert_eq!(truncate_chat("anything", 0), "anything");
    assert_eq!(truncate_chat("abcdef", 3), "[...]");
}

#[test]
fn chat_content_escapes_sender_and_text() {
    assert_eq!(
        chat_content("<bob>", "a & b", 0),
        "<span class='chat_sender'>&lt;bob&gt;</span>: <span class='chat_msg'>a &amp; b</span>"
    );
}

fn two_games() -> ServerConfig {
    let mut cfg = ServerConfig::default();
    cfg.games.insert(
        "trunk".to_string(),
        GameConfig {
            id: "trunk".to_string(),
            fields: GameFields {
                name: Some("Play %v <new>".to_string()),
                version: Some("trunk".to_string()),
                ..Default::default()
            },
            ..Default::default()
        },
    );
    cfg.games.insert(
        "spr".to_string(),
        GameConfig {
            id: "spr".to_string(),
            fields: GameFields {
                name: Some("Sprint %V".to_string()),
                ..Default::default()
            },
            ..Default::default()
        },
    );
    cfg
}

#[test]
fn game_links_list_every_game_in_key_order() {
    let cfg = two_games();
    assert_eq!(
        game_links_html(&cfg, "alice"),
        "Play now:<br><a href=\"#play-spr\">Sprint %V</a><br><a href=\"#play-trunk\">Play trunk &lt;new&gt;</a>"
    );
}

#[test]
fn play_decisions_follow_lobby_rules() {
    let cfg = two_games();
    assert!(matches!(play_decision(&cfg, Some("alice"), false, "nope"), PlayDecision::GoLobby));
    match play_decision(&cfg, None, true, "trunk") {
        PlayDecision::LoginRequired { game, leave_game } => {
            assert_eq!(game, "Play %v <new>");
            assert!(leave_game);
        }
        _ => panic!("expected a login request"),
    }
    assert!(matches!(play_decision(&cfg, Some("alice"), true, "trunk"), PlayDecision::Ignore));
    match play_decision(&cfg, Some("alice"), false, "trunk") {
        PlayDecision::Start { username } => assert_eq!(username, "alice"),
        _ => panic!("expected a start"),
    }
    let mut open = two_games();
    open.dgl_mode = false;
    match play_decision(&open, None, false, "anything") {
        PlayDecision::Start { username } => assert_eq!(username, "game"),
        _ => panic!("expected a start"),
    }
}

#[test]
fn connection_limit_counts_running_games() {
    assert!(connection_limit_reached(2, 2));
    assert!(!connection_limit_reached(2, 1));
    assert!(!connection_limit_reached(0, 1000));
}

#[test]
fn watch_and_chat_decisions() {
    assert!(matches!(watch_decision(false, false, false), WatchDecision::GoLobby));
    match watch_decision(true, true, false) {
        WatchDecision::Restricted { reason } => assert_eq!(reason, "Spectating this player is restricted."),
        _ => panic!("expected a restriction"),
    }
    assert!(matches!(watch_decision(true, true, true), WatchDecision::Watch));
    assert!(matches!(chat_decision(false, Some("a"), "hi", 0), ChatDecision::Ignore));
    match chat_decision(true, None, "hi", 0) {
        ChatDecision::NeedLogin { reply } => assert_eq!(reply, "You need to log in to send messages!"),
        _ => panic!("expected a login reply"),
    }
    match chat_decision(true, Some("a"), "hello world", 8) {
        ChatDecision::Broadcast { content } => assert_eq!(
            content,
            "<span class='chat_sender'>a</span>: <span class='chat_msg'>hel[...]</span>"
        ),
        _ => panic!("expected a chat line"),
    }
}
