use webtiles_rs::connection::{after_flush, close_actions, connection_step, ends_game, ConnectionAction, ConnectionEvent};
use webtiles_rs::protocol::ServerMessage;
use webtiles_rs::session::OutgoingMessage;

#[test]
fn loop_decisions_follow_each_event() {
    assert!(matches!(connection_step(ConnectionEvent::ClientText), ConnectionAction::HandleFrame));
    assert!(matches!(connection_step(ConnectionEvent::ClientClosed), ConnectionAction::Close));
    assert!(matches!(connection_step(ConnectionEvent::ClientOther), ConnectionAction::Ignore));
    assert!(matches!(connection_step(ConnectionEvent::PingDue), ConnectionAction::SendPing));
    assert!(matches!(
        connection_step(ConnectionEvent::GameMessage { ends_game: true }),
        ConnectionAction::QueueGameMessage { go_lobby: true }
    ));
    assert!(matches!(
        connection_step(ConnectionEvent::GameMessage { ends_game: false }),
        ConnectionAction::QueueGameMessage { go_lobby: false }
    ));
    assert!(!after_flush(false));
    assert!(after_flush(true));
}

#[test]
fn only_game_ended_ends_the_game() {
    assert!(!ends_game(&OutgoingMessage::Typed(ServerMessage::Ping)));
    assert!(!ends_game(&OutgoingMessage::Raw("{\"msg\":\"game_ended\"}".to_string())));
}

#[test]
fn closing_a_players_connection_stops_the_game() {
    assert_eq!(close_actions(true, true), (true, true));
    assert_eq!(close_actions(true, false), (false, true));
    assert_eq!(close_actions(false, false), (false, false));
}
