//! What a browser connection's message loop does with each event: a frame
//! from the browser, the browser going away, a message from the watched
//! game, or the idle-ping timer; and what closing the connection does to
//! the game it was attached to.

use vstd::prelude::*;

use crate::protocol::ServerMessage;
use crate::session::OutgoingMessage;

verus! {

/// One event of a connection's message loop.
pub enum ConnectionEvent {
    /// A text frame from the browser.
    ClientText,
    /// The browser closed the socket, the socket ended, or it failed.
    ClientClosed,
    /// Any other frame from the browser (ping, pong, binary).
    ClientOther,
    /// A message from the watched game; `ends_game` when it is the
    /// `game_ended` message.
    GameMessage { ends_game: bool },
    /// The idle-ping timer fired.
    PingDue,
}

/// What the loop does about an event.
pub enum ConnectionAction {
    /// Leave the loop.
    Close,
    /// Nothing.
    Ignore,
    /// Handle the frame, then send what it queued.
    HandleFrame,
    /// Queue the game's message; when the game ended, also go back to the
    /// lobby; then send.
    QueueGameMessage { go_lobby: bool },
    /// Queue a ping, then send.
    SendPing,
}

/// The loop's decision for one event. A flush that fails afterwards
/// closes the connection as well (see [`after_flush`]).
pub fn connection_step(event: ConnectionEvent) -> (r: ConnectionAction)
    ensures
        match event {
            ConnectionEvent::ClientText => r is HandleFrame,
            ConnectionEvent::ClientClosed => r is Close,
            ConnectionEvent::ClientOther => r is Ignore,
            ConnectionEvent::GameMessage { ends_game } => r matches ConnectionAction::QueueGameMessage {
                go_lobby,
            } && go_lobby == ends_game,
            ConnectionEvent::PingDue => r is SendPing,
        },
{
    match event {
        ConnectionEvent::ClientText => ConnectionAction::HandleFrame,
        ConnectionEvent::ClientClosed => ConnectionAction::Close,
        ConnectionEvent::ClientOther => ConnectionAction::Ignore,
        ConnectionEvent::GameMessage { ends_game } => ConnectionAction::QueueGameMessage {
            go_lobby: ends_game,
        },
        ConnectionEvent::PingDue => ConnectionAction::SendPing,
    }
}

/// Whether the loop goes on after sending: only when the send worked.
pub fn after_flush(sent: bool) -> (keep_going: bool)
    ensures
        keep_going == sent,
{
    sent
}

/// Whether a message from the game is the one that ends it.
pub fn ends_game(message: &OutgoingMessage) -> (r: bool)
    ensures
        r == (message matches OutgoingMessage::Typed(ServerMessage::GameEnded { .. })),
{
    match message {
        OutgoingMessage::Typed(ServerMessage::GameEnded { .. }) => true,
        _ => false,
    }
}

/// What closing a connection does to the game it was attached to, as
/// (stop the game, leave its watchers): a player's lost connection stops
/// the game; any attached connection leaves the watchers.
pub fn close_actions(watching: bool, is_player: bool) -> (r: (bool, bool))
    ensures
        r.0 == (watching && is_player),
        r.1 == watching,
{
    (watching && is_player, watching)
}

} // verus!
