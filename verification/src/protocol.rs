//! The wire protocol's message types, and the split of incoming frames
//! into the server's own messages and those forwarded to a game.

use vstd::prelude::*;

use crate::text::{chars_eq, chars_of};

verus! {

/// A message from the server to a browser (`{"msg": "<snake_case name>",
/// ...fields}` on the wire; absent optional fields are left out).
#[derive(Debug, Clone, PartialEq)]
pub enum ServerMessage {
    Ping,
    Close {
        reason: String,
    },
    LoginSuccess {
        username: String,
        admin: bool,
    },
    LoginFail {
        reason: Option<String>,
    },
    LoginCookie {
        cookie: String,
        expires: i64,
    },
    SetAccountHold,
    Logout {
        reason: String,
    },
    RegisterFail {
        reason: String,
    },
    LoginRequired {
        game: String,
    },
    LobbyClear,
    LobbyEntry {
        entry: LobbyEntry,
    },
    LobbyComplete,
    LobbyRemove {
        id: u64,
        reason: Option<String>,
        message: Option<String>,
        dump: Option<String>,
    },
    Html {
        id: String,
        content: String,
    },
    SetGameLinks {
        content: String,
    },
    GameStarted,
    GameEnded {
        reason: Option<String>,
        message: Option<String>,
        dump: Option<String>,
    },
    GameClient {
        version: String,
        content: String,
    },
    Dump {
        url: String,
    },
    GoLobby,
    GoAdmin,
    WatchingStarted {
        username: String,
    },
    UpdateSpectators {
        count: u32,
        names: String,
    },
    Chat {
        content: String,
        meta: Option<bool>,
    },
    ServerAnnouncement {
        text: String,
    },
    StaleProcesses {
        timeout: u64,
        game: String,
    },
    ForceTerminateQuery,
    HideDialog,
    RcfileContents {
        game_id: String,
        contents: String,
    },
    AdminLog {
        text: String,
    },
    AdminPwResetDone {
        email_body: Option<String>,
        username: Option<String>,
        email: Option<String>,
        error: Option<String>,
    },
    AuthError {
        reason: String,
    },
    StartChangeEmail {
        email: Option<String>,
    },
    ChangeEmailDone {
        email: Option<String>,
    },
    ChangeEmailFail {
        reason: String,
    },
    StartChangePassword,
    ChangePasswordDone,
    ChangePasswordFail {
        reason: String,
    },
    ForgotPasswordDone,
    ForgotPasswordFail {
        reason: String,
    },
    ResetPasswordFail {
        reason: String,
    },
    ReloadUrl,
    ToggleChat,
    SuperHideChat,
}

/// Fields of a lobby entry.
#[derive(Debug, Clone, PartialEq, Default)]
pub struct LobbyEntry {
    pub id: u64,
    pub username: String,
    pub spectator_count: u32,
    pub idle_time: u64,
    pub game_id: String,
    pub xl: Option<String>,
    pub char: Option<String>,
    pub place: Option<String>,
    pub turn: Option<String>,
    pub dur: Option<String>,
    pub god: Option<String>,
    pub title: Option<String>,
    pub milestone: Option<String>,
}

/// A message the server itself handles.
#[derive(Debug, Clone, PartialEq)]
pub enum KnownClientMessage {
    Login {
        username: String,
        password: String,
    },
    TokenLogin {
        cookie: String,
    },
    SetLoginCookie,
    ForgetLoginCookie {
        cookie: String,
    },
    Play {
        game_id: String,
    },
    Pong,
    Watch {
        username: String,
    },
    ChatMsg {
        text: String,
    },
    Register {
        username: String,
        password: String,
        email: String,
    },
    StartChangeEmail,
    ChangeEmail {
        email: String,
    },
    StartChangePassword,
    ChangePassword {
        cur_password: String,
        new_password: String,
    },
    ForgotPassword {
        email: String,
    },
    ResetPassword {
        token: String,
        password: String,
    },
    GoLobby,
    GoAdmin,
    GetRc {
        game_id: String,
    },
    SetRc {
        game_id: String,
        contents: String,
    },
    AdminAnnounce {
        text: String,
    },
    AdminPwReset {
        username: String,
    },
    AdminPwResetClear {
        username: String,
    },
}

/// A decoded client frame: one of the server's own messages, or an opaque
/// message for the attached game, kept as it came.
#[derive(Debug, Clone, PartialEq)]
pub enum ClientMessage {
    Known(KnownClientMessage),
    PassThrough { msg: String, raw: String },
}

/// The `msg` names of [`KnownClientMessage`].
pub open spec fn known_message_names() -> Seq<Seq<char>> {
    seq![
        "login"@,
        "token_login"@,
        "set_login_cookie"@,
        "forget_login_cookie"@,
        "play"@,
        "pong"@,
        "watch"@,
        "chat_msg"@,
        "register"@,
        "start_change_email"@,
        "change_email"@,
        "start_change_password"@,
        "change_password"@,
        "forgot_password"@,
        "reset_password"@,
        "go_lobby"@,
        "go_admin"@,
        "get_rc"@,
        "set_rc"@,
        "admin_announce"@,
        "admin_pw_reset"@,
        "admin_pw_reset_clear"@,
    ]
}

/// Whether `name` is the `msg` of one of the server's own messages.
pub fn is_known_message_name(name: &str) -> (r: bool)
    ensures
        r == known_message_names().contains(name@),
{
    let names: Vec<&str> = vec![
        "login",
        "token_login",
        "set_login_cookie",
        "forget_login_cookie",
        "play",
        "pong",
        "watch",
        "chat_msg",
        "register",
        "start_change_email",
        "change_email",
        "start_change_password",
        "change_password",
        "forgot_password",
        "reset_password",
        "go_lobby",
        "go_admin",
        "get_rc",
        "set_rc",
        "admin_announce",
        "admin_pw_reset",
        "admin_pw_reset_clear",
    ];
    let ghost spec_names = known_message_names();
    assert(names@.len() == spec_names.len());
    assert(forall|k: int| 0 <= k < names@.len() ==> #[trigger] names@[k]@ == spec_names[k]);
    let n = chars_of(name);
    let mut i: usize = 0;
    while i < names.len()
        invariant
            names@.len() == spec_names.len(),
            forall|k: int| 0 <= k < names@.len() ==> #[trigger] names@[k]@ == spec_names[k],
            spec_names == known_message_names(),
            n@ == name@,
            i <= names@.len(),
            forall|k: int| 0 <= k < i ==> spec_names[k] != name@,
        decreases names.len() - i,
    {
        let candidate = chars_of(names[i]);
        if chars_eq(&candidate, &n) {
            assert(spec_names[i as int] == name@);
            return true;
        }
        i = i + 1;
    }
    false
}

} // verus!
