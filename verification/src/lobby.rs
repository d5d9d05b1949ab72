//! What a connection decides for the lobby and chat: escaping user text
//! for HTML, the chat line, the "Play now" links, and what a `play`
//! request leads to.

use vstd::prelude::*;

use crate::config::{dgl_spec, resolved_fields, ServerConfig};
use crate::text::{chars_of, push_all, string_chars, string_of};

verus! {

/// The HTML escape of one character: `&`, `<`, `>` and `"` become
/// entities, anything else stays.
pub open spec fn escape_char(c: char) -> Seq<char> {
    if c == '&' {
        "&amp;"@
    } else if c == '<' {
        "&lt;"@
    } else if c == '>' {
        "&gt;"@
    } else if c == '"' {
        "&quot;"@
    } else {
        seq![c]
    }
}

/// `s` with each character escaped (see [`escape_char`]).
pub open spec fn escape_html(s: Seq<char>) -> Seq<char>
    decreases s.len(),
{
    if s.len() == 0 {
        Seq::empty()
    } else {
        escape_html(s.drop_last()) + escape_char(s.last())
    }
}

/// Escapes user text for HTML (see [`escape_html`]).
pub fn html_escape(s: &str) -> (r: String)
    ensures
        r@ == escape_html(s@),
{
    let v = chars_of(s);
    let amp = chars_of("&amp;");
    let lt = chars_of("&lt;");
    let gt = chars_of("&gt;");
    let quot = chars_of("&quot;");
    let mut out: Vec<char> = Vec::new();
    let mut i: usize = 0;
    while i < v.len()
        invariant
            i <= v@.len(),
            v@ == s@,
            amp@ == "&amp;"@,
            lt@ == "&lt;"@,
            gt@ == "&gt;"@,
            quot@ == "&quot;"@,
            out@ == escape_html(v@.take(i as int)),
        decreases v.len() - i,
    {
        let c = v[i];
        if c == '&' {
            push_all(&mut out, &amp);
        } else if c == '<' {
            push_all(&mut out, &lt);
        } else if c == '>' {
            push_all(&mut out, &gt);
        } else if c == '"' {
            push_all(&mut out, &quot);
        } else {
            out.push(c);
        }
        assert(v@.take(i + 1).drop_last() =~= v@.take(i as int));
        assert(out@ =~= escape_html(v@.take(i + 1)));
        i = i + 1;
    }
    assert(v@.take(v@.len() as int) =~= v@);
    string_of(&out)
}

/// Escaped text holds no `<`, `>` or `"`: user text cannot open or close a
/// tag or an attribute value.
pub proof fn lemma_escaped_has_no_markup(s: Seq<char>)
    ensures
        forall|i: int|
            0 <= i < escape_html(s).len() ==> #[trigger] escape_html(s)[i] != '<'
                && escape_html(s)[i] != '>' && escape_html(s)[i] != '"',
    decreases s.len(),
{
    reveal_strlit("&amp;");
    reveal_strlit("&lt;");
    reveal_strlit("&gt;");
    reveal_strlit("&quot;");
    if s.len() > 0 {
        lemma_escaped_has_no_markup(s.drop_last());
        let a = escape_html(s.drop_last());
        let b = escape_char(s.last());
        assert forall|i: int| 0 <= i < escape_html(s).len() implies #[trigger] escape_html(s)[i]
            != '<' && escape_html(s)[i] != '>' && escape_html(s)[i] != '"' by {
            if i < a.len() {
                assert(escape_html(s)[i] == a[i]);
            } else {
                assert(escape_html(s)[i] == b[i - a.len()]);
            }
        }
    }
}

/// The number of bytes that `c` takes in UTF-8.
pub open spec fn utf8_width(c: char) -> nat {
    if (c as u32) < 0x80 {
        1
    } else if (c as u32) < 0x800 {
        2
    } else if (c as u32) < 0x10000 {
        3
    } else {
        4
    }
}

/// The length of `s` in UTF-8 bytes (`str::len`).
pub open spec fn utf8_len(s: Seq<char>) -> nat
    decreases s.len(),
{
    if s.len() == 0 {
        0
    } else {
        utf8_len(s.drop_last()) + utf8_width(s.last())
    }
}

fn utf8_width_exec(c: char) -> (r: usize)
    ensures
        r == utf8_width(c),
{
    let u = c as u32;
    if u < 0x80 {
        1
    } else if u < 0x800 {
        2
    } else if u < 0x10000 {
        3
    } else {
        4
    }
}

/// `utf8_len` grows strictly with the prefix taken.
proof fn lemma_utf8_len_grows(s: Seq<char>, i: int, j: int)
    requires
        0 <= i < j <= s.len(),
    ensures
        utf8_len(s.take(i)) < utf8_len(s.take(j)),
    decreases j - i,
{
    assert(s.take(j).drop_last() =~= s.take(j - 1));
    if i < j - 1 {
        lemma_utf8_len_grows(s, i, j - 1);
    }
}

/// Whether a byte count falls on a character boundary of `s`: some prefix
/// of `s` takes exactly `b` bytes.
pub open spec fn is_char_boundary(s: Seq<char>, b: nat) -> bool {
    exists|k: int| 0 <= k <= s.len() && #[trigger] utf8_len(s.take(k)) == b
}

/// Where a chat text over the limit is cut: five bytes short of the limit.
pub open spec fn chat_cut(max_length: nat) -> nat {
    if max_length >= 5 {
        (max_length - 5) as nat
    } else {
        0
    }
}

/// Chat text as sent: with a positive limit and a text of at least that
/// many bytes, the text is cut to its prefix of [`chat_cut`] bytes and
/// `[...]` is added.
pub open spec fn chat_text(s: Seq<char>, max_length: nat) -> Seq<char> {
    if max_length > 0 && utf8_len(s) >= max_length {
        s.take(choose|k: int| 0 <= k <= s.len() && #[trigger] utf8_len(s.take(k)) == chat_cut(max_length))
            + "[...]"@
    } else {
        s
    }
}

/// Cuts a chat text to the limit (see [`chat_text`]). The cut must fall
/// between characters (cutting a `String` elsewhere panics), so `requires`
/// asks for that.
pub fn truncate_chat(text: &str, max_length: usize) -> (r: String)
    requires
        max_length > 0 && utf8_len(text@) >= max_length ==> is_char_boundary(
            text@,
            chat_cut(max_length as nat),
        ),
    ensures
        r@ == chat_text(text@, max_length as nat),
{
    let v = chars_of(text);
    let ghost s = v@;
    let mut total: u128 = 0;
    let mut i: usize = 0;
    while i < v.len()
        invariant
            s == v@,
            i <= s.len(),
            total == utf8_len(s.take(i as int)),
            total <= 4 * i,
        decreases v.len() - i,
    {
        assert(s.take(i + 1).drop_last() =~= s.take(i as int));
        total = total + utf8_width_exec(v[i]) as u128;
        i = i + 1;
    }
    assert(s.take(s.len() as int) =~= s);
    if !(max_length > 0 && total >= max_length as u128) {
        return string_of(&v);
    }
    let cut: u128 = if max_length >= 5 {
        (max_length - 5) as u128
    } else {
        0
    };
    let mut bytes: u128 = 0;
    let mut j: usize = 0;
    assert(s.take(0) =~= Seq::<char>::empty());
    while bytes < cut
        invariant
            s == v@,
            j <= s.len(),
            bytes == utf8_len(s.take(j as int)),
            bytes <= 4 * j,
            cut == chat_cut(max_length as nat),
            cut < total,
            total == utf8_len(s),
            j == 0 || utf8_len(s.take(j - 1)) < cut,
        decreases s.len() - j,
    {
        if j == v.len() {
            assert(s.take(j as int) =~= s);
            assert(false);
        }
        assert(s.take(j + 1).drop_last() =~= s.take(j as int));
        bytes = bytes + utf8_width_exec(v[j]) as u128;
        j = j + 1;
    }
    proof {
        let kk = choose|k: int| 0 <= k <= s.len() && #[trigger] utf8_len(s.take(k)) == chat_cut(
            max_length as nat,
        );
        if bytes != cut {
            if kk < j {
                if kk < j - 1 {
                    lemma_utf8_len_grows(s, kk, j - 1);
                }
            } else if kk > j {
                lemma_utf8_len_grows(s, j as int, kk);
            }
        }
        assert(bytes == cut);
        if kk < j {
            lemma_utf8_len_grows(s, kk, j as int);
        } else if kk > j {
            lemma_utf8_len_grows(s, j as int, kk);
        }
        assert(kk == j);
    }
    let mut out: Vec<char> = Vec::new();
    let mut m: usize = 0;
    while m < j
        invariant
            m <= j <= s.len(),
            s == v@,
            out@ == s.take(m as int),
        decreases j - m,
    {
        out.push(v[m]);
        assert(out@ =~= s.take(m + 1));
        m = m + 1;
    }
    let tail = chars_of("[...]");
    push_all(&mut out, &tail);
    string_of(&out)
}

/// The UTF-8 length of joined text is the sum of the parts' lengths.
proof fn lemma_utf8_len_concat(a: Seq<char>, b: Seq<char>)
    ensures
        utf8_len(a + b) == utf8_len(a) + utf8_len(b),
    decreases b.len(),
{
    if b.len() > 0 {
        lemma_utf8_len_concat(a, b.drop_last());
        assert((a + b).drop_last() =~= a + b.drop_last());
    } else {
        assert(a + b =~= a);
    }
}

/// A chat text over a limit of at least five bytes is cut to exactly the
/// limit, `[...]` included.
pub proof fn lemma_cut_chat_fits_limit(s: Seq<char>, max_length: nat)
    requires
        max_length >= 5,
        utf8_len(s) >= max_length,
        is_char_boundary(s, chat_cut(max_length)),
    ensures
        utf8_len(chat_text(s, max_length)) == max_length,
{
    reveal_strlit("[...]");
    let k = choose|k: int| 0 <= k <= s.len() && #[trigger] utf8_len(s.take(k)) == chat_cut(max_length);
    lemma_utf8_len_concat(s.take(k), "[...]"@);
    let d = "[...]"@;
    assert(utf8_len(d) == 5) by {
        let d1 = d.drop_last();
        let d2 = d1.drop_last();
        let d3 = d2.drop_last();
        let d4 = d3.drop_last();
        let d5 = d4.drop_last();
        assert(d5 =~= Seq::<char>::empty());
        assert(utf8_len(d5) == 0);
        assert(utf8_len(d4) == 1);
        assert(utf8_len(d3) == 2);
        assert(utf8_len(d2) == 3);
        assert(utf8_len(d1) == 4);
    }
}

/// The chat line broadcast for `username` saying `text` (both escaped).
pub open spec fn chat_line(username: Seq<char>, text: Seq<char>) -> Seq<char> {
    "<span class='chat_sender'>"@ + escape_html(username) + "</span>: <span class='chat_msg'>"@
        + escape_html(text) + "</span>"@
}

/// The HTML of a chat message, the text cut to the limit first.
pub fn chat_content(username: &str, text: &str, max_length: usize) -> (r: String)
    requires
        max_length > 0 && utf8_len(text@) >= max_length ==> is_char_boundary(
            text@,
            chat_cut(max_length as nat),
        ),
    ensures
        r@ == chat_line(username@, chat_text(text@, max_length as nat)),
{
    let t = truncate_chat(text, max_length);
    let mut out = chars_of("<span class='chat_sender'>");
    let u = string_chars(&html_escape(username));
    push_all(&mut out, &u);
    let mid = chars_of("</span>: <span class='chat_msg'>");
    push_all(&mut out, &mid);
    let body = string_chars(&html_escape(t.as_str()));
    push_all(&mut out, &body);
    let end = chars_of("</span>");
    push_all(&mut out, &end);
    string_of(&out)
}

/// The name shown for a game: its `name` field (or its id), templated for
/// the user where templating succeeds.
pub open spec fn shown_name(c: ServerConfig, id: Seq<char>, u: Seq<char>) -> Seq<char> {
    let g = resolved_fields(c, id);
    let n = match g.name {
        Some(n) => n,
        None => id,
    };
    match dgl_spec(n, Some(u), g.version) {
        Ok(x) => x,
        Err(_) => n,
    }
}

/// The link that starts game `id`.
pub open spec fn game_link(c: ServerConfig, id: Seq<char>, u: Seq<char>) -> Seq<char> {
    "<br><a href=\"#play-"@ + escape_html(id) + "\">"@ + escape_html(shown_name(c, id, u))
        + "</a>"@
}

/// The links for the games `ids` that the configuration holds, in order.
pub open spec fn game_links(c: ServerConfig, ids: Seq<Seq<char>>, u: Seq<char>) -> Seq<char>
    decreases ids.len(),
{
    if ids.len() == 0 {
        Seq::empty()
    } else {
        game_links(c, ids.drop_last(), u) + if c.games@.contains_key(ids.last()) {
            game_link(c, ids.last(), u)
        } else {
            Seq::empty()
        }
    }
}

/// The "Play now:" links for a logged-in user, one per configured game in
/// the configuration's order.
pub fn game_links_html(config: &ServerConfig, username: &str) -> (r: String)
    ensures
        r@ == "Play now:"@ + game_links(*config, config.games.key_seq(), username@),
{
    let ids = config.games.keys();
    let ghost ks = config.games.key_seq();
    let mut out = chars_of("Play now:");
    let ghost head = out@;
    let mut i: usize = 0;
    while i < ids.len()
        invariant
            ids@.map_values(|k: String| k@) == ks,
            ks == config.games.key_seq(),
            i <= ids@.len(),
            head == "Play now:"@,
            out@ == head + game_links(*config, ks.take(i as int), username@),
        decreases ids.len() - i,
    {
        let id = &ids[i];
        assert(ks[i as int] == id@);
        assert(ks.take(i + 1).drop_last() =~= ks.take(i as int));
        match config.resolve_game(id.as_str()) {
            Some(resolved) => {
                let name = match &resolved.fields.name {
                    Some(n) => n.clone(),
                    None => id.clone(),
                };
                let shown = match resolved.templated(name.as_str(), Some(username)) {
                    Ok(x) => x,
                    Err(_) => name,
                };
                let a = chars_of("<br><a href=\"#play-");
                push_all(&mut out, &a);
                let e = string_chars(&html_escape(id.as_str()));
                push_all(&mut out, &e);
                let b = chars_of("\">");
                push_all(&mut out, &b);
                let n = string_chars(&html_escape(shown.as_str()));
                push_all(&mut out, &n);
                let c = chars_of("</a>");
                push_all(&mut out, &c);
                assert(out@ =~= head + game_links(*config, ks.take(i + 1), username@));
            },
            None => {
                assert(out@ =~= head + game_links(*config, ks.take(i + 1), username@));
            },
        }
        i = i + 1;
    }
    assert(ks.take(ks.len() as int) =~= ks);
    string_of(&out)
}

/// What a `play` request leads to.
pub enum PlayDecision {
    /// Back to the lobby: the game is unknown.
    GoLobby,
    /// Ask the user to log in first, naming the game; leave the game being
    /// watched first where there is one.
    LoginRequired { game: String, leave_game: bool },
    /// Already attached to a game: the request is ignored.
    Ignore,
    /// Start the game for this user (`game` when nobody is logged in).
    Start { username: String },
}

/// The name a login request shows for a game: its `name` field, else its
/// id.
pub open spec fn login_name(c: ServerConfig, id: Seq<char>) -> Seq<char> {
    if c.games@.contains_key(id) {
        match resolved_fields(c, id).name {
            Some(n) => n,
            None => id,
        }
    } else {
        id
    }
}

/// Decides a `play` request: in lobby mode an unknown game sends the user
/// back to the lobby and a user who is not logged in is asked to; a
/// connection already attached to a game ignores the request; otherwise
/// the game starts for the user.
pub fn play_decision(config: &ServerConfig, username: Option<&str>, watching: bool, game_id: &str) -> (r:
    PlayDecision)
    ensures
        config.dgl_mode && !config.games@.contains_key(game_id@) ==> r is GoLobby,
        config.dgl_mode && config.games@.contains_key(game_id@) && username is None ==> (r matches PlayDecision::LoginRequired { game, leave_game } && game@ == login_name(*config, game_id@) && leave_game == watching),
        !(config.dgl_mode && (!config.games@.contains_key(game_id@) || username is None)) && watching ==> r is Ignore,
        !(config.dgl_mode && (!config.games@.contains_key(game_id@) || username is None)) && !watching ==> (r matches PlayDecision::Start { username: u } && u@ == match username {
            Some(n) => n@,
            None => "game"@,
        }),
{
    let known = config.games.contains_key(game_id);
    if config.dgl_mode && !known {
        return PlayDecision::GoLobby;
    }
    if config.dgl_mode && username.is_none() {
        let name = match config.resolve_game(game_id) {
            Some(r) => match &r.fields.name {
                Some(n) => n.clone(),
                None => String::from_str(game_id),
            },
            None => String::from_str(game_id),
        };
        return PlayDecision::LoginRequired { game: name, leave_game: watching };
    }
    if watching {
        return PlayDecision::Ignore;
    }
    let u = match username {
        Some(n) => String::from_str(n),
        None => String::from_str("game"),
    };
    PlayDecision::Start { username: u }
}

/// Whether a new connection is turned away: a positive limit is reached by
/// the number of running games.
pub fn connection_limit_reached(max_connections: u32, running_games: usize) -> (r: bool)
    ensures
        r == (max_connections > 0 && (running_games as u32) >= max_connections),
{
    max_connections > 0 && (running_games as u32) >= max_connections
}

/// What a `watch` request leads to.
pub enum WatchDecision {
    /// Nobody of that name is playing: back to the lobby.
    GoLobby,
    /// The player's game may not be watched by this user: the reason is
    /// shown, then back to the lobby.
    Restricted { reason: String },
    /// Start watching.
    Watch,
}

/// Decides a `watch` request: a game must be found, and a blocked watcher
/// is turned away unless an admin.
pub fn watch_decision(game_found: bool, blocked: bool, is_admin: bool) -> (r: WatchDecision)
    ensures
        !game_found ==> r is GoLobby,
        game_found && blocked && !is_admin ==> (r matches WatchDecision::Restricted { reason }
            && reason@ == "Spectating this player is restricted."@),
        game_found && !(blocked && !is_admin) ==> r is Watch,
{
    if !game_found {
        WatchDecision::GoLobby
    } else if blocked && !is_admin {
        WatchDecision::Restricted { reason: String::from_str("Spectating this player is restricted.") }
    } else {
        WatchDecision::Watch
    }
}

/// What a chat message leads to.
pub enum ChatDecision {
    /// Not watching a game: nothing.
    Ignore,
    /// Not logged in: this reply goes back to the sender only.
    NeedLogin { reply: String },
    /// This chat line goes to every watcher of the game.
    Broadcast { content: String },
}

/// Decides a chat message: only a logged-in watcher of a game chats; the
/// line is built as [`chat_content`] builds it.
pub fn chat_decision(watching: bool, username: Option<&str>, text: &str, max_length: usize) -> (r:
    ChatDecision)
    requires
        max_length > 0 && utf8_len(text@) >= max_length ==> is_char_boundary(
            text@,
            chat_cut(max_length as nat),
        ),
    ensures
        !watching ==> r is Ignore,
        watching && username is None ==> (r matches ChatDecision::NeedLogin { reply } && reply@
            == "You need to log in to send messages!"@),
        watching && username is Some ==> (r matches ChatDecision::Broadcast { content } && content@
            == chat_line(username->0@, chat_text(text@, max_length as nat))),
{
    if !watching {
        return ChatDecision::Ignore;
    }
    match username {
        None => ChatDecision::NeedLogin {
            reply: String::from_str("You need to log in to send messages!"),
        },
        Some(u) => ChatDecision::Broadcast { content: chat_content(u, text, max_length) },
    }
}

} // verus!
