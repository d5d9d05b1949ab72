//! What starting a game needs before any process exists: the directories
//! to create, the game's own socket path, the command line, environment
//! and working directory, and the templated client path and morgue URL.

use vstd::prelude::*;

use crate::config::{
    dgl_result, dgl_spec, opt_view, resolved_fields, string_map_view, strings_view, GameFieldsView,
    ResolvedGame, ServerConfig,
};
use crate::error::WebtilesError;
use crate::numtext::{decimal, push_decimal};
use crate::process::ProcessSpawnArgs;
use crate::table::map_of;
use crate::text::{chars_eq, chars_of, push_all, string_of};

verus! {

/// `Path::join` on Unix: an absolute `name` replaces `base`; otherwise a
/// `/` is put between them unless `base` is empty or already ends in one.
pub open spec fn path_join(base: Seq<char>, name: Seq<char>) -> Seq<char> {
    if name.len() > 0 && name[0] == '/' {
        name
    } else if base.len() == 0 || base.last() == '/' {
        base + name
    } else {
        base + seq!['/'] + name
    }
}

/// Joins two paths (see [`path_join`]).
pub fn join_path(base: &str, name: &str) -> (r: String)
    ensures
        r@ == path_join(base@, name@),
{
    let b = chars_of(base);
    let n = chars_of(name);
    if n.len() > 0 && n[0] == '/' {
        return string_of(&n);
    }
    let mut out = chars_of(base);
    if b.len() > 0 && b[b.len() - 1] != '/' {
        out.push('/');
    }
    push_all(&mut out, &n);
    string_of(&out)
}

/// The path-valued game field called `field`, if it is one of the four
/// that games are started with.
pub open spec fn field_path(g: GameFieldsView, field: Seq<char>) -> Option<Seq<char>> {
    if field == "rcfile_path"@ {
        g.rcfile_path
    } else if field == "macro_path"@ {
        g.macro_path
    } else if field == "morgue_path"@ {
        g.morgue_path
    } else if field == "socket_path"@ {
        g.socket_path
    } else {
        None
    }
}

/// A game's field `field`, templated for `u`; an error where the game lacks
/// the field, or where templating fails. `socket_path` is the one field
/// that is not templated: it is used as written.
pub open spec fn templated_path_spec(g: GameFieldsView, field: Seq<char>, u: Seq<char>) -> Result<
    Seq<char>,
    Seq<char>,
> {
    match field_path(g, field) {
        None => Err("game is missing required field `"@ + field + "`"@),
        Some(v) => if field == "socket_path"@ {
            Ok(v)
        } else {
            dgl_spec(v, Some(u), g.version)
        },
    }
}

fn is_named(field: &str, name: &str) -> (r: bool)
    ensures
        r == (field@ == name@),
{
    let a = chars_of(field);
    let b = chars_of(name);
    chars_eq(&a, &b)
}

/// The game's field `field` (one of `rcfile_path`, `macro_path`,
/// `morgue_path`, `socket_path`), templated for `username` (`socket_path`
/// as written: it is not templated).
pub fn templated_path(resolved: &ResolvedGame, field: &str, username: &str) -> (r: Result<
    String,
    WebtilesError,
>)
    ensures
        dgl_result(r) == templated_path_spec(resolved.fields@, field@, username@),
        r is Err ==> r matches Err(WebtilesError::Config(_)),
{
    let value = if is_named(field, "rcfile_path") {
        &resolved.fields.rcfile_path
    } else if is_named(field, "macro_path") {
        &resolved.fields.macro_path
    } else if is_named(field, "morgue_path") {
        &resolved.fields.morgue_path
    } else if is_named(field, "socket_path") {
        &resolved.fields.socket_path
    } else {
        &None
    };
    match value {
        Some(v) => if is_named(field, "socket_path") {
            Ok(v.clone())
        } else {
            resolved.templated(v.as_str(), Some(username))
        },
        None => {
            let mut m = String::from_str("game is missing required field `");
            m.append(field);
            m.append("`");
            Err(WebtilesError::Config(m))
        },
    }
}

/// `n` in decimal, padded with leading zeros to at least `width`
/// characters (`{:0width$}`).
pub open spec fn zero_pad(n: nat, width: nat) -> Seq<char> {
    let d = decimal(n);
    if d.len() < width {
        Seq::new((width - d.len()) as nat, |i: int| '0') + d
    } else {
        d
    }
}

/// `{:0width$}` of a signed number: the sign counts toward the width.
pub open spec fn signed_pad(n: int, width: nat) -> Seq<char> {
    if n < 0 {
        seq!['-'] + zero_pad((-n) as nat, (width - 1) as nat)
    } else {
        zero_pad(n as nat, width)
    }
}

fn push_zero_pad(out: &mut Vec<char>, n: u64, width: usize)
    ensures
        final(out)@ == old(out)@ + zero_pad(n as nat, width as nat),
{
    let mut d: Vec<char> = Vec::new();
    push_decimal(&mut d, n);
    assert(d@ =~= decimal(n as nat));
    let mut k: usize = d.len();
    let ghost start = out@;
    while k < width
        invariant
            d@ == decimal(n as nat),
            d@.len() <= k <= width || (k == d@.len() && k >= width),
            out@ == start + Seq::new((k - d@.len()) as nat, |i: int| '0'),
        decreases width - k,
    {
        out.push('0');
        assert(out@ =~= start + Seq::new((k + 1 - d@.len()) as nat, |i: int| '0'));
        k = k + 1;
    }
    push_all(out, &d);
    if d.len() >= width {
        assert(out@ =~= start + decimal(n as nat));
    } else {
        assert(out@ =~= start + zero_pad(n as nat, width as nat));
    }
}

/// The `YYYY-MM-DD.HH:MM:SS` stamp that names a game's socket.
pub open spec fn timestamp_text(year: int, month: nat, day: nat, hour: nat, minute: nat, second: nat) -> Seq<
    char,
> {
    signed_pad(year, 4) + seq!['-'] + zero_pad(month, 2) + seq!['-'] + zero_pad(day, 2) + seq!['.']
        + zero_pad(hour, 2) + seq![':'] + zero_pad(minute, 2) + seq![':'] + zero_pad(second, 2)
}

/// Formats a UTC date and time as a socket stamp (see [`timestamp_text`]).
pub fn format_timestamp_of(year: i32, month: u8, day: u8, hour: u8, minute: u8, second: u8) -> (r:
    String)
    ensures
        r@ == timestamp_text(
            year as int,
            month as nat,
            day as nat,
            hour as nat,
            minute as nat,
            second as nat,
        ),
{
    let mut v: Vec<char> = Vec::new();
    if year < 0 {
        v.push('-');
        let a: u64 = (-(year as i64)) as u64;
        push_zero_pad(&mut v, a, 3);
    } else {
        push_zero_pad(&mut v, year as u64, 4);
    }
    v.push('-');
    push_zero_pad(&mut v, month as u64, 2);
    v.push('-');
    push_zero_pad(&mut v, day as u64, 2);
    v.push('.');
    push_zero_pad(&mut v, hour as u64, 2);
    v.push(':');
    push_zero_pad(&mut v, minute as u64, 2);
    v.push(':');
    push_zero_pad(&mut v, second as u64, 2);
    assert(v@ =~= timestamp_text(
        year as int,
        month as nat,
        day as nat,
        hour as nat,
        minute as nat,
        second as nat,
    ));
    string_of(&v)
}

/// The current UTC date and time (`time::OffsetDateTime::now_utc`), as
/// year, month, day, hour, minute and second. It is the time: only the
/// ranges that the `time` documentation gives are stated.
#[verifier::external_body]
fn utc_now() -> (r: (i32, u8, u8, u8, u8, u8))
    ensures
        1 <= r.1 <= 12,
        1 <= r.2 <= 31,
        r.3 < 24,
        r.4 < 60,
        r.5 < 60,
{
    let now = time::OffsetDateTime::now_utc();
    (now.year(), u8::from(now.month()), now.day(), now.hour(), now.minute(), now.second())
}

/// The socket stamp for the current UTC time.
pub fn format_timestamp() -> (r: String)
    ensures
        exists|y: i32, mo: u8, d: u8, h: u8, mi: u8, s: u8|
            r@ == #[trigger] timestamp_text(
                y as int,
                mo as nat,
                d as nat,
                h as nat,
                mi as nat,
                s as nat,
            ),
{
    let (y, mo, d, h, mi, s) = utc_now();
    format_timestamp_of(y, mo, d, h, mi, s)
}

/// Why a game cannot be started.
pub enum PlanError {
    Game(Seq<char>),
    Config(Seq<char>),
}

/// What starting a game needs, as values.
pub struct LaunchPlanView {
    pub dirs: Seq<Seq<char>>,
    pub socket: Seq<char>,
    pub argv: Seq<Seq<char>>,
    pub env: Map<Seq<char>, Seq<char>>,
    pub cwd: Option<Seq<char>>,
    pub rows: u16,
    pub cols: u16,
    pub client_path: Result<Option<Seq<char>>, Seq<char>>,
    pub morgue_url: Result<Option<Seq<char>>, Seq<char>>,
}

/// An optional game field templated for `u`.
pub open spec fn opt_tmpl(g: GameFieldsView, o: Option<Seq<char>>, u: Seq<char>) -> Result<
    Option<Seq<char>>,
    Seq<char>,
> {
    match o {
        None => Ok(None),
        Some(v) => match dgl_spec(v, Some(u), g.version) {
            Ok(x) => Ok(Some(x)),
            Err(m) => Err(m),
        },
    }
}

/// Each of `opts` templated for `u`, in order; the first error where one
/// fails.
pub open spec fn tmpl_all(g: GameFieldsView, opts: Seq<Seq<char>>, u: Seq<char>) -> Result<
    Seq<Seq<char>>,
    Seq<char>,
>
    decreases opts.len(),
{
    if opts.len() == 0 {
        Ok(Seq::empty())
    } else {
        match tmpl_all(g, opts.drop_last(), u) {
            Err(m) => Err(m),
            Ok(p) => match dgl_spec(opts.last(), Some(u), g.version) {
                Err(m) => Err(m),
                Ok(x) => Ok(p.push(x)),
            },
        }
    }
}

/// The command line of a game: the binary, its pre-options, the player's
/// name and files, its options (templated), the save directory where one
/// is set, and the socket to talk on.
pub open spec fn argv_spec(
    g: GameFieldsView,
    crawl: Seq<char>,
    u: Seq<char>,
    rc: Seq<char>,
    mac: Seq<char>,
    morgue: Seq<char>,
    opts: Seq<Seq<char>>,
    dir: Option<Seq<char>>,
    sock: Seq<char>,
) -> Seq<Seq<char>> {
    seq![crawl] + g.pre_options + seq![
        "-name"@,
        u,
        "-rc"@,
        path_join(rc, u + ".rc"@),
        "-macro"@,
        path_join(mac, u + ".macro"@),
        "-morgue"@,
        morgue,
    ] + opts + match dir {
        Some(d) => seq!["-dir"@, d],
        None => Seq::empty(),
    } + seq!["-webtiles-socket"@, sock, "-await-connection"@]
}

/// The four directories a game is started with, templated for `u`: rcfile,
/// macro, morgue and socket paths, in that order of checking.
pub open spec fn dirs_spec(g: GameFieldsView, u: Seq<char>) -> Result<
    (Seq<char>, Seq<char>, Seq<char>, Seq<char>),
    Seq<char>,
> {
    match templated_path_spec(g, "rcfile_path"@, u) {
        Err(m) => Err(m),
        Ok(rc) => match templated_path_spec(g, "macro_path"@, u) {
            Err(m) => Err(m),
            Ok(mac) => match templated_path_spec(g, "morgue_path"@, u) {
                Err(m) => Err(m),
                Ok(morgue) => match templated_path_spec(g, "socket_path"@, u) {
                    Err(m) => Err(m),
                    Ok(sockdir) => Ok((rc, mac, morgue, sockdir)),
                },
            },
        },
    }
}

/// The options, save directory and working directory of a game, templated
/// for `u`, in that order of checking.
pub open spec fn extras_spec(g: GameFieldsView, u: Seq<char>) -> Result<
    (Seq<Seq<char>>, Option<Seq<char>>, Option<Seq<char>>),
    Seq<char>,
> {
    match tmpl_all(g, g.options, u) {
        Err(m) => Err(m),
        Ok(opts) => match opt_tmpl(g, g.dir_path, u) {
            Err(m) => Err(m),
            Ok(dir) => match opt_tmpl(g, g.cwd, u) {
                Err(m) => Err(m),
                Ok(cwd) => Ok((opts, dir, cwd)),
            },
        },
    }
}

/// What starting game `id` for `u` at stamp `ts` needs, or why it cannot
/// start. The checks come in this order: the game exists, it has a binary,
/// its four directories template ([`dirs_spec`]), then its options, save
/// directory and working directory ([`extras_spec`]). The client path and
/// morgue URL are templated too, but their errors are the caller's to
/// raise once the process runs.
pub open spec fn launch_spec(c: ServerConfig, id: Seq<char>, u: Seq<char>, ts: Seq<char>) -> Result<
    LaunchPlanView,
    PlanError,
> {
    if !c.games@.contains_key(id) {
        Err(PlanError::Game("unknown game id: "@ + id))
    } else {
        let g = resolved_fields(c, id);
        match g.crawl_binary {
            None => Err(PlanError::Game("game "@ + id + " has no crawl_binary configured"@)),
            Some(crawl) => match dirs_spec(g, u) {
                Err(m) => Err(PlanError::Config(m)),
                Ok((rc, mac, morgue, sockdir)) => match extras_spec(g, u) {
                    Err(m) => Err(PlanError::Config(m)),
                    Ok((opts, dir, cwd)) => {
                        let sock = path_join(sockdir, u + ":"@ + ts + ".sock"@);
                        Ok(
                            LaunchPlanView {
                                dirs: seq![rc, mac, morgue, sockdir],
                                socket: sock,
                                argv: argv_spec(g, crawl, u, rc, mac, morgue, opts, dir, sock),
                                env: g.env,
                                cwd: cwd,
                                rows: c.recording_term_size.1,
                                cols: c.recording_term_size.0,
                                client_path: opt_tmpl(g, g.client_path, u),
                                morgue_url: opt_tmpl(g, g.morgue_url, u),
                            },
                        )
                    },
                },
            },
        }
    }
}

/// What starting a game needs (see [`launch_spec`]).
#[derive(Debug)]
pub struct LaunchPlan {
    /// The rcfile, macro, morgue and socket directories, to be created.
    pub dirs: Vec<String>,
    /// Where the game will create its socket.
    pub process_socket_path: String,
    pub spawn: ProcessSpawnArgs,
    /// The templated `client_path`, or the templating error to raise once
    /// the process runs.
    pub client_path: Result<Option<String>, WebtilesError>,
    /// The templated `morgue_url`, or the templating error to raise once
    /// the process runs.
    pub morgue_url: Result<Option<String>, WebtilesError>,
}

pub open spec fn opt_result_view(r: Result<Option<String>, WebtilesError>) -> Result<
    Option<Seq<char>>,
    Seq<char>,
> {
    match r {
        Ok(o) => Ok(opt_view(o)),
        Err(WebtilesError::Config(m)) => Err(m@),
        Err(_) => Err(Seq::empty()),
    }
}

pub open spec fn plan_view(p: LaunchPlan) -> LaunchPlanView {
    LaunchPlanView {
        dirs: strings_view(p.dirs@),
        socket: p.process_socket_path@,
        argv: strings_view(p.spawn.argv@),
        env: string_map_view(map_of(p.spawn.env@)),
        cwd: opt_view(p.spawn.cwd),
        rows: p.spawn.term_rows,
        cols: p.spawn.term_cols,
        client_path: opt_result_view(p.client_path),
        morgue_url: opt_result_view(p.morgue_url),
    }
}

pub open spec fn launch_result_view(r: Result<LaunchPlan, WebtilesError>) -> Result<
    LaunchPlanView,
    PlanError,
> {
    match r {
        Ok(p) => Ok(plan_view(p)),
        Err(WebtilesError::Game(m)) => Err(PlanError::Game(m@)),
        Err(WebtilesError::Config(m)) => Err(PlanError::Config(m@)),
        Err(_) => Err(PlanError::Config(Seq::empty())),
    }
}

fn opt_templated(resolved: &ResolvedGame, o: &Option<String>, username: &str) -> (r: Result<
    Option<String>,
    WebtilesError,
>)
    ensures
        opt_result_view(r) == opt_tmpl(resolved.fields@, opt_view(*o), username@),
        r is Err ==> r matches Err(WebtilesError::Config(_)),
{
    match o {
        None => Ok(None),
        Some(v) => match resolved.templated(v.as_str(), Some(username)) {
            Ok(x) => Ok(Some(x)),
            Err(e) => Err(e),
        },
    }
}

fn push_string(v: &mut Vec<String>, s: &str)
    ensures
        strings_view(final(v)@) == strings_view(old(v)@).push(s@),
{
    let t = String::from_str(s);
    v.push(t);
    assert(strings_view(v@) =~= strings_view(old(v)@).push(s@));
}

fn push_strings(v: &mut Vec<String>, items: &Vec<String>)
    ensures
        strings_view(final(v)@) == strings_view(old(v)@) + strings_view(items@),
{
    let mut i: usize = 0;
    while i < items.len()
        invariant
            i <= items@.len(),
            strings_view(v@) == strings_view(old(v)@) + strings_view(items@.take(i as int)),
        decreases items.len() - i,
    {
        push_string(v, items[i].as_str());
        assert(strings_view(items@.take(i + 1)) =~= strings_view(items@.take(i as int)).push(
            items@[i as int]@,
        ));
        i = i + 1;
    }
    assert(items@.take(items@.len() as int) =~= items@);
}

fn file_name(username: &str, ext: &str) -> (r: String)
    ensures
        r@ == username@ + ext@,
{
    let mut v = chars_of(username);
    let e = chars_of(ext);
    push_all(&mut v, &e);
    string_of(&v)
}

fn socket_name(username: &str, timestamp: &str) -> (r: String)
    ensures
        r@ == username@ + ":"@ + timestamp@ + ".sock"@,
{
    let mut v = chars_of(username);
    let c = chars_of(":");
    push_all(&mut v, &c);
    let t = chars_of(timestamp);
    push_all(&mut v, &t);
    let e = chars_of(".sock");
    push_all(&mut v, &e);
    string_of(&v)
}

/// The command line of a game (see [`argv_spec`]).
fn build_argv(
    resolved: &ResolvedGame,
    crawl: &str,
    username: &str,
    rc: &str,
    mac: &str,
    morgue: &str,
    opts: &Vec<String>,
    dir: &Option<String>,
    sock: &str,
) -> (r: Vec<String>)
    ensures
        strings_view(r@) == argv_spec(
            resolved.fields@,
            crawl@,
            username@,
            rc@,
            mac@,
            morgue@,
            strings_view(opts@),
            opt_view(*dir),
            sock@,
        ),
{
    let mut argv: Vec<String> = Vec::new();
    push_string(&mut argv, crawl);
    push_strings(&mut argv, &resolved.fields.pre_options);
    push_string(&mut argv, "-name");
    push_string(&mut argv, username);
    push_string(&mut argv, "-rc");
    let rc_file = join_path(rc, file_name(username, ".rc").as_str());
    push_string(&mut argv, rc_file.as_str());
    push_string(&mut argv, "-macro");
    let macro_file = join_path(mac, file_name(username, ".macro").as_str());
    push_string(&mut argv, macro_file.as_str());
    push_string(&mut argv, "-morgue");
    push_string(&mut argv, morgue);
    push_strings(&mut argv, opts);
    match dir {
        Some(d) => {
            push_string(&mut argv, "-dir");
            push_string(&mut argv, d.as_str());
        },
        None => {},
    }
    push_string(&mut argv, "-webtiles-socket");
    push_string(&mut argv, sock);
    push_string(&mut argv, "-await-connection");
    assert(strings_view(argv@) =~= argv_spec(
        resolved.fields@,
        crawl@,
        username@,
        rc@,
        mac@,
        morgue@,
        strings_view(opts@),
        opt_view(*dir),
        sock@,
    ));
    argv
}

/// The game's options, each templated for `username` (see [`tmpl_all`]).
fn templated_options(resolved: &ResolvedGame, username: &str) -> (r: Result<Vec<String>, WebtilesError>)
    ensures
        match r {
            Ok(v) => tmpl_all(resolved.fields@, resolved.fields@.options, username@) == Ok::<
                Seq<Seq<char>>,
                Seq<char>,
            >(strings_view(v@)),
            Err(WebtilesError::Config(m)) => tmpl_all(resolved.fields@, resolved.fields@.options, username@)
                == Err::<Seq<Seq<char>>, Seq<char>>(m@),
            Err(_) => false,
        },
{
    let opts = &resolved.fields.options;
    let ghost o = resolved.fields@.options;
    let mut out: Vec<String> = Vec::new();
    let mut i: usize = 0;
    assert(o.take(0) =~= Seq::<Seq<char>>::empty());
    assert(strings_view(out@) =~= Seq::<Seq<char>>::empty());
    while i < opts.len()
        invariant
            o == resolved.fields@.options,
            o == strings_view(opts@),
            i <= opts@.len(),
            tmpl_all(resolved.fields@, o.take(i as int), username@) == Ok::<Seq<Seq<char>>, Seq<char>>(
                strings_view(out@),
            ),
        decreases opts.len() - i,
    {
        assert(o.take(i + 1).drop_last() =~= o.take(i as int));
        assert(o.take(i + 1).last() == opts@[i as int]@);
        match resolved.templated(opts[i].as_str(), Some(username)) {
            Ok(x) => {
                let ghost before = out@;
                out.push(x);
                assert(strings_view(out@) =~= strings_view(before).push(out@.last()@));
            },
            Err(e) => {
                proof {
                    lemma_tmpl_all_stops(resolved.fields@, o, username@, i + 1);
                }
                return Err(e);
            },
        }
        i = i + 1;
    }
    assert(o.take(o.len() as int) =~= o);
    Ok(out)
}

/// Once a prefix of the options fails to template, so do the options.
proof fn lemma_tmpl_all_stops(g: GameFieldsView, o: Seq<Seq<char>>, u: Seq<char>, k: int)
    requires
        0 <= k <= o.len(),
        tmpl_all(g, o.take(k), u) is Err,
    ensures
        tmpl_all(g, o, u) == tmpl_all(g, o.take(k), u),
    decreases o.len() - k,
{
    if k < o.len() {
        assert(o.take(k + 1).drop_last() =~= o.take(k));
        lemma_tmpl_all_stops(g, o, u, k + 1);
    } else {
        assert(o.take(k) =~= o);
    }
}

/// Works out everything that starting game `game_id` for `username`
/// needs, with `timestamp` naming its socket (see [`launch_spec`]).
pub fn plan_game_launch(
    config: &ServerConfig,
    game_id: &str,
    username: &str,
    timestamp: &str,
) -> (r: Result<LaunchPlan, WebtilesError>)
    ensures
        launch_result_view(r) == launch_spec(*config, game_id@, username@, timestamp@),
{
    let resolved = match config.resolve_game(game_id) {
        Some(g) => g,
        None => {
            let mut m = String::from_str("unknown game id: ");
            m.append(game_id);
            return Err(WebtilesError::Game(m));
        },
    };
    let ghost g = resolved.fields@;
    let crawl = match &resolved.fields.crawl_binary {
        Some(c) => c.clone(),
        None => {
            let mut m = String::from_str("game ");
            m.append(game_id);
            m.append(" has no crawl_binary configured");
            return Err(WebtilesError::Game(m));
        },
    };
    let rc = match templated_path(&resolved, "rcfile_path", username) {
        Ok(x) => x,
        Err(e) => {
            return Err(e);
        },
    };
    let mac = match templated_path(&resolved, "macro_path", username) {
        Ok(x) => x,
        Err(e) => {
            return Err(e);
        },
    };
    let morgue = match templated_path(&resolved, "morgue_path", username) {
        Ok(x) => x,
        Err(e) => {
            return Err(e);
        },
    };
    let sockdir = match templated_path(&resolved, "socket_path", username) {
        Ok(x) => x,
        Err(e) => {
            return Err(e);
        },
    };
    let opts = match templated_options(&resolved, username) {
        Ok(x) => x,
        Err(e) => {
            return Err(e);
        },
    };
    let dir = match opt_templated(&resolved, &resolved.fields.dir_path, username) {
        Ok(x) => x,
        Err(e) => {
            return Err(e);
        },
    };
    let cwd = match opt_templated(&resolved, &resolved.fields.cwd, username) {
        Ok(x) => x,
        Err(e) => {
            return Err(e);
        },
    };
    let sock = join_path(sockdir.as_str(), socket_name(username, timestamp).as_str());
    let argv = build_argv(
        &resolved,
        crawl.as_str(),
        username,
        rc.as_str(),
        mac.as_str(),
        morgue.as_str(),
        &opts,
        &dir,
        sock.as_str(),
    );
    let env = resolved.fields.env.pairs();
    let client_path = opt_templated(&resolved, &resolved.fields.client_path, username);
    let morgue_url = opt_templated(&resolved, &resolved.fields.morgue_url, username);
    let mut dirs: Vec<String> = Vec::new();
    push_string(&mut dirs, rc.as_str());
    push_string(&mut dirs, mac.as_str());
    push_string(&mut dirs, morgue.as_str());
    push_string(&mut dirs, sockdir.as_str());
    let (cols, rows) = config.recording_term_size;
    let plan = LaunchPlan {
        dirs,
        process_socket_path: sock,
        spawn: ProcessSpawnArgs { argv, env, cwd, term_rows: rows, term_cols: cols },
        client_path,
        morgue_url,
    };
    assert(plan_view(plan).dirs =~= seq![rc@, mac@, morgue@, sockdir@]);
    Ok(plan)
}


/// The program and its arguments from a command line: its first word and
/// the rest; an empty command line is a `Process` error.
pub fn split_command(argv: &Vec<String>) -> (r: Result<(String, Vec<String>), WebtilesError>)
    ensures
        argv@.len() == 0 ==> (r matches Err(WebtilesError::Process(m)) && m@ == "empty argv"@),
        argv@.len() > 0 ==> (r matches Ok((p, rest)) && p@ == argv@[0]@ && rest@.len() == argv@.len()
            - 1 && forall|i: int| 0 <= i < rest@.len() ==> #[trigger] rest@[i]@ == argv@[i + 1]@),
{
    if argv.len() == 0 {
        return Err(WebtilesError::Process(String::from_str("empty argv")));
    }
    let mut rest: Vec<String> = Vec::new();
    let mut i: usize = 1;
    while i < argv.len()
        invariant
            1 <= i <= argv@.len(),
            rest@.len() == i - 1,
            forall|k: int| 0 <= k < rest@.len() ==> #[trigger] rest@[k]@ == argv@[k + 1]@,
        decreases argv.len() - i,
    {
        rest.push(argv[i].clone());
        i = i + 1;
    }
    Ok((argv[0].clone(), rest))
}

} // verus!
