//! Game-process bookkeeping that needs no process: the arguments a game is
//! spawned with, crash-reason extraction from stderr lines, the in-progress
//! lock file format and ttyrec framing.

use vstd::prelude::*;
use vstd::string::StrSliceExecFns;
use vstd::utf8::encode_utf8;

use crate::config::opt_view;
use crate::numtext::{
    decimal, is_digit, lemma_decimal_digits, lemma_parse_decimal, parse_uint, parse_uint_exec,
    push_decimal,
};
use crate::text::{
    chars_of, find_chars, find_from, lemma_find_from, occurs_at, occurs_at_exec, push_all,
    slice_of, string_of, trim, trimmed_slice,
};

verus! {

/// Arguments for starting one game process (argv already complete).
#[derive(Debug, Clone)]
pub struct ProcessSpawnArgs {
    pub argv: Vec<String>,
    pub env: Vec<(String, String)>,
    pub cwd: Option<String>,
    pub term_rows: u16,
    pub term_cols: u16,
}

/// One line of process output, tagged by stream.
#[derive(Debug, Clone)]
pub enum ProcessOutputLine {
    Stdout(String),
    Stderr(String),
}

/// Crash-reason fields extracted from a game's stderr.
#[derive(Debug, Clone, PartialEq)]
pub struct CrashInfo {
    pub reason: Option<String>,
    pub message: Option<String>,
    pub dump_filename: Option<String>,
}

/// The value of a [`CrashInfo`].
pub struct CrashInfoView {
    pub reason: Option<Seq<char>>,
    pub message: Option<Seq<char>>,
    pub dump_filename: Option<Seq<char>>,
}

impl View for CrashInfo {
    type V = CrashInfoView;

    open spec fn view(&self) -> CrashInfoView {
        CrashInfoView {
            reason: opt_view(self.reason),
            message: opt_view(self.message),
            dump_filename: opt_view(self.dump_filename),
        }
    }
}

impl CrashInfo {
    pub fn new() -> (r: Self)
        ensures
            r.reason is None && r.message is None && r.dump_filename is None,
    {
        CrashInfo { reason: None, message: None, dump_filename: None }
    }
}

impl Default for CrashInfo {
    fn default() -> (r: Self)
        ensures
            r.reason is None && r.message is None && r.dump_filename is None,
    {
        CrashInfo::new()
    }
}

/// The last index of `c` in `s`.
pub open spec fn rfind_char(s: Seq<char>, c: char) -> Option<int>
    decreases s.len(),
{
    if s.len() == 0 {
        None
    } else if s.last() == c {
        Some(s.len() - 1)
    } else {
        rfind_char(s.drop_last(), c)
    }
}

pub proof fn lemma_rfind_char(s: Seq<char>, c: char)
    ensures
        rfind_char(s, c) matches Some(i) ==> 0 <= i < s.len() && s[i] == c,
    decreases s.len(),
{
    if s.len() > 0 && s.last() != c {
        lemma_rfind_char(s.drop_last(), c);
    }
}

/// The part of a path after its last `/`.
pub open spec fn basename(p: Seq<char>) -> Seq<char> {
    match rfind_char(p, '/') {
        Some(i) => p.subrange(i + 1, p.len() as int),
        None => p,
    }
}

/// A file name without its last `.` and what follows.
pub open spec fn strip_extension(n: Seq<char>) -> Seq<char> {
    match rfind_char(n, '.') {
        Some(i) => n.subrange(0, i),
        None => n,
    }
}

pub fn rfind_char_exec(s: &Vec<char>, c: char) -> (r: Option<usize>)
    ensures
        match r {
            Some(i) => rfind_char(s@, c) == Some(i as int),
            None => rfind_char(s@, c) is None,
        },
        r matches Some(i) ==> i < s.len() && s@[i as int] == c,
{
    let mut i = s.len();
    assert(s@.take(s@.len() as int) =~= s@);
    while i > 0
        invariant
            i <= s@.len(),
            rfind_char(s@, c) == rfind_char(s@.take(i as int), c),
        decreases i,
    {
        assert(s@.take(i as int).drop_last() =~= s@.take(i - 1));
        if s[i - 1] == c {
            return Some(i - 1);
        }
        i = i - 1;
    }
    None
}

pub fn basename_exec(p: &Vec<char>) -> (r: Vec<char>)
    ensures
        r@ == basename(p@),
{
    proof {
        lemma_rfind_char(p@, '/');
    }
    match rfind_char_exec(p, '/') {
        Some(i) => slice_of(p, i + 1, p.len()),
        None => slice_of(p, 0, p.len()),
    }
}

pub fn strip_extension_exec(n: &Vec<char>) -> (r: Vec<char>)
    ensures
        r@ == strip_extension(n@),
{
    proof {
        lemma_rfind_char(n@, '.');
    }
    match rfind_char_exec(n, '.') {
        Some(i) => slice_of(n, 0, i),
        None => slice_of(n, 0, n.len()),
    }
}

/// The view of an optional `&str`.
pub open spec fn opt_str(o: Option<&str>) -> Option<Seq<char>> {
    match o {
        Some(s) => Some(s@),
        None => None,
    }
}

/// `info` with its reason set to `crash`.
pub open spec fn crashed(info: CrashInfoView) -> CrashInfoView {
    CrashInfoView { reason: Some("crash"@), message: info.message, dump_filename: info.dump_filename }
}

pub open spec fn with_message(info: CrashInfoView, m: Seq<char>) -> CrashInfoView {
    CrashInfoView { reason: info.reason, message: Some(m), dump_filename: info.dump_filename }
}

pub open spec fn with_dump(info: CrashInfoView, d: Seq<char>) -> CrashInfoView {
    CrashInfoView { reason: info.reason, message: info.message, dump_filename: Some(d) }
}

/// The trimmed text after the last `/` of `line`, or else after its last
/// space.
pub open spec fn last_field(line: Seq<char>) -> Option<Seq<char>> {
    match rfind_char(line, '/') {
        Some(i) => Some(trim(line.subrange(i + 1, line.len() as int))),
        None => match rfind_char(line, ' ') {
            Some(i) => Some(trim(line.subrange(i + 1, line.len() as int))),
            None => None,
        },
    }
}

/// The dump file named in a legacy `We crashed! (...)` line: the text
/// between the first `(` and the first `)` after it.
pub open spec fn paren_group(line: Seq<char>) -> Option<Seq<char>> {
    match find_from(line, seq!['('], 0) {
        Some(open) => match find_from(line, seq![')'], open) {
            Some(close) => Some(line.subrange(open + 1, close)),
            None => None,
        },
        None => None,
    }
}

/// What one stderr line tells about a crash, given what was known before.
/// Four line shapes are recognised, tried in this order:
/// - `ERROR...`: a crash; the message is the trimmed text after the last `:`
///   of what follows `ERROR`, where there is one;
/// - `...crash report: <path>`: a crash; with a morgue URL and a non-empty
///   path, the dump is the URL followed by the path's file name without its
///   extension;
/// - `We crashed! (<file>)...`: a crash; with a morgue URL, the dump is named
///   by the parenthesised file;
/// - `Writing crash info to <path>`: a crash; with a morgue URL, the dump is
///   named by the last path segment (or last word), trimmed.
/// Any other line leaves `info` as it was.
pub open spec fn crash_update(info: CrashInfoView, line: Seq<char>, url: Option<Seq<char>>) -> CrashInfoView {
    let c = crashed(info);
    if occurs_at(line, "ERROR"@, 0) {
        let rest = line.subrange("ERROR"@.len() as int, line.len() as int);
        match rfind_char(rest, ':') {
            Some(i) => with_message(c, trim(rest.subrange(i + 1, rest.len() as int))),
            None => c,
        }
    } else if find_from(line, "crash report: "@, 0) is Some {
        let start = find_from(line, "crash report: "@, 0)->0 + "crash report: "@.len();
        let path = line.subrange(start, line.len() as int);
        match url {
            Some(u) => if path.len() > 0 {
                with_dump(c, u + strip_extension(basename(path)))
            } else {
                c
            },
            None => c,
        }
    } else if occurs_at(line, "We crashed!"@, 0) {
        match (url, paren_group(line)) {
            (Some(u), Some(inner)) => with_dump(c, u + strip_extension(basename(inner))),
            _ => c,
        }
    } else if occurs_at(line, "Writing crash info to"@, 0) {
        match (url, last_field(line)) {
            (Some(u), Some(name)) => with_dump(c, u + strip_extension(name)),
            _ => c,
        }
    } else {
        info
    }
}

fn crash_string() -> (r: String)
    ensures
        r@ == "crash"@,
{
    String::from_str("crash")
}

/// `url` followed by `name`, as a `String`.
fn joined(url: &str, name: &Vec<char>) -> (r: String)
    ensures
        r@ == url@ + name@,
{
    let mut v = chars_of(url);
    push_all(&mut v, name);
    string_of(&v)
}

fn paren_group_exec(l: &Vec<char>) -> (r: Option<Vec<char>>)
    ensures
        match r {
            Some(v) => paren_group(l@) == Some(v@),
            None => paren_group(l@) is None,
        },
{
    let po = vec!['('];
    let pc = vec![')'];
    assert(po@ =~= seq!['(']);
    assert(pc@ =~= seq![')']);
    proof {
        lemma_find_from(l@, seq!['('], 0);
    }
    match find_chars(l, po.as_slice(), 0) {
        Some(open) => {
            proof {
                lemma_find_from(l@, seq![')'], open as int);
                assert(l@.subrange(open as int, open + 1)[0] == l@[open as int]);
            }
            match find_chars(l, pc.as_slice(), open) {
                Some(close) => {
                    proof {
                        assert(l@.subrange(close as int, close + 1)[0] == l@[close as int]);
                    }
                    Some(slice_of(l, open + 1, close))
                },
                None => None,
            }
        },
        None => None,
    }
}

fn last_field_exec(l: &Vec<char>) -> (r: Option<Vec<char>>)
    ensures
        match r {
            Some(v) => last_field(l@) == Some(v@),
            None => last_field(l@) is None,
        },
{
    proof {
        lemma_rfind_char(l@, '/');
        lemma_rfind_char(l@, ' ');
    }
    match rfind_char_exec(l, '/') {
        Some(i) => Some(trimmed_slice(l, i + 1, l.len())),
        None => match rfind_char_exec(l, ' ') {
            Some(i) => Some(trimmed_slice(l, i + 1, l.len())),
            None => None,
        },
    }
}

/// Updates `info` from the next stderr line of a game (see
/// [`crash_update`]). Called once per line as lines arrive.
pub fn update_crash_info(info: &mut CrashInfo, line: &str, morgue_url: Option<&str>)
    ensures
        final(info)@ == crash_update(old(info)@, line@, opt_str(morgue_url)),
{
    proof {
        reveal_strlit("ERROR");
        reveal_strlit("crash report: ");
    }
    let l = chars_of(line);
    let p_error = chars_of("ERROR");
    let p_report = chars_of("crash report: ");
    let p_we = chars_of("We crashed!");
    let p_writing = chars_of("Writing crash info to");
    if occurs_at_exec(&l, p_error.as_slice(), 0) {
        info.reason = Some(crash_string());
        let rest = slice_of(&l, 5, l.len());
        proof {
            lemma_rfind_char(rest@, ':');
        }
        match rfind_char_exec(&rest, ':') {
            Some(i) => {
                info.message = Some(string_of(&trimmed_slice(&rest, i + 1, rest.len())));
            },
            None => {},
        }
        return;
    }
    proof {
        lemma_find_from(l@, p_report@, 0);
    }
    if let Some(idx) = find_chars(&l, p_report.as_slice(), 0) {
        info.reason = Some(crash_string());
        assert(p_report@.len() == 14);
        assert(idx + 14 <= l@.len());
        if let Some(url) = morgue_url {
            let path = slice_of(&l, idx + 14, l.len());
            if path.len() > 0 {
                let name = strip_extension_exec(&basename_exec(&path));
                info.dump_filename = Some(joined(url, &name));
            }
        }
        return;
    }
    if occurs_at_exec(&l, p_we.as_slice(), 0) {
        info.reason = Some(crash_string());
        if let Some(url) = morgue_url {
            if let Some(inner) = paren_group_exec(&l) {
                let name = strip_extension_exec(&basename_exec(&inner));
                info.dump_filename = Some(joined(url, &name));
            }
        }
        return;
    }
    if occurs_at_exec(&l, p_writing.as_slice(), 0) {
        info.reason = Some(crash_string());
        if let Some(url) = morgue_url {
            if let Some(tail) = last_field_exec(&l) {
                let name = strip_extension_exec(&tail);
                info.dump_filename = Some(joined(url, &name));
            }
        }
    }
}

/// The lock file written while a game runs: pid, terminal rows and columns,
/// one per line.
pub open spec fn lock_text(pid: nat, rows: nat, cols: nat) -> Seq<char> {
    decimal(pid) + seq!['\n'] + decimal(rows) + seq!['\n'] + decimal(cols) + seq!['\n']
}

/// Writes the lock file text for a game process.
pub fn format_lock_file(pid: u32, term_rows: u16, term_cols: u16) -> (r: String)
    ensures
        r@ == lock_text(pid as nat, term_rows as nat, term_cols as nat),
{
    let mut v: Vec<char> = Vec::new();
    push_decimal(&mut v, pid as u64);
    v.push('\n');
    push_decimal(&mut v, term_rows as u64);
    v.push('\n');
    push_decimal(&mut v, term_cols as u64);
    v.push('\n');
    assert(v@ =~= lock_text(pid as nat, term_rows as nat, term_cols as nat));
    string_of(&v)
}

/// The first line of `s` and what follows it (`str::lines`): `None` when
/// `s` is empty; the line ends before the first `\n`, or at the end of `s`.
/// A `\r` that `str::lines` would also drop from the line's end is left in
/// place: every use of a line here trims it.
pub open spec fn next_line(s: Seq<char>) -> Option<(Seq<char>, Seq<char>)> {
    if s.len() == 0 {
        None
    } else {
        match find_from(s, seq!['\n'], 0) {
            Some(i) => Some((s.subrange(0, i), s.subrange(i + 1, s.len() as int))),
            None => Some((s, Seq::<char>::empty())),
        }
    }
}

/// What a lock file holds: its first three lines, each trimmed and read as
/// an unsigned number (pid as `u32`, rows and columns as `u16`). Whatever
/// follows the third line is not read.
pub open spec fn lock_fields(s: Seq<char>) -> Option<(int, int, int)> {
    match next_line(s) {
        None => None,
        Some((a, r1)) => match parse_uint(trim(a), u32::MAX as int) {
            None => None,
            Some(pid) => match next_line(r1) {
                None => None,
                Some((b, r2)) => match parse_uint(trim(b), u16::MAX as int) {
                    None => None,
                    Some(rows) => match next_line(r2) {
                        None => None,
                        Some((c, _)) => match parse_uint(trim(c), u16::MAX as int) {
                            None => None,
                            Some(cols) => Some((pid, rows, cols)),
                        },
                    },
                },
            },
        },
    }
}

fn next_line_exec(s: &Vec<char>) -> (r: Option<(Vec<char>, Vec<char>)>)
    ensures
        match r {
            Some((a, b)) => next_line(s@) == Some((a@, b@)),
            None => next_line(s@) is None,
        },
{
    if s.len() == 0 {
        return None;
    }
    let nl = vec!['\n'];
    assert(nl@ =~= seq!['\n']);
    proof {
        lemma_find_from(s@, seq!['\n'], 0);
    }
    match find_chars(s, nl.as_slice(), 0) {
        Some(i) => Some((slice_of(s, 0, i), slice_of(s, i + 1, s.len()))),
        None => {
            let all = slice_of(s, 0, s.len());
            assert(all@ =~= s@);
            let empty: Vec<char> = Vec::new();
            assert(empty@ =~= Seq::<char>::empty());
            Some((all, empty))
        },
    }
}

/// A trimmed line read as an unsigned number no larger than `max`.
fn parse_field(line: &Vec<char>, max: u64) -> (r: Option<u64>)
    requires
        max <= u32::MAX,
    ensures
        match r {
            Some(v) => parse_uint(trim(line@), max as int) == Some(v as int) && v <= max,
            None => parse_uint(trim(line@), max as int) is None,
        },
{
    assert(line@.subrange(0, line@.len() as int) =~= line@);
    let t = trimmed_slice(line, 0, line.len());
    parse_uint_exec(&t, max)
}

/// Reads a lock file back (see [`lock_fields`]).
pub fn parse_lock_file(contents: &str) -> (r: Option<(u32, u16, u16)>)
    ensures
        match r {
            Some((pid, rows, cols)) => lock_fields(contents@) == Some(
                (pid as int, rows as int, cols as int),
            ),
            None => lock_fields(contents@) is None,
        },
{
    let s = chars_of(contents);
    let (a, r1) = match next_line_exec(&s) {
        Some(x) => x,
        None => return None,
    };
    let pid = match parse_field(&a, 0xffff_ffff) {
        Some(v) => v as u32,
        None => return None,
    };
    let (b, r2) = match next_line_exec(&r1) {
        Some(x) => x,
        None => return None,
    };
    let rows = match parse_field(&b, 0xffff) {
        Some(v) => v as u16,
        None => return None,
    };
    let (c, _) = match next_line_exec(&r2) {
        Some(x) => x,
        None => return None,
    };
    let cols = match parse_field(&c, 0xffff) {
        Some(v) => v as u16,
        None => return None,
    };
    Some((pid, rows, cols))
}

/// A one-character pattern occurs exactly where that character stands.
proof fn lemma_occurs_single(s: Seq<char>, c: char, k: int)
    requires
        0 <= k < s.len(),
    ensures
        occurs_at(s, seq![c], k) <==> s[k] == c,
{
    if occurs_at(s, seq![c], k) {
        assert(s.subrange(k, k + 1)[0] == s[k]);
    }
    if s[k] == c {
        assert(s.subrange(k, k + 1) =~= seq![c]);
    }
}

proof fn lemma_next_line_of_decimal(n: nat, rest: Seq<char>)
    ensures
        next_line(decimal(n) + seq!['\n'] + rest) == Some((decimal(n), rest)),
{
    lemma_decimal_digits(n);
    let d = decimal(n);
    let s = d + seq!['\n'] + rest;
    let nl = seq!['\n'];
    let m = d.len() as int;
    lemma_find_from(s, nl, 0);
    lemma_occurs_single(s, '\n', m);
    let f = find_from(s, nl, 0);
    assert(f is Some);
    let i = f->0;
    assert(0 <= i < s.len());
    lemma_occurs_single(s, '\n', i);
    if i < m {
        assert(s[i] == d[i]);
        assert(is_digit(d[i]));
    }
    assert(i == m);
    assert(s.subrange(0, m) =~= d);
    assert(s.subrange(m + 1, s.len() as int) =~= rest);
}

proof fn lemma_trim_decimal(n: nat)
    ensures
        trim(decimal(n)) == decimal(n),
{
    lemma_decimal_digits(n);
    let d = decimal(n);
    assert(is_digit(d[0]));
    assert(is_digit(d[d.len() - 1]));
}

/// Reading a lock file gives back the pid, rows and columns it was written
/// with.
pub proof fn lemma_lock_file_round_trip(pid: u32, rows: u16, cols: u16)
    ensures
        lock_fields(lock_text(pid as nat, rows as nat, cols as nat)) == Some(
            (pid as int, rows as int, cols as int),
        ),
{
    let nl = seq!['\n'];
    let dp = decimal(pid as nat);
    let dr = decimal(rows as nat);
    let dc = decimal(cols as nat);
    let r2 = dc + nl + Seq::<char>::empty();
    let r1 = dr + nl + r2;
    assert(lock_text(pid as nat, rows as nat, cols as nat) =~= dp + nl + r1);
    lemma_next_line_of_decimal(pid as nat, r1);
    lemma_next_line_of_decimal(rows as nat, r2);
    lemma_next_line_of_decimal(cols as nat, Seq::<char>::empty());
    lemma_trim_decimal(pid as nat);
    lemma_trim_decimal(rows as nat);
    lemma_trim_decimal(cols as nat);
    lemma_parse_decimal(pid as nat, u32::MAX as int);
    lemma_parse_decimal(rows as nat, u16::MAX as int);
    lemma_parse_decimal(cols as nat, u16::MAX as int);
}

/// The text of the id chunk that opens a game's ttyrec.
pub open spec fn id_header_text(
    user: Seq<char>,
    game: Seq<char>,
    server: Seq<char>,
    lock: Seq<char>,
    epoch: nat,
) -> Seq<char> {
    "\x1b[2J\x1b[1;1H\r\nPlayer: "@ + user + "\r\nGame: "@ + game + "\r\nServer: "@ + server
        + "\r\nFilename: "@ + lock + "\r\nTime: ("@ + decimal(epoch) + ") epoch-seconds\r\n\x1b[2J"@
}

fn push_str(out: &mut Vec<char>, s: &str)
    ensures
        final(out)@ == old(out)@ + s@,
{
    let v = chars_of(s);
    push_all(out, &v);
}

/// The ttyrec id chunk for a game started at `epoch` (seconds since the
/// Unix epoch), UTF-8 encoded.
pub fn ttyrec_id_header_at(
    username: &str,
    game_name: &str,
    server_id: &str,
    lock_basename: &str,
    epoch: u64,
) -> (r: Vec<u8>)
    ensures
        r@ == encode_utf8(
            id_header_text(username@, game_name@, server_id@, lock_basename@, epoch as nat),
        ),
{
    let mut v: Vec<char> = Vec::new();
    push_str(&mut v, "\x1b[2J\x1b[1;1H\r\nPlayer: ");
    push_str(&mut v, username);
    push_str(&mut v, "\r\nGame: ");
    push_str(&mut v, game_name);
    push_str(&mut v, "\r\nServer: ");
    push_str(&mut v, server_id);
    push_str(&mut v, "\r\nFilename: ");
    push_str(&mut v, lock_basename);
    push_str(&mut v, "\r\nTime: (");
    push_decimal(&mut v, epoch);
    push_str(&mut v, ") epoch-seconds\r\n\x1b[2J");
    assert(v@ =~= id_header_text(username@, game_name@, server_id@, lock_basename@, epoch as nat));
    let text = string_of(&v);
    text.as_str().as_bytes_vec()
}

/// Seconds since the Unix epoch by the system clock (`SystemTime::now`,
/// measured from `UNIX_EPOCH`; a clock set before the epoch reads 0).
/// Nothing is stated of the value: it is the time.
#[verifier::external_body]
fn unix_time_secs() -> u64 {
    std::time::SystemTime::now().duration_since(std::time::UNIX_EPOCH).unwrap_or_default().as_secs()
}

/// The ttyrec id chunk for a game starting now.
pub fn ttyrec_id_header(
    username: &str,
    game_name: &str,
    server_id: &str,
    lock_basename: &str,
) -> (r: Vec<u8>)
    ensures
        exists|t: nat|
            r@ == encode_utf8(
                #[trigger] id_header_text(username@, game_name@, server_id@, lock_basename@, t),
            ),
{
    let t = unix_time_secs();
    ttyrec_id_header_at(username, game_name, server_id, lock_basename, t)
}

/// The four little-endian bytes of `x`.
pub open spec fn le32(x: u32) -> Seq<u8> {
    seq![
        (x & 0xff) as u8,
        ((x >> 8u32) & 0xff) as u8,
        ((x >> 16u32) & 0xff) as u8,
        ((x >> 24u32) & 0xff) as u8,
    ]
}

fn push_le32(out: &mut Vec<u8>, x: u32)
    ensures
        final(out)@ == old(out)@ + le32(x),
{
    out.push((x & 0xff) as u8);
    out.push(((x >> 8u32) & 0xff) as u8);
    out.push(((x >> 16u32) & 0xff) as u8);
    out.push(((x >> 24u32) & 0xff) as u8);
    assert(out@ =~= old(out)@ + le32(x));
}

/// The 12-byte header of a ttyrec chunk: seconds, microseconds and the
/// chunk's length, each as a little-endian 32-bit value (wider values are
/// cut to their low 32 bits, as `as i32` does).
pub fn ttyrec_chunk_header(secs: u64, micros: u32, len: usize) -> (r: Vec<u8>)
    ensures
        r@ == le32(secs as u32) + le32(micros) + le32(len as u32),
{
    let mut v: Vec<u8> = Vec::new();
    push_le32(&mut v, secs as u32);
    push_le32(&mut v, micros);
    push_le32(&mut v, len as u32);
    assert(v@ =~= le32(secs as u32) + le32(micros) + le32(len as u32));
    v
}

} // verus!
