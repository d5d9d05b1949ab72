//! Game client files: the version hash that names a client directory, the
//! routing of `/gamedata/<version>/<path>` requests, and how player names
//! are matched.

use sha1::Digest;
use vstd::prelude::*;

use vstd::string::StrSliceExecFns;
use vstd::utf8::encode_utf8;

use crate::text::{chars_of, slice_of, string_of};

verus! {

/// The SHA-1 digest of `data` (`sha1::Sha1`).
pub uninterp spec fn sha1_of(data: Seq<u8>) -> Seq<u8>;

/// `Sha1::digest` (sha1): the 20-byte SHA-1 digest of `data`. Only its
/// length and its name are stated.
#[verifier::external_body]
fn sha1_digest(data: &[u8]) -> (r: Vec<u8>)
    ensures
        r@ == sha1_of(data@),
        r@.len() == 20,
{
    sha1::Sha1::digest(data).to_vec()
}

/// The lowercase hex digit of a value below 16.
pub open spec fn hex_digit(v: int) -> char {
    if v < 10 {
        ('0' as int + v) as char
    } else {
        ('a' as int + v - 10) as char
    }
}

/// `data` in lowercase hex, two digits per byte, high nibble first.
pub open spec fn hex_text(data: Seq<u8>) -> Seq<char>
    decreases data.len(),
{
    if data.len() == 0 {
        Seq::empty()
    } else {
        hex_text(data.drop_last()) + seq![
            hex_digit(data.last() as int / 16),
            hex_digit(data.last() as int % 16),
        ]
    }
}

/// `hex::encode` (hex): each byte as two lowercase hex digits, high nibble
/// first.
#[verifier::external_body]
fn hex_encode(data: &[u8]) -> (r: String)
    ensures
        r@ == hex_text(data@),
{
    hex::encode(data)
}

/// The version hash of a game client directory: the hex SHA-1 of its
/// absolute path, followed by the version the game reported, if any.
pub open spec fn client_version_text(abs_path: Seq<char>, version: Option<Seq<char>>) -> Seq<char> {
    hex_text(
        sha1_of(
            encode_utf8(abs_path) + match version {
                Some(v) => encode_utf8(v),
                None => Seq::empty(),
            },
        ),
    )
}

/// The version hash of a game client directory (see
/// [`client_version_text`]).
pub fn client_version(abs_path: &str, version: Option<&str>) -> (r: String)
    ensures
        r@ == client_version_text(
            abs_path@,
            match version {
                Some(v) => Some(v@),
                None => None,
            },
        ),
{
    let mut bytes = abs_path.as_bytes_vec();
    match version {
        Some(v) => {
            let mut vb = v.as_bytes_vec();
            bytes.append(&mut vb);
        },
        None => {},
    }
    let digest = sha1_digest(bytes.as_slice());
    hex_encode(digest.as_slice())
}

/// Where a `/gamedata/...` request goes.
pub enum GameDataRoute {
    /// No `/` after the version.
    NotFound,
    /// The path climbs out of the client directory with `..`.
    BadRequest,
    /// Serve `path` from the client directory registered for `version`.
    Serve { version: String, path: String },
}

/// Whether some `/`-separated segment of `p` is `..`.
pub open spec fn has_parent_segment(p: Seq<char>) -> bool {
    exists|i: int|
        0 <= i && i + 2 <= p.len() && #[trigger] p.subrange(i, i + 2) == seq!['.', '.'] && (i == 0
            || p[i - 1] == '/') && (i + 2 == p.len() || p[i + 2] == '/')
}

/// Routes `/gamedata/<rest>`: the version is what comes before the first
/// `/`, the path what follows; a path with a `..` segment is refused.
pub fn gamedata_route(rest: &str) -> (r: GameDataRoute)
    ensures
        match r {
            GameDataRoute::NotFound => forall|i: int| 0 <= i < rest@.len() ==> rest@[i] != '/',
            GameDataRoute::BadRequest => exists|k: int|
                0 <= k < rest@.len() && rest@[k] == '/' && (forall|j: int| 0 <= j < k ==> rest@[j] != '/')
                    && has_parent_segment(rest@.subrange(k + 1, rest@.len() as int)),
            GameDataRoute::Serve { version, path } => exists|k: int|
                0 <= k < rest@.len() && rest@[k] == '/' && (forall|j: int| 0 <= j < k ==> rest@[j] != '/')
                    && version@ == rest@.subrange(0, k) && path@ == rest@.subrange(
                    k + 1,
                    rest@.len() as int,
                ) && !has_parent_segment(path@),
        },
{
    let s = chars_of(rest);
    let mut k: usize = 0;
    while k < s.len() && s[k] != '/'
        invariant
            s@ == rest@,
            k <= s@.len(),
            forall|j: int| 0 <= j < k ==> s@[j] != '/',
        decreases s.len() - k,
    {
        k = k + 1;
    }
    if k == s.len() {
        return GameDataRoute::NotFound;
    }
    let version = slice_of(&s, 0, k);
    let path = slice_of(&s, k + 1, s.len());
    if parent_segment_exec(&path) {
        GameDataRoute::BadRequest
    } else {
        GameDataRoute::Serve { version: string_of(&version), path: string_of(&path) }
    }
}

fn parent_segment_exec(p: &Vec<char>) -> (r: bool)
    ensures
        r == has_parent_segment(p@),
{
    let mut i: usize = 0;
    while i < p.len() && p.len() - i >= 2
        invariant
            i <= p@.len(),
            forall|m: int|
                0 <= m < i ==> !(m + 2 <= p@.len() && #[trigger] p@.subrange(m, m + 2) == seq![
                    '.',
                    '.',
                ] && (m == 0 || p@[m - 1] == '/') && (m + 2 == p@.len() || p@[m + 2] == '/')),
        decreases p.len() - i,
    {
        let starts = i == 0 || p[i - 1] == '/';
        let ends = i + 2 == p.len() || p[i + 2] == '/';
        if starts && ends && p[i] == '.' && p[i + 1] == '.' {
            assert(p@.subrange(i as int, i + 2) =~= seq!['.', '.']);
            return true;
        }
        proof {
            if p@.subrange(i as int, i + 2) == seq!['.', '.'] {
                assert(p@.subrange(i as int, i + 2)[0] == p@[i as int]);
                assert(p@.subrange(i as int, i + 2)[1] == p@[i + 1]);
            }
        }
        i = i + 1;
    }
    assert forall|m: int| 0 <= m && m + 2 <= p@.len() implies !(#[trigger] p@.subrange(m, m + 2)
        == seq!['.', '.'] && (m == 0 || p@[m - 1] == '/') && (m + 2 == p@.len() || p@[m + 2]
        == '/')) by {
        assert(m < i);
    }
    false
}

/// Whether a `/`-separated path has a `..` segment.
pub fn has_parent_dir(path: &str) -> (r: bool)
    ensures
        r == has_parent_segment(path@),
{
    let p = chars_of(path);
    parent_segment_exec(&p)
}

/// ASCII lowercase of a character.
pub open spec fn ascii_lower(c: char) -> char {
    if 'A' <= c && c <= 'Z' {
        ((c as int) + 32) as char
    } else {
        c
    }
}

/// Two names equal but for ASCII letter case (`str::eq_ignore_ascii_case`).
pub open spec fn same_name(a: Seq<char>, b: Seq<char>) -> bool {
    a.len() == b.len() && forall|i: int| 0 <= i < a.len() ==> ascii_lower(a[i]) == ascii_lower(b[i])
}

fn ascii_lower_exec(c: char) -> (r: char)
    ensures
        r == ascii_lower(c),
{
    if 'A' <= c && c <= 'Z' {
        ((c as u8) + 32) as char
    } else {
        c
    }
}

/// Whether two player names are the same name (letter case aside).
pub fn same_player_name(a: &str, b: &str) -> (r: bool)
    ensures
        r == same_name(a@, b@),
{
    let x = chars_of(a);
    let y = chars_of(b);
    if x.len() != y.len() {
        return false;
    }
    let mut i: usize = 0;
    while i < x.len()
        invariant
            x@ == a@,
            y@ == b@,
            x@.len() == y@.len(),
            i <= x@.len(),
            forall|j: int| 0 <= j < i ==> ascii_lower(x@[j]) == ascii_lower(y@[j]),
        decreases x.len() - i,
    {
        if ascii_lower_exec(x[i]) != ascii_lower_exec(y[i]) {
            return false;
        }
        i = i + 1;
    }
    true
}

} // verus!
