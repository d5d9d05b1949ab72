//! Passwords (Argon2 for new hashes, the legacy crypt(3) formats still
//! accepted on login) and login cookies.

use argon2::password_hash::{PasswordHasher, PasswordVerifier};
use vstd::prelude::*;

use crate::error::WebtilesError;
use crate::numtext::{decimal, lemma_parse_decimal, parse_u128_exec, parse_uint, push_decimal};
use crate::text::{
    chars_of, contains_seq, find_chars, find_from, lemma_find_from, occurs_at, occurs_at_exec,
    push_all, same_text, slice_of, string_of,
};

verus! {

/// Whether `PasswordHash::new` (password-hash) accepts `phc` as a PHC
/// string.
pub uninterp spec fn argon2_parses(phc: Seq<char>) -> bool;

/// Whether `Argon2::default().verify_password` (argon2) accepts `password`
/// for the parsed PHC string `phc`.
pub uninterp spec fn argon2_verifies(password: Seq<char>, phc: Seq<char>) -> bool;

/// `pwhash::sha512_crypt::verify`.
pub uninterp spec fn sha512_crypt_verifies(password: Seq<char>, hash: Seq<char>) -> bool;

/// `pwhash::sha256_crypt::verify`.
pub uninterp spec fn sha256_crypt_verifies(password: Seq<char>, hash: Seq<char>) -> bool;

/// `pwhash::md5_crypt::verify`.
pub uninterp spec fn md5_crypt_verifies(password: Seq<char>, hash: Seq<char>) -> bool;

/// `pwhash::unix_crypt::verify` (traditional DES crypt).
pub uninterp spec fn unix_crypt_verifies(password: Seq<char>, hash: Seq<char>) -> bool;

/// Argon2 verification: `PasswordHash::new(phc)` then
/// `Argon2::default().verify_password(password, &parsed).is_ok()`. The
/// contract claims that the parse succeeds exactly where `argon2_parses`
/// says so, that a parsed hash gives `argon2_verifies`, and that a failed
/// parse hands back the parser's error text (its content is not stated).
#[verifier::external_body]
fn argon2_check(password: &str, phc: &str) -> (r: Result<bool, String>)
    ensures
        r is Ok <==> argon2_parses(phc@),
        r matches Ok(b) ==> b == argon2_verifies(password@, phc@),
{
    match argon2::password_hash::PasswordHash::new(phc) {
        Ok(parsed) => Ok(argon2::Argon2::default().verify_password(password.as_bytes(), &parsed).is_ok()),
        Err(e) => Err(e.to_string()),
    }
}

/// `pwhash::sha512_crypt::verify`: `false` on a malformed hash. pwhash
/// looks each salt character up in a 96-entry table at its code minus
/// 0x20: a control character overflows that subtraction (a panic in a
/// debug build) and U+0080 indexes past the table (a panic), so
/// `requires` keeps the hash within U+0020 to U+007F.
#[verifier::external_body]
fn sha512_crypt_check(password: &str, hash: &str) -> (r: bool)
    requires
        crypt_chars(hash@),
    ensures
        r == sha512_crypt_verifies(password@, hash@),
{
    pwhash::sha512_crypt::verify(password, hash)
}

/// `pwhash::sha256_crypt::verify`: `false` on a malformed hash. pwhash
/// looks each salt character up in a 96-entry table at its code minus
/// 0x20: a control character overflows that subtraction (a panic in a
/// debug build) and U+0080 indexes past the table (a panic), so
/// `requires` keeps the hash within U+0020 to U+007F.
#[verifier::external_body]
fn sha256_crypt_check(password: &str, hash: &str) -> (r: bool)
    requires
        crypt_chars(hash@),
    ensures
        r == sha256_crypt_verifies(password@, hash@),
{
    pwhash::sha256_crypt::verify(password, hash)
}

/// `pwhash::md5_crypt::verify`: `false` on a malformed hash.
/// pwhash looks each salt character up in a 96-entry table at its code
/// minus 0x20: a control character overflows that subtraction (a panic in
/// a debug build) and U+0080 indexes past the table (a panic), so
/// `requires` keeps the hash within U+0020 to U+007F.
#[verifier::external_body]
fn md5_crypt_check(password: &str, hash: &str) -> (r: bool)
    requires
        crypt_chars(hash@),
    ensures
        r == md5_crypt_verifies(password@, hash@),
{
    pwhash::md5_crypt::verify(password, hash)
}

/// `pwhash::unix_crypt::verify` (traditional DES crypt,
/// whose salt is the first two characters): `false` on a malformed hash.
/// pwhash looks each salt character up in a 96-entry table at its code
/// minus 0x20: a control character overflows that subtraction (a panic in
/// a debug build) and U+0080 indexes past the table (a panic), so
/// `requires` keeps the hash within U+0020 to U+007F.
#[verifier::external_body]
fn unix_crypt_check(password: &str, hash: &str) -> (r: bool)
    requires
        crypt_chars(hash@),
    ensures
        r == unix_crypt_verifies(password@, hash@),
{
    pwhash::unix_crypt::verify(password, hash)
}

/// A fresh Argon2id hash of `password` with a random salt
/// (`SaltString::generate(&mut OsRng)` then
/// `Argon2::default().hash_password`, as a PHC string). The salt is
/// random, so the hash itself is not named; what holds of every success
/// is stated: it is a PHC string of the `argon2id` algorithm
/// (`Argon2::default()` uses Argon2id, and the PHC form starts with `$`,
/// the algorithm's name, then `$`), `PasswordHash::new` reads it back,
/// and `verify_password` accepts `password` against it (the round trip
/// that password-hash's `PasswordHasher` / `PasswordVerifier` pair is for).
/// An error hands back the hasher's error text.
#[verifier::external_body]
fn argon2_hash_new(password: &str) -> (r: Result<String, String>)
    ensures
        r matches Ok(h) ==> fresh_hash_of(h@, password@),
{
    let salt = argon2::password_hash::SaltString::generate(&mut rand::rngs::OsRng);
    match argon2::Argon2::default().hash_password(password.as_bytes(), &salt) {
        Ok(h) => Ok(h.to_string()),
        Err(e) => Err(e.to_string()),
    }
}

/// `h` is an Argon2id PHC string made from `password`: it parses, and
/// `password` verifies against it.
pub open spec fn fresh_hash_of(h: Seq<char>, password: Seq<char>) -> bool {
    &&& occurs_at(h, "$argon2id$"@, 0)
    &&& argon2_parses(h)
    &&& argon2_verifies(password, h)
}

/// Every character is printable ASCII or DEL (U+0020 to U+007F), the
/// range pwhash's 96-entry decoding table covers.
pub open spec fn crypt_chars(s: Seq<char>) -> bool {
    forall|i: int| 0 <= i < s.len() ==> 0x20 <= (#[trigger] s[i] as u32) < 0x80
}

fn crypt_chars_exec(s: &Vec<char>) -> (r: bool)
    ensures
        r == crypt_chars(s@),
{
    let mut i: usize = 0;
    while i < s.len()
        invariant
            i <= s@.len(),
            forall|k: int| 0 <= k < i ==> 0x20 <= (#[trigger] s@[k] as u32) < 0x80,
        decreases s.len() - i,
    {
        let c = s[i] as u32;
        if c < 0x20 || c >= 0x80 {
            return false;
        }
        i = i + 1;
    }
    true
}

/// A stored hash in the Argon2 PHC form.
pub open spec fn is_argon2_hash(h: Seq<char>) -> bool {
    occurs_at(h, "$argon2"@, 0)
}

/// What the legacy crypt(3) schemes say of `password` against `hash`,
/// chosen by the hash's `$id$` prefix (`$6$` SHA-512, `$5$` SHA-256, `$1$`
/// MD5, none: traditional DES). A hash holding a character outside U+0020
/// to U+007F verifies nothing: no scheme writes one, and pwhash cannot
/// read a salt holding one.
pub open spec fn legacy_verifies(password: Seq<char>, hash: Seq<char>) -> bool {
    if !crypt_chars(hash) {
        false
    } else if occurs_at(hash, "$6$"@, 0) {
        sha512_crypt_verifies(password, hash)
    } else if occurs_at(hash, "$5$"@, 0) {
        sha256_crypt_verifies(password, hash)
    } else if occurs_at(hash, "$1$"@, 0) {
        md5_crypt_verifies(password, hash)
    } else {
        unix_crypt_verifies(password, hash)
    }
}

fn verify_legacy_crypt(password: &str, stored_hash: &str) -> (r: bool)
    ensures
        r == legacy_verifies(password@, stored_hash@),
{
    let h = chars_of(stored_hash);
    if !crypt_chars_exec(&h) {
        return false;
    }
    let p6 = chars_of("$6$");
    let p5 = chars_of("$5$");
    let p1 = chars_of("$1$");
    if occurs_at_exec(&h, p6.as_slice(), 0) {
        sha512_crypt_check(password, stored_hash)
    } else if occurs_at_exec(&h, p5.as_slice(), 0) {
        sha256_crypt_check(password, stored_hash)
    } else if occurs_at_exec(&h, p1.as_slice(), 0) {
        md5_crypt_check(password, stored_hash)
    } else {
        unix_crypt_check(password, stored_hash)
    }
}

/// A hash that is not Argon2 should be replaced by a fresh Argon2 hash the
/// next time its password is verified.
pub fn needs_rehash(stored_hash: &str) -> (r: bool)
    ensures
        r == !is_argon2_hash(stored_hash@),
{
    let h = chars_of(stored_hash);
    let p = chars_of("$argon2");
    !occurs_at_exec(&h, p.as_slice(), 0)
}

/// Checks `password` against a stored hash of any supported format: an
/// Argon2 PHC string must parse (else an `Auth` error) and is then
/// verified; any other hash goes to the legacy crypt schemes.
pub fn verify_password(password: &str, stored_hash: &str) -> (r: Result<bool, WebtilesError>)
    ensures
        is_argon2_hash(stored_hash@) ==> {
            &&& (r is Ok <==> argon2_parses(stored_hash@))
            &&& (r matches Ok(b) ==> b == argon2_verifies(password@, stored_hash@))
            &&& (r is Err ==> r matches Err(WebtilesError::Auth(_)))
        },
        !is_argon2_hash(stored_hash@) ==> r == Ok::<bool, WebtilesError>(
            legacy_verifies(password@, stored_hash@),
        ),
{
    if !needs_rehash(stored_hash) {
        match argon2_check(password, stored_hash) {
            Ok(b) => Ok(b),
            Err(e) => {
                let mut m = String::from_str("corrupt password hash: ");
                m.append(e.as_str());
                Err(WebtilesError::Auth(m))
            },
        }
    } else {
        Ok(verify_legacy_crypt(password, stored_hash))
    }
}

/// Hashes a new or changed password: always Argon2id, so the result never
/// needs a rehash, and the password verifies against it.
pub fn hash_password(password: &str) -> (r: Result<String, WebtilesError>)
    ensures
        r matches Ok(h) ==> fresh_hash_of(h@, password@) && is_argon2_hash(h@),
        r is Err ==> r matches Err(WebtilesError::Auth(_)),
{
    match argon2_hash_new(password) {
        Ok(h) => {
            proof {
                lemma_own_hash_verifies(password@, h@);
            }
            Ok(h)
        },
        Err(e) => {
            let mut m = String::from_str("failed to hash password: ");
            m.append(e.as_str());
            Err(WebtilesError::Auth(m))
        },
    }
}

/// A password verifies against its own fresh hash, and that hash needs no
/// rehash: for an `h` that `hash_password(password)` returns, the Argon2
/// branch of `verify_password(password, h)` is taken, the hash parses, and
/// the answer is `true`.
pub proof fn lemma_own_hash_verifies(password: Seq<char>, h: Seq<char>)
    requires
        fresh_hash_of(h, password),
    ensures
        is_argon2_hash(h),
        argon2_parses(h),
        argon2_verifies(password, h),
{
    reveal_strlit("$argon2id$");
    reveal_strlit("$argon2");
    assert(h.subrange(0, 7) =~= "$argon2"@) by {
        assert forall|k: int| 0 <= k < 7 implies h.subrange(0, 7)[k] == "$argon2"@[k] by {
            assert(h.subrange(0, 7)[k] == h.subrange(0, 10)[k]);
        }
    }
}

/// The login cookie of a token: the user name, `%20`, then the token in
/// decimal.
pub open spec fn cookie_text(username: Seq<char>, token: u128) -> Seq<char> {
    username + "%20"@ + decimal(token as nat)
}

/// A login cookie read back: the text before the first `%20` is the user
/// name, the rest must read as a `u128` token.
pub open spec fn cookie_fields(cookie: Seq<char>) -> Option<(Seq<char>, int)> {
    match find_from(cookie, "%20"@, 0) {
        Some(i) => match parse_uint(cookie.subrange(i + 3, cookie.len() as int), u128::MAX as int) {
            Some(t) => Some((cookie.subrange(0, i), t)),
            None => None,
        },
        None => None,
    }
}

/// Reads a login cookie (see [`cookie_fields`]).
pub fn parse_cookie(cookie: &str) -> (r: Option<(String, u128)>)
    ensures
        match r {
            Some((u, t)) => cookie_fields(cookie@) == Some((u@, t as int)),
            None => cookie_fields(cookie@) is None,
        },
{
    proof {
        reveal_strlit("%20");
    }
    let c = chars_of(cookie);
    let sep = chars_of("%20");
    proof {
        lemma_find_from(c@, sep@, 0);
    }
    assert(sep@.len() == 3);
    match find_chars(&c, sep.as_slice(), 0) {
        Some(i) => {
            assert(i + 3 <= c@.len());
            assert(i + 3 <= c.len());
            let rest = slice_of(&c, i + 3, c.len());
            match parse_u128_exec(&rest) {
                Some(t) => Some((string_of(&slice_of(&c, 0, i)), t)),
                None => None,
            }
        },
        None => None,
    }
}

/// The cookie that carries `token` for `username`.
pub fn format_cookie(username: &str, token: u128) -> (r: String)
    ensures
        r@ == cookie_text(username@, token),
{
    let mut v = chars_of(username);
    let sep = chars_of("%20");
    push_all(&mut v, &sep);
    push_decimal_u128(&mut v, token);
    string_of(&v)
}

fn push_decimal_u128(out: &mut Vec<char>, n: u128)
    ensures
        final(out)@ == old(out)@ + decimal(n as nat),
    decreases n,
{
    if n < 10 {
        push_decimal(out, n as u64);
    } else {
        push_decimal_u128(out, n / 10);
        push_decimal(out, (n % 10) as u64);
        assert(decimal((n % 10) as nat) =~= seq![crate::numtext::digits()[(n % 10) as int]]);
        assert(old(out)@ + decimal(n as nat) =~= old(out)@ + decimal((n / 10) as nat) + decimal(
            (n % 10) as nat,
        ));
    }
}

/// A cookie reads back as the user name and token it was made from, for
/// user names without `%20` in them.
pub proof fn lemma_cookie_round_trip(username: Seq<char>, token: u128)
    requires
        !contains_seq(username, "%20"@),
    ensures
        cookie_fields(cookie_text(username, token)) == Some((username, token as int)),
{
    reveal_strlit("%20");
    let sep = "%20"@;
    let c = cookie_text(username, token);
    let n = username.len() as int;
    lemma_find_from(c, sep, 0);
    lemma_find_from(username, sep, 0);
    assert(c.subrange(n, n + 3) =~= sep);
    assert(occurs_at(c, sep, n));
    let i = find_from(c, sep, 0)->0;
    assert(c[n] == '%');
    if i < n {
        assert(c.subrange(i, i + 3)[0] == '%');
        assert(c.subrange(i, i + 3)[1] == '2');
        assert(c.subrange(i, i + 3)[2] == '0');
        if i + 3 <= n {
            assert(c.subrange(i, i + 3) =~= username.subrange(i, i + 3));
            assert(occurs_at(username, sep, i));
        } else if i == n - 1 {
            assert(c[i + 1] == '%');
        } else {
            assert(c[i + 2] == '%');
        }
    }
    assert(i == n);
    assert(c.subrange(0, n) =~= username);
    assert(c.subrange(n + 3, c.len() as int) =~= decimal(token as nat));
    lemma_parse_decimal(token as nat, u128::MAX as int);
}

/// A login token's key: the token and the user name it was issued to.
pub type TokenKey = (u128, Seq<char>);

/// The key of a stored token entry.
pub open spec fn entry_key(e: (u128, Seq<char>, u64)) -> TokenKey {
    (e.0, e.1)
}

/// `s` without the entries for key `k`.
pub open spec fn without_key(s: Seq<(u128, Seq<char>, u64)>, k: TokenKey) -> Seq<(u128, Seq<char>, u64)>
    decreases s.len(),
{
    if s.len() == 0 {
        s
    } else {
        without_key(s.drop_last(), k) + if entry_key(s.last()) == k {
            Seq::empty()
        } else {
            seq![s.last()]
        }
    }
}

/// The expiry stored for key `k` (the latest entry for it).
pub open spec fn expiry_of(s: Seq<(u128, Seq<char>, u64)>, k: TokenKey) -> Option<u64>
    decreases s.len(),
{
    if s.len() == 0 {
        None
    } else if entry_key(s.last()) == k {
        Some(s.last().2)
    } else {
        expiry_of(s.drop_last(), k)
    }
}

/// The login tokens that are live: each a token, the user it was issued
/// to, and when it expires (in milliseconds of the caller's monotonic
/// clock). Each key is held once; a token is used up when consumed.
pub struct LoginTokenStore {
    tokens: Vec<(u128, String, u64)>,
}

impl View for LoginTokenStore {
    type V = Seq<(u128, Seq<char>, u64)>;

    closed spec fn view(&self) -> Seq<(u128, Seq<char>, u64)> {
        self.tokens@.map_values(|e: (u128, String, u64)| (e.0, e.1@, e.2))
    }
}

/// A random 128-bit token (`rand::Rng::gen` on `rand::thread_rng()`).
/// Nothing is stated of the value: it is random.
#[verifier::external_body]
fn random_token() -> u128 {
    rand::Rng::gen(&mut rand::thread_rng())
}

impl LoginTokenStore {
    pub fn new() -> (r: Self)
        ensures
            r@ == Seq::<(u128, Seq<char>, u64)>::empty(),
    {
        let r = LoginTokenStore { tokens: Vec::new() };
        assert(r@ =~= Seq::<(u128, Seq<char>, u64)>::empty());
        r
    }

    /// Drops the entries for `k`.
    fn remove_key(&mut self, token: u128, username: &String)
        ensures
            final(self)@ == without_key(old(self)@, (token, username@)),
    {
        let ghost k = (token, username@);
        let ghost s = self@;
        let mut kept: Vec<(u128, String, u64)> = Vec::new();
        let mut i: usize = 0;
        while i < self.tokens.len()
            invariant
                s == self@,
                k == (token, username@),
                self@ == self.tokens@.map_values(|e: (u128, String, u64)| (e.0, e.1@, e.2)),
                i <= self.tokens@.len(),
                kept@.map_values(|e: (u128, String, u64)| (e.0, e.1@, e.2)) == without_key(
                    s.take(i as int),
                    k,
                ),
            decreases self.tokens.len() - i,
        {
            let ghost before = kept@;
            assert(s.take(i + 1).drop_last() =~= s.take(i as int));
            assert(s[i as int] == (self.tokens@[i as int].0, self.tokens@[i as int].1@, self.tokens@[i as int].2));
            let same = self.tokens[i].0 == token && same_text(self.tokens[i].1.as_str(), username.as_str());
            if !same {
                let e = (self.tokens[i].0, self.tokens[i].1.clone(), self.tokens[i].2);
                kept.push(e);
                assert(kept@.map_values(|e: (u128, String, u64)| (e.0, e.1@, e.2)) =~= before.map_values(
                    |e: (u128, String, u64)| (e.0, e.1@, e.2),
                ).push(s[i as int]));
            } else {
                assert(entry_key(s[i as int]) == k);
            }
            assert(kept@.map_values(|e: (u128, String, u64)| (e.0, e.1@, e.2)) =~= without_key(
                s.take(i + 1),
                k,
            ));
            i = i + 1;
        }
        assert(s.take(s.len() as int) =~= s);
        self.tokens = kept;
    }

    /// Stores a token for `username` expiring at `expires`, replacing any
    /// entry with the same key.
    fn insert(&mut self, token: u128, username: String, expires: u64)
        ensures
            final(self)@ == without_key(old(self)@, (token, username@)).push(
                (token, username@, expires),
            ),
    {
        self.remove_key(token, &username);
        let ghost before = self.tokens@;
        self.tokens.push((token, username, expires));
        assert(self@ =~= before.map_values(|e: (u128, String, u64)| (e.0, e.1@, e.2)).push(
            (token, self.tokens@.last().1@, expires),
        ));
    }

    /// Issues a fresh random token for `username`, valid until `now` plus
    /// `lifetime`, and returns its cookie.
    pub fn issue(&mut self, username: &str, now: u64, lifetime: u64) -> (r: String)
        requires
            now + lifetime <= u64::MAX,
        ensures
            exists|t: u128|
                r@ == #[trigger] cookie_text(username@, t) && final(self)@ == without_key(
                    old(self)@,
                    (t, username@),
                ).push((t, username@, (now + lifetime) as u64)),
    {
        let token = random_token();
        self.insert(token, String::from_str(username), now + lifetime);
        format_cookie(username, token)
    }

    /// The latest entry for a key, searched from the end.
    fn find(&self, token: u128, username: &String) -> (r: Option<u64>)
        ensures
            r == expiry_of(self@, (token, username@)),
    {
        let ghost k = (token, username@);
        let ghost s = self@;
        let mut i: usize = self.tokens.len();
        assert(s.take(s.len() as int) =~= s);
        while i > 0
            invariant
                s == self@,
                k == (token, username@),
                s == self.tokens@.map_values(|e: (u128, String, u64)| (e.0, e.1@, e.2)),
                i <= s.len(),
                expiry_of(s, k) == expiry_of(s.take(i as int), k),
            decreases i,
        {
            assert(s.take(i as int).drop_last() =~= s.take(i - 1));
            assert(s[i - 1] == (self.tokens@[i - 1].0, self.tokens@[i - 1].1@, self.tokens@[i - 1].2));
            if self.tokens[i - 1].0 == token && same_text(self.tokens[i - 1].1.as_str(), username.as_str()) {
                return Some(self.tokens[i - 1].2);
            }
            i = i - 1;
        }
        None
    }

    /// Logs in with a cookie: a stored, unexpired token gives its user
    /// name. A stored token is used up either way; a cookie that does not
    /// read, or names no stored token, changes nothing.
    pub fn consume(&mut self, cookie: &str, now: u64) -> (r: Option<String>)
        ensures
            match cookie_fields(cookie@) {
                None => r is None && final(self)@ == old(self)@,
                Some((u, t)) => match expiry_of(old(self)@, (t as u128, u)) {
                    None => r is None && final(self)@ == old(self)@,
                    Some(exp) => final(self)@ == without_key(old(self)@, (t as u128, u)) && if now
                        <= exp {
                        r matches Some(name) && name@ == u
                    } else {
                        r is None
                    },
                },
            },
    {
        let (username, token) = match parse_cookie(cookie) {
            Some(x) => x,
            None => return None,
        };
        match self.find(token, &username) {
            None => None,
            Some(exp) => {
                self.remove_key(token, &username);
                if now <= exp {
                    Some(username)
                } else {
                    None
                }
            },
        }
    }

    /// Forgets a cookie's token without checking it.
    pub fn forget(&mut self, cookie: &str)
        ensures
            match cookie_fields(cookie@) {
                None => final(self)@ == old(self)@,
                Some((u, t)) => final(self)@ == without_key(old(self)@, (t as u128, u)),
            },
    {
        if let Some((username, token)) = parse_cookie(cookie) {
            self.remove_key(token, &username);
        }
    }

    /// Drops every token that has expired by `now`.
    pub fn purge_expired(&mut self, now: u64)
        ensures
            final(self)@ == old(self)@.filter(|e: (u128, Seq<char>, u64)| e.2 > now),
    {
        let ghost s = self@;
        let mut kept: Vec<(u128, String, u64)> = Vec::new();
        let mut i: usize = 0;
        while i < self.tokens.len()
            invariant
                s == self@,
                s == self.tokens@.map_values(|e: (u128, String, u64)| (e.0, e.1@, e.2)),
                i <= s.len(),
                kept@.map_values(|e: (u128, String, u64)| (e.0, e.1@, e.2)) == s.take(i as int).filter(
                    |e: (u128, Seq<char>, u64)| e.2 > now,
                ),
            decreases self.tokens.len() - i,
        {
            let ghost before = kept@;
            proof {
                let f = |e: (u128, Seq<char>, u64)| e.2 > now;
                assert(s.take(i + 1) =~= s.take(i as int).push(s[i as int]));
                s.take(i as int).lemma_filter_push(s[i as int], f);
            }
            assert(s[i as int] == (self.tokens@[i as int].0, self.tokens@[i as int].1@, self.tokens@[i as int].2));
            if self.tokens[i].2 > now {
                let e = (self.tokens[i].0, self.tokens[i].1.clone(), self.tokens[i].2);
                kept.push(e);
                assert(kept@.map_values(|e: (u128, String, u64)| (e.0, e.1@, e.2)) =~= before.map_values(
                    |e: (u128, String, u64)| (e.0, e.1@, e.2),
                ).push(s[i as int]));
            }
            i = i + 1;
        }
        assert(s.take(s.len() as int) =~= s);
        self.tokens = kept;
    }
}

/// Without its entries, a key has no expiry.
pub proof fn lemma_without_key_forgets(s: Seq<(u128, Seq<char>, u64)>, k: TokenKey)
    ensures
        expiry_of(without_key(s, k), k) is None,
    decreases s.len(),
{
    if s.len() > 0 {
        lemma_without_key_forgets(s.drop_last(), k);
        let w = without_key(s.drop_last(), k);
        if entry_key(s.last()) != k {
            assert(without_key(s, k) =~= w.push(s.last()));
            assert(without_key(s, k).drop_last() =~= w);
        } else {
            assert(without_key(s, k) =~= w);
        }
    }
}

/// Removing one key (consuming or forgetting its token) leaves every other
/// key's expiry as it was.
pub proof fn lemma_without_key_spares_others(s: Seq<(u128, Seq<char>, u64)>, k: TokenKey, k2: TokenKey)
    requires
        k2 != k,
    ensures
        expiry_of(without_key(s, k), k2) == expiry_of(s, k2),
    decreases s.len(),
{
    if s.len() > 0 {
        lemma_without_key_spares_others(s.drop_last(), k, k2);
        let w = without_key(s.drop_last(), k);
        if entry_key(s.last()) != k {
            assert(without_key(s, k) =~= w.push(s.last()));
            assert(without_key(s, k).drop_last() =~= w);
        } else {
            assert(without_key(s, k) =~= w);
        }
    }
}

/// Issuing a token (what [`LoginTokenStore::issue`] does to the store)
/// leaves every other key's expiry as it was: a user's earlier token stays
/// valid when another token is issued to the same user.
pub proof fn lemma_issue_spares_others(
    s: Seq<(u128, Seq<char>, u64)>,
    k: TokenKey,
    exp: u64,
    k2: TokenKey,
)
    requires
        k2 != k,
    ensures
        expiry_of(without_key(s, k).push((k.0, k.1, exp)), k2) == expiry_of(s, k2),
{
    let t = without_key(s, k).push((k.0, k.1, exp));
    assert(t.drop_last() =~= without_key(s, k));
    assert(entry_key(t.last()) == k);
    lemma_without_key_spares_others(s, k, k2);
}

/// A token is good for one login: right after it is issued it has the
/// expiry it was issued with, and once consumed (or forgotten) it has
/// none, so the same cookie cannot log in twice.
pub proof fn lemma_token_single_use(s: Seq<(u128, Seq<char>, u64)>, k: TokenKey, exp: u64)
    ensures
        expiry_of(without_key(s, k).push((k.0, k.1, exp)), k) == Some(exp),
        expiry_of(without_key(without_key(s, k).push((k.0, k.1, exp)), k), k) is None,
{
    let t = without_key(s, k).push((k.0, k.1, exp));
    assert(t.drop_last() =~= without_key(s, k));
    lemma_without_key_forgets(t, k);
}

/// How long a login token lasts, in milliseconds, for a lifetime in days
/// (a negative count counts as none); `None` when it does not fit in a
/// `u64`.
pub fn login_token_lifetime_ms(days: i64) -> (r: Option<u64>)
    ensures
        days <= 0 ==> r == Some(0u64),
        days > 0 && days * 86_400_000 <= u64::MAX ==> r == Some((days * 86_400_000) as u64),
        days > 0 && days * 86_400_000 > u64::MAX ==> r is None,
{
    if days <= 0 {
        return Some(0);
    }
    let d = days as u64;
    d.checked_mul(86_400_000)
}

} // verus!
