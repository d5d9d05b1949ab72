//! Accounts: the flags (the dgamelaunch bit layout), checking a login
//! against an account's stored row, and the per-user settings text kept
//! beside the accounts, the space-separated block list.

use vstd::prelude::*;

use crate::auth::{
    argon2_parses, argon2_verifies, is_argon2_hash, legacy_verifies, needs_rehash, verify_password,
};
use crate::codec::join;
use crate::config::strings_view;
use crate::error::WebtilesError;
use crate::process::rfind_char;
use crate::text::{chars_of, push_all, string_chars, string_of};

verus! {

pub const DGLACCT_ADMIN: i64 = 1;

pub const DGLACCT_LOGIN_LOCK: i64 = 2;

pub const DGLACCT_PASSWD_LOCK: i64 = 4;

pub const DGLACCT_EMAIL_LOCK: i64 = 8;

pub const DGLACCT_ACCOUNT_HOLD: i64 = 16;

pub const DGLACCT_WIZARD: i64 = 32;

pub const DGLACCT_BOT: i64 = 64;

pub open spec fn has_flag(flags: i64, bit: i64) -> bool {
    flags & bit != 0
}

pub fn is_admin(flags: i64) -> (r: bool)
    ensures
        r == has_flag(flags, DGLACCT_ADMIN),
{
    flags & DGLACCT_ADMIN != 0
}

pub fn is_account_hold(flags: i64) -> (r: bool)
    ensures
        r == has_flag(flags, DGLACCT_ACCOUNT_HOLD),
{
    flags & DGLACCT_ACCOUNT_HOLD != 0
}

/// Banned: the login lock is set and the account is not merely on hold
/// (a hold sets the login lock too).
pub fn is_banned(flags: i64) -> (r: bool)
    ensures
        r == (has_flag(flags, DGLACCT_LOGIN_LOCK) && !has_flag(flags, DGLACCT_ACCOUNT_HOLD)),
{
    (flags & DGLACCT_LOGIN_LOCK != 0) && !is_account_hold(flags)
}

/// An account held is never banned.
pub proof fn lemma_hold_is_not_ban(flags: i64)
    requires
        has_flag(flags, DGLACCT_ACCOUNT_HOLD),
    ensures
        !(has_flag(flags, DGLACCT_LOGIN_LOCK) && !has_flag(flags, DGLACCT_ACCOUNT_HOLD)),
{
}

/// The flags of an account after setting the bits of `mask` to those of
/// `flags`.
pub fn merge_flags(old: i64, flags: i64, mask: i64) -> (r: i64)
    ensures
        r == (old & !mask) | (flags & mask),
        r & mask == flags & mask,
        r & !mask == old & !mask,
{
    let r = (old & !mask) | (flags & mask);
    assert(r & mask == flags & mask && r & !mask == old & !mask) by (bit_vector)
        requires
            r == (old & !mask) | (flags & mask),
    ;
    r
}

#[derive(Debug, Clone, PartialEq)]
pub struct UserInfo {
    pub id: i64,
    pub username: String,
    pub email: Option<String>,
    pub flags: i64,
}

/// The non-empty pieces of `s` between spaces (`str::split(' ')` with the
/// empty pieces dropped), in order.
pub open spec fn words(s: Seq<char>) -> Seq<Seq<char>>
    decreases s.len(),
{
    match rfind_char(s, ' ') {
        None => if s.len() > 0 {
            seq![s]
        } else {
            Seq::empty()
        },
        Some(j) => {
            let tail = s.subrange(j + 1, s.len() as int);
            if 0 <= j < s.len() {
                words(s.take(j)) + if tail.len() > 0 {
                    seq![tail]
                } else {
                    Seq::empty()
                }
            } else {
                Seq::empty()
            }
        },
    }
}

/// `rfind_char` finds `c` at `k` when `c` stands there and nowhere after.
pub proof fn lemma_rfind_at(s: Seq<char>, c: char, k: int)
    requires
        0 <= k < s.len(),
        s[k] == c,
        forall|m: int| k < m < s.len() ==> s[m] != c,
    ensures
        rfind_char(s, c) == Some(k),
    decreases s.len(),
{
    if s.last() != c {
        lemma_rfind_at(s.drop_last(), c, k);
    }
}

/// `rfind_char` finds nothing where `c` does not occur.
pub proof fn lemma_rfind_none(s: Seq<char>, c: char)
    requires
        forall|m: int| 0 <= m < s.len() ==> s[m] != c,
    ensures
        rfind_char(s, c) is None,
    decreases s.len(),
{
    if s.len() > 0 {
        lemma_rfind_none(s.drop_last(), c);
    }
}

/// The words of `s` up to `i`, where the last space before `i` is just
/// before `start` (or there is none and `start` is 0).
proof fn lemma_words_prefix(s: Seq<char>, start: int, i: int)
    requires
        0 <= start <= i <= s.len(),
        start == 0 || s[start - 1] == ' ',
        forall|m: int| start <= m < i ==> s[m] != ' ',
    ensures
        words(s.take(i)) == (if start == 0 {
            Seq::<Seq<char>>::empty()
        } else {
            words(s.take(start - 1))
        }) + if i > start {
            seq![s.subrange(start, i)]
        } else {
            Seq::<Seq<char>>::empty()
        },
{
    let t = s.take(i);
    if start == 0 {
        lemma_rfind_none(t, ' ');
        if i > 0 {
            assert(t =~= s.subrange(0, i));
        }
        assert(words(t) == (if i > start {
            seq![s.subrange(start, i)]
        } else {
            Seq::<Seq<char>>::empty()
        }));
    } else {
        lemma_rfind_at(t, ' ', start - 1);
        assert(t.take(start - 1) =~= s.take(start - 1));
        assert(t.subrange(start, t.len() as int) =~= s.subrange(start, i));
    }
}

/// The block list stored as text: the names between spaces.
pub fn parse_blocklist(raw: Option<&str>) -> (r: Vec<String>)
    ensures
        strings_view(r@) == match raw {
            Some(s) => words(s@),
            None => Seq::<Seq<char>>::empty(),
        },
{
    let text = match raw {
        Some(s) => chars_of(s),
        None => Vec::new(),
    };
    let ghost s = text@;
    let mut out: Vec<String> = Vec::new();
    let mut cur: Vec<char> = Vec::new();
    let mut start: usize = 0;
    let mut i: usize = 0;
    while i < text.len()
        invariant
            s == text@,
            0 <= start <= i <= s.len(),
            start == 0 || s[start - 1] == ' ',
            forall|m: int| start <= m < i ==> s[m] != ' ',
            cur@ == s.subrange(start as int, i as int),
            strings_view(out@) == if start == 0 {
                Seq::<Seq<char>>::empty()
            } else {
                words(s.take(start - 1))
            },
        decreases text.len() - i,
    {
        let c = text[i];
        if c == ' ' {
            proof {
                lemma_words_prefix(s, start as int, i as int);
            }
            if cur.len() > 0 {
                let ghost before = out@;
                out.push(string_of(&cur));
                assert(strings_view(out@) =~= strings_view(before).push(cur@));
            }
            cur = Vec::new();
            start = i + 1;
            assert(s.take(start - 1) =~= s.take(i as int));
            assert(cur@ =~= s.subrange(start as int, start as int));
        } else {
            cur.push(c);
            assert(cur@ =~= s.subrange(start as int, i + 1));
        }
        i = i + 1;
    }
    proof {
        lemma_words_prefix(s, start as int, i as int);
        assert(s.take(i as int) =~= s);
    }
    if cur.len() > 0 {
        let ghost before = out@;
        out.push(string_of(&cur));
        assert(strings_view(out@) =~= strings_view(before).push(cur@));
    }
    assert(strings_view(out@) =~= words(s));
    out
}

/// The block list as stored: the names joined by single spaces.
pub fn format_blocklist(list: &[String]) -> (r: String)
    ensures
        r@ == join(strings_view(list@), " "@),
{
    let ghost q = strings_view(list@);
    let mut out: Vec<char> = Vec::new();
    let mut i: usize = 0;
    while i < list.len()
        invariant
            q == strings_view(list@),
            i <= list@.len(),
            out@ == join(q.take(i as int), " "@),
        decreases list.len() - i,
    {
        if i > 0 {
            out.push(' ');
        }
        let item = string_chars(&list[i]);
        push_all(&mut out, &item);
        proof {
            reveal_strlit(" ");
            let t = q.take(i + 1);
            assert(t.drop_last() =~= q.take(i as int));
            if i == 0 {
                assert(join(q.take(0), " "@) =~= Seq::<char>::empty());
            }
            assert(out@ =~= join(t, " "@));
        }
        i = i + 1;
    }
    assert(q.take(q.len() as int) =~= q);
    string_of(&out)
}

/// Storing a block list of plain names and reading it back gives the same
/// names in the same order.
pub proof fn lemma_blocklist_round_trip(q: Seq<Seq<char>>)
    requires
        forall|k: int| 0 <= k < q.len() ==> #[trigger] q[k].len() > 0,
        forall|k: int, m: int| 0 <= k < q.len() && 0 <= m < q[k].len() ==> #[trigger] q[k][m] != ' ',
    ensures
        words(join(q, " "@)) == q,
    decreases q.len(),
{
    reveal_strlit(" ");
    if q.len() == 0 {
        lemma_rfind_none(join(q, " "@), ' ');
    } else if q.len() == 1 {
        assert(forall|m: int| 0 <= m < q[0].len() ==> q[0][m] != ' ');
        lemma_rfind_none(q[0], ' ');
        assert(words(q[0]) == seq![q[0]]);
        assert(seq![q[0]] =~= q);
    } else {
        let p = q.drop_last();
        let a = join(p, " "@);
        let b = q.last();
        assert(forall|m: int| 0 <= m < b.len() ==> b[m] != ' ') by {
            assert forall|m: int| 0 <= m < b.len() implies b[m] != ' ' by {
                assert(q[q.len() - 1][m] != ' ');
            }
        }
        lemma_blocklist_round_trip(p);
        let s = a + " "@ + b;
        assert(join(q, " "@) == s);
        lemma_rfind_at(s, ' ', a.len() as int);
        assert(s.take(a.len() as int) =~= a);
        assert(s.subrange(a.len() + 1int, s.len() as int) =~= b);
        assert(words(s) =~= p.push(b));
        assert(p.push(b) =~= q);
    }
}

/// What a stored password hash says of a password: `None` when the hash
/// is an Argon2 PHC string that does not parse, else whether it accepts
/// the password.
pub open spec fn password_accepts(password: Seq<char>, hash: Seq<char>) -> Option<bool> {
    if is_argon2_hash(hash) {
        if argon2_parses(hash) {
            Some(argon2_verifies(password, hash))
        } else {
            None
        }
    } else {
        Some(legacy_verifies(password, hash))
    }
}

/// The part of a password that counts: its first `max_len` characters
/// (the legacy password-length limit applies before hashing and before
/// checking).
pub open spec fn counted_password(pw: Seq<char>, max_len: nat) -> Seq<char> {
    if pw.len() > max_len {
        pw.take(max_len as int)
    } else {
        pw
    }
}

/// Cuts a password to the length that counts (see [`counted_password`]).
pub fn truncate_password(pw: &str, max_len: usize) -> (r: String)
    ensures
        r@ == counted_password(pw@, max_len as nat),
{
    let v = chars_of(pw);
    if v.len() > max_len {
        let mut out: Vec<char> = Vec::new();
        let mut i: usize = 0;
        while i < max_len
            invariant
                i <= max_len < v@.len(),
                out@ == v@.take(i as int),
            decreases max_len - i,
        {
            out.push(v[i]);
            assert(out@ =~= v@.take(i + 1));
            i = i + 1;
        }
        string_of(&out)
    } else {
        String::from_str(pw)
    }
}

/// The flags to store when an admin sets the bits of `mask` to those of
/// `flags` on an account whose current flags are `current` (`None`: no
/// such account, an `Auth` error "Invalid username!").
pub fn flags_update(current: Option<i64>, flags: i64, mask: i64) -> (r: Result<i64, WebtilesError>)
    ensures
        current is None ==> (r matches Err(WebtilesError::Auth(m)) && m@ == "Invalid username!"@),
        current matches Some(old) ==> r == Ok::<i64, WebtilesError>((old & !mask) | (flags & mask)),
{
    match current {
        None => Err(WebtilesError::Auth(String::from_str("Invalid username!"))),
        Some(old) => Ok(merge_flags(old, flags, mask)),
    }
}

/// The outcome of a login attempt against an account's stored row.
pub enum PasswordCheck {
    /// No account of that name.
    UnknownUser,
    /// The account is banned; `reason` is shown to the user.
    Disabled { username: String, reason: String },
    /// The password does not match.
    Wrong,
    /// The password matches; `rehash` asks for the stored hash to be
    /// replaced by a fresh Argon2 hash (it is in a legacy format).
    Accepted { username: String, rehash: bool },
}

/// Checks a login against an account's stored (user name, hash, flags):
/// an unknown user and a wrong password fail; a banned account fails with
/// a reason, whatever the password; a stored Argon2 hash that does not
/// parse is an `Auth` error. Only the first `max_len` characters of the
/// password count.
pub fn check_stored_password(
    row: Option<(String, String, i64)>,
    password: &str,
    max_len: usize,
) -> (r: Result<
    PasswordCheck,
    WebtilesError,
>)
    ensures
        row is None ==> r matches Ok(PasswordCheck::UnknownUser),
        row matches Some((u, h, f)) ==> {
            if has_flag(f, DGLACCT_LOGIN_LOCK) && !has_flag(f, DGLACCT_ACCOUNT_HOLD) {
                r matches Ok(PasswordCheck::Disabled { username, reason }) && username@ == u@
                    && reason@ == "Account is disabled."@
            } else {
                match password_accepts(counted_password(password@, max_len as nat), h@) {
                    None => r matches Err(WebtilesError::Auth(_)),
                    Some(true) => r matches Ok(PasswordCheck::Accepted { username, rehash })
                        && username@ == u@ && rehash == !is_argon2_hash(h@),
                    Some(false) => r matches Ok(PasswordCheck::Wrong),
                }
            }
        },
{
    let (username, stored_hash, flags) = match row {
        None => return Ok(PasswordCheck::UnknownUser),
        Some(x) => x,
    };
    if is_banned(flags) {
        return Ok(
            PasswordCheck::Disabled {
                username,
                reason: String::from_str("Account is disabled."),
            },
        );
    }
    let counted = truncate_password(password, max_len);
    match verify_password(counted.as_str(), stored_hash.as_str()) {
        Err(e) => Err(e),
        Ok(true) => {
            let rehash = needs_rehash(stored_hash.as_str());
            Ok(PasswordCheck::Accepted { username, rehash })
        },
        Ok(false) => Ok(PasswordCheck::Wrong),
    }
}

/// Why a registration is refused before the account database is asked
/// to store it: an empty password, or a name already taken.
pub fn registration_refusal(password: &str, user_exists: bool) -> (r: Option<String>)
    ensures
        password@.len() == 0 ==> (r matches Some(m) && m@ == "The password can't be empty!"@),
        password@.len() > 0 && user_exists ==> (r matches Some(m) && m@ == "User already exists!"@),
        password@.len() > 0 && !user_exists ==> r is None,
{
    let p = chars_of(password);
    if p.len() == 0 {
        Some(String::from_str("The password can't be empty!"))
    } else if user_exists {
        Some(String::from_str("User already exists!"))
    } else {
        None
    }
}

} // verus!
