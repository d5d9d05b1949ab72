//! Per-game session values: what is queued for a watcher, the "where"
//! and exit information of a game, process control signals, and the lobby
//! entry built from them.

use vstd::prelude::*;

use crate::config::{clone_opt, opt_view, strings_view};
use crate::protocol::{LobbyEntry, ServerMessage};
use crate::text::same_text;

verus! {

/// A message queued for one watcher: one of the server's own messages, or
/// a JSON object from the game process kept as its raw text.
#[derive(Debug, Clone, PartialEq)]
pub enum OutgoingMessage {
    Typed(ServerMessage),
    Raw(String),
}

/// "Where" information of a running game.
#[derive(Debug, Clone, Default)]
pub struct WhereInfo {
    pub xl: Option<String>,
    pub char: Option<String>,
    pub place: Option<String>,
    pub turn: Option<String>,
    pub dur: Option<String>,
    pub god: Option<String>,
    pub title: Option<String>,
}

/// How a game ended, as far as the process told.
#[derive(Debug, Clone, Default)]
pub struct ExitInfo {
    pub reason: Option<String>,
    pub message: Option<String>,
    pub dump_url: Option<String>,
}

/// A signal for the task that supervises a game process.
#[derive(Debug, Clone, Copy, PartialEq, Eq)]
pub enum ProcessControl {
    /// `SIGHUP`: the game saves and quits.
    Stop,
    /// `SIGABRT`: the game is killed.
    Kill,
}

/// The lobby entry of a game: its identity, how many watch it and for how
/// long it has idled, and its "where" information and last milestone.
pub fn lobby_entry_of(
    id: u64,
    username: &String,
    spectator_count: usize,
    idle_secs: u64,
    game_id: &String,
    where_info: &WhereInfo,
    last_milestone: &Option<String>,
) -> (r: LobbyEntry)
    ensures
        r.id == id,
        r.username@ == username@,
        r.spectator_count == spectator_count as u32,
        r.idle_time == idle_secs,
        r.game_id@ == game_id@,
        opt_view(r.xl) == opt_view(where_info.xl),
        opt_view(r.char) == opt_view(where_info.char),
        opt_view(r.place) == opt_view(where_info.place),
        opt_view(r.turn) == opt_view(where_info.turn),
        opt_view(r.dur) == opt_view(where_info.dur),
        opt_view(r.god) == opt_view(where_info.god),
        opt_view(r.title) == opt_view(where_info.title),
        opt_view(r.milestone) == opt_view(*last_milestone),
{
    LobbyEntry {
        id,
        username: username.clone(),
        spectator_count: spectator_count as u32,
        idle_time: idle_secs,
        game_id: game_id.clone(),
        xl: clone_opt(&where_info.xl),
        char: clone_opt(&where_info.char),
        place: clone_opt(&where_info.place),
        turn: clone_opt(&where_info.turn),
        dur: clone_opt(&where_info.dur),
        god: clone_opt(&where_info.god),
        title: clone_opt(&where_info.title),
        milestone: clone_opt(last_milestone),
    }
}

/// Watchers that count as spectators: not the player, and not hiding from
/// the chat.
pub open spec fn spectators(w: Seq<(bool, bool)>) -> int
    decreases w.len(),
{
    if w.len() == 0 {
        0
    } else {
        spectators(w.drop_last()) + if !w.last().0 && !w.last().1 {
            1int
        } else {
            0int
        }
    }
}

/// The number of spectators among watchers given as (is the player, hides
/// from the chat).
pub fn spectator_count(watchers: &Vec<(bool, bool)>) -> (r: usize)
    ensures
        r == spectators(watchers@),
{
    let mut n: usize = 0;
    let mut i: usize = 0;
    while i < watchers.len()
        invariant
            i <= watchers@.len(),
            n == spectators(watchers@.take(i as int)),
            n <= i,
        decreases watchers.len() - i,
    {
        assert(watchers@.take(i + 1).drop_last() =~= watchers@.take(i as int));
        let (is_player, hidden) = watchers[i];
        if !is_player && !hidden {
            n = n + 1;
        }
        i = i + 1;
    }
    assert(watchers@.take(i as int) =~= watchers@);
    n
}

/// The kicks of a game without those of `name`.
pub open spec fn without_kick(k: Seq<(Seq<char>, u64, u64)>, name: Seq<char>) -> Seq<(Seq<char>, u64, u64)>
    decreases k.len(),
{
    if k.len() == 0 {
        k
    } else {
        without_kick(k.drop_last(), name) + if k.last().0 == name {
            Seq::empty()
        } else {
            seq![k.last()]
        }
    }
}

/// The latest kick of `name`: when it started and how many seconds it
/// lasts.
pub open spec fn kick_of(k: Seq<(Seq<char>, u64, u64)>, name: Seq<char>) -> Option<(u64, u64)>
    decreases k.len(),
{
    if k.len() == 0 {
        None
    } else if k.last().0 == name {
        Some((k.last().1, k.last().2))
    } else {
        kick_of(k.drop_last(), name)
    }
}

/// Milliseconds from `start` to `now`; zero if the clock reads earlier.
pub open spec fn elapsed_ms(now: u64, start: u64) -> int {
    if now >= start {
        now - start
    } else {
        0
    }
}

/// Lifting the kick of `a` ends `a`'s kick and leaves every other name's
/// kick as it was.
pub proof fn lemma_without_kick_spares_others(k: Seq<(Seq<char>, u64, u64)>, a: Seq<char>, b: Seq<char>)
    ensures
        kick_of(without_kick(k, a), a) is None,
        b != a ==> kick_of(without_kick(k, a), b) == kick_of(k, b),
    decreases k.len(),
{
    if k.len() > 0 {
        lemma_without_kick_spares_others(k.drop_last(), a, b);
        let w = without_kick(k.drop_last(), a);
        if k.last().0 == a {
            assert(without_kick(k, a) =~= w);
        } else {
            assert(without_kick(k, a) =~= w.push(k.last()));
            assert(without_kick(k, a).drop_last() =~= w);
        }
    }
}

/// Kicking `a` (what [`Moderation::kick`] does to the kicks) gives `a` the
/// new kick and leaves every other name's kick as it was: kicking one
/// watcher never lifts another's kick.
pub proof fn lemma_kick_spares_others(
    k: Seq<(Seq<char>, u64, u64)>,
    a: Seq<char>,
    start: u64,
    secs: u64,
    b: Seq<char>,
)
    ensures
        kick_of(without_kick(k, a).push((a, start, secs)), a) == Some((start, secs)),
        b != a ==> kick_of(without_kick(k, a).push((a, start, secs)), b) == kick_of(k, b),
{
    let t = without_kick(k, a).push((a, start, secs));
    assert(t.drop_last() =~= without_kick(k, a));
    lemma_without_kick_spares_others(k, a, b);
}

/// What a sequence with one more element contains.
proof fn lemma_push_contains(s: Seq<Seq<char>>, e: Seq<char>, x: Seq<char>)
    ensures
        s.push(e).contains(x) <==> (s.contains(x) || x == e),
{
    if s.push(e).contains(x) {
        let j = choose|j: int| 0 <= j < s.push(e).len() && #[trigger] s.push(e)[j] == x;
        if j < s.len() {
            assert(s[j] == x);
        }
    }
    if s.contains(x) {
        let j = choose|j: int| 0 <= j < s.len() && #[trigger] s[j] == x;
        assert(s.push(e)[j] == x);
    }
    if x == e {
        assert(s.push(e)[s.len() as int] == x);
    }
}

/// Who may not watch a game: blocked names (`[all]` blocks everyone but
/// the player, `[anon]` blocks watchers who are not logged in) and timed
/// kicks. Times are milliseconds of the caller's monotonic clock.
pub struct Moderation {
    blocked: Vec<String>,
    kicked: Vec<(String, u64, u64)>,
}

/// The value of a [`Moderation`]: the blocked names and the kicks (name,
/// start, seconds).
pub struct ModerationView {
    pub blocked: Seq<Seq<char>>,
    pub kicked: Seq<(Seq<char>, u64, u64)>,
}

impl View for Moderation {
    type V = ModerationView;

    closed spec fn view(&self) -> ModerationView {
        ModerationView {
            blocked: strings_view(self.blocked@),
            kicked: self.kicked@.map_values(|e: (String, u64, u64)| (e.0@, e.1, e.2)),
        }
    }
}

impl Moderation {
    pub fn new() -> (r: Self)
        ensures
            r@.blocked == Seq::<Seq<char>>::empty(),
            r@.kicked == Seq::<(Seq<char>, u64, u64)>::empty(),
    {
        let r = Moderation { blocked: Vec::new(), kicked: Vec::new() };
        assert(r@.blocked =~= Seq::<Seq<char>>::empty());
        assert(r@.kicked =~= Seq::<(Seq<char>, u64, u64)>::empty());
        r
    }

    fn is_listed(&self, name: &str) -> (r: bool)
        ensures
            r == self@.blocked.contains(name@),
    {
        let ghost b = self@.blocked;
        let mut i: usize = 0;
        while i < self.blocked.len()
            invariant
                b == self@.blocked,
                b == strings_view(self.blocked@),
                i <= b.len(),
                forall|j: int| 0 <= j < i ==> b[j] != name@,
            decreases self.blocked.len() - i,
        {
            assert(b[i as int] == self.blocked@[i as int]@);
            if same_text(self.blocked[i].as_str(), name) {
                return true;
            }
            i = i + 1;
        }
        false
    }

    /// Blocks `target` (a user name, `[anon]` or `[all]`).
    pub fn block(&mut self, target: &str)
        ensures
            final(self)@.kicked == old(self)@.kicked,
            forall|x: Seq<char>| final(self)@.blocked.contains(x) <==> (old(self)@.blocked.contains(
                x,
            ) || x == target@),
    {
        if !self.is_listed(target) {
            let ghost before = self@.blocked;
            self.blocked.push(String::from_str(target));
            assert(self@.blocked =~= before.push(target@));
            assert forall|x: Seq<char>| self@.blocked.contains(x) <==> (before.contains(x) || x
                == target@) by {
                lemma_push_contains(before, target@, x);
            }
        }
    }

    /// Lifts the block on `target`.
    pub fn unblock(&mut self, target: &str)
        ensures
            final(self)@.kicked == old(self)@.kicked,
            forall|x: Seq<char>| final(self)@.blocked.contains(x) <==> (old(self)@.blocked.contains(
                x,
            ) && x != target@),
    {
        let ghost b = self@.blocked;
        let mut kept: Vec<String> = Vec::new();
        let mut i: usize = 0;
        while i < self.blocked.len()
            invariant
                b == self@.blocked,
                b == strings_view(self.blocked@),
                i <= b.len(),
                forall|x: Seq<char>| strings_view(kept@).contains(x) <==> (b.take(
                    i as int,
                ).contains(x) && x != target@),
            decreases self.blocked.len() - i,
        {
            let ghost before = strings_view(kept@);
            assert(b[i as int] == self.blocked@[i as int]@);
            assert(b.take(i + 1) =~= b.take(i as int).push(b[i as int]));
            if !same_text(self.blocked[i].as_str(), target) {
                kept.push(self.blocked[i].clone());
                assert(strings_view(kept@) =~= before.push(b[i as int]));
            }
            assert forall|x: Seq<char>| strings_view(kept@).contains(x) <==> (b.take(
                i + 1,
            ).contains(x) && x != target@) by {
                lemma_push_contains(b.take(i as int), b[i as int], x);
                lemma_push_contains(before, b[i as int], x);
            }
            i = i + 1;
        }
        assert(b.take(b.len() as int) =~= b);
        self.blocked = kept;
    }

    fn remove_kick(&mut self, name: &str)
        ensures
            final(self)@.blocked == old(self)@.blocked,
            final(self)@.kicked == without_kick(old(self)@.kicked, name@),
    {
        let ghost s = self@.kicked;
        let mut kept: Vec<(String, u64, u64)> = Vec::new();
        let mut i: usize = 0;
        while i < self.kicked.len()
            invariant
                s == self@.kicked,
                s == self.kicked@.map_values(|e: (String, u64, u64)| (e.0@, e.1, e.2)),
                i <= s.len(),
                kept@.map_values(|e: (String, u64, u64)| (e.0@, e.1, e.2)) == without_kick(
                    s.take(i as int),
                    name@,
                ),
            decreases self.kicked.len() - i,
        {
            let ghost before = kept@;
            assert(s.take(i + 1).drop_last() =~= s.take(i as int));
            assert(s[i as int] == (self.kicked@[i as int].0@, self.kicked@[i as int].1, self.kicked@[i as int].2));
            if !same_text(self.kicked[i].0.as_str(), name) {
                let e = (self.kicked[i].0.clone(), self.kicked[i].1, self.kicked[i].2);
                kept.push(e);
                assert(kept@.map_values(|e: (String, u64, u64)| (e.0@, e.1, e.2)) =~= before.map_values(
                    |e: (String, u64, u64)| (e.0@, e.1, e.2),
                ).push(s[i as int]));
            }
            assert(kept@.map_values(|e: (String, u64, u64)| (e.0@, e.1, e.2)) =~= without_kick(
                s.take(i + 1),
                name@,
            ));
            i = i + 1;
        }
        assert(s.take(s.len() as int) =~= s);
        self.kicked = kept;
    }

    /// Kicks `target` for `minutes` from `now` (a new kick replaces an
    /// older one).
    pub fn kick(&mut self, target: &str, minutes: u64, now: u64)
        requires
            minutes * 60 <= u64::MAX,
        ensures
            final(self)@.blocked == old(self)@.blocked,
            final(self)@.kicked == without_kick(old(self)@.kicked, target@).push(
                (target@, now, (minutes * 60) as u64),
            ),
    {
        self.remove_kick(target);
        let ghost before = self@.kicked;
        self.kicked.push((String::from_str(target), now, minutes * 60));
        assert(self@.kicked =~= before.push((target@, now, (minutes * 60) as u64)));
    }

    fn find_kick(&self, name: &str) -> (r: Option<(u64, u64)>)
        ensures
            r == kick_of(self@.kicked, name@),
    {
        let ghost s = self@.kicked;
        let mut i: usize = self.kicked.len();
        assert(s.take(s.len() as int) =~= s);
        while i > 0
            invariant
                s == self@.kicked,
                s == self.kicked@.map_values(|e: (String, u64, u64)| (e.0@, e.1, e.2)),
                i <= s.len(),
                kick_of(s, name@) == kick_of(s.take(i as int), name@),
            decreases i,
        {
            assert(s.take(i as int).drop_last() =~= s.take(i - 1));
            assert(s[i - 1] == (self.kicked@[i - 1].0@, self.kicked@[i - 1].1, self.kicked@[i - 1].2));
            if same_text(self.kicked[i - 1].0.as_str(), name) {
                return Some((self.kicked[i - 1].1, self.kicked[i - 1].2));
            }
            i = i - 1;
        }
        None
    }

    /// Whether `username` (`None`: not logged in) may not watch the game of
    /// `player` at `now`. `[all]` blocks all but the player; `[anon]` blocks
    /// those not logged in; a running kick blocks its target, and an
    /// expired one is dropped on the way; otherwise a user is blocked by
    /// name.
    pub fn is_blocked(&mut self, player: &str, username: Option<&str>, now: u64) -> (r: bool)
        ensures
            final(self)@.blocked == old(self)@.blocked,
            old(self)@.blocked.contains("[all]"@) ==> r == (match username {
                Some(u) => u@ != player@,
                None => true,
            }) && final(self)@.kicked == old(self)@.kicked,
            !old(self)@.blocked.contains("[all]"@) ==> match username {
                None => r == old(self)@.blocked.contains("[anon]"@) && final(self)@.kicked == old(
                    self,
                )@.kicked,
                Some(u) => match kick_of(old(self)@.kicked, u@) {
                    Some((start, secs)) => if elapsed_ms(now, start) < secs * 1000 {
                        r && final(self)@.kicked == old(self)@.kicked
                    } else {
                        r == old(self)@.blocked.contains(u@) && final(self)@.kicked == without_kick(
                            old(self)@.kicked,
                            u@,
                        )
                    },
                    None => r == old(self)@.blocked.contains(u@) && final(self)@.kicked == old(
                        self,
                    )@.kicked,
                },
            },
    {
        if self.is_listed("[all]") {
            return match username {
                Some(u) => !same_text(u, player),
                None => true,
            };
        }
        let u = match username {
            Some(u) => u,
            None => return self.is_listed("[anon]"),
        };
        if let Some((start, secs)) = self.find_kick(u) {
            let elapsed: u64 = if now >= start {
                now - start
            } else {
                0
            };
            if (elapsed as u128) < (secs as u128) * 1000 {
                return true;
            }
            self.remove_kick(u);
        }
        self.is_listed(u)
    }
}

} // verus!
