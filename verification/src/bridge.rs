//! The game-socket side of a running game: reassembling datagrams into
//! messages, telling control messages from those forwarded to browsers,
//! and what each control message changes.

use vstd::prelude::*;

use crate::config::opt_view;
use crate::process::{basename, basename_exec, strip_extension, strip_extension_exec};
use crate::protocol::ServerMessage;
use crate::session::{ExitInfo, OutgoingMessage, WhereInfo};
use crate::text::{chars_eq, chars_of, push_all, same_text, string_of};
use vstd::string::StrSliceExecFns;
use vstd::utf8::encode_utf8;

verus! {

/// Collects datagrams until one ends a message: the game ends every
/// message with `\n`, so a datagram without it is the first part of a
/// longer message.
pub struct DatagramAssembler {
    fragment: Vec<u8>,
}

impl View for DatagramAssembler {
    type V = Seq<u8>;

    closed spec fn view(&self) -> Seq<u8> {
        self.fragment@
    }
}

impl DatagramAssembler {
    pub fn new() -> (r: Self)
        ensures
            r@ == Seq::<u8>::empty(),
    {
        DatagramAssembler { fragment: Vec::new() }
    }

    /// Adds one datagram. What was held, followed by `chunk`, is a whole
    /// message when it ends in `\n`: the message is returned without the
    /// `\n` and nothing is held. Otherwise it is all held for the next
    /// datagram.
    pub fn push(&mut self, chunk: &[u8]) -> (r: Option<Vec<u8>>)
        ensures
            ({
                let data = old(self)@ + chunk@;
                if data.len() > 0 && data.last() == 10u8 {
                    r matches Some(m) && m@ == data.drop_last() && final(self)@ == Seq::<u8>::empty()
                } else {
                    r is None && final(self)@ == data
                }
            }),
    {
        let ghost data = self@ + chunk@;
        let mut i: usize = 0;
        while i < chunk.len()
            invariant
                i <= chunk@.len(),
                self.fragment@ == old(self)@ + chunk@.take(i as int),
                data == old(self)@ + chunk@,
            decreases chunk.len() - i,
        {
            self.fragment.push(chunk[i]);
            assert(chunk@.take(i + 1) =~= chunk@.take(i as int).push(chunk@[i as int]));
            i = i + 1;
        }
        assert(chunk@.take(chunk@.len() as int) =~= chunk@);
        let n = self.fragment.len();
        if n > 0 && self.fragment[n - 1] == 10u8 {
            let mut m: Vec<u8> = Vec::new();
            std::mem::swap(&mut m, &mut self.fragment);
            m.pop();
            Some(m)
        } else {
            None
        }
    }
}

/// A message from the game socket: a control message (it starts with `*`;
/// the rest is its JSON text), or one forwarded to browsers as it is.
pub enum SocketMessage {
    Control(Vec<u8>),
    Forward(Vec<u8>),
}

/// Tells a control message (leading `*`, which is stripped) from one to
/// forward unchanged.
pub fn split_control(data: Vec<u8>) -> (r: SocketMessage)
    ensures
        data@.len() > 0 && data@[0] == 42u8 ==> (r matches SocketMessage::Control(c) && c@
            == data@.drop_first()),
        !(data@.len() > 0 && data@[0] == 42u8) ==> (r matches SocketMessage::Forward(f) && f@
            == data@),
{
    if data.len() > 0 && data[0] == 42u8 {
        let mut rest: Vec<u8> = Vec::new();
        let mut i: usize = 1;
        while i < data.len()
            invariant
                1 <= i <= data@.len(),
                rest@ == data@.subrange(1, i as int),
            decreases data.len() - i,
        {
            rest.push(data[i]);
            assert(rest@ =~= data@.subrange(1, i + 1));
            i = i + 1;
        }
        assert(rest@ =~= data@.drop_first());
        SocketMessage::Control(rest)
    } else {
        SocketMessage::Forward(data)
    }
}

/// A message from a game process, decoded.
pub enum ProcessEvent {
    /// The game's client files; `version` feeds the client's hash.
    ClientPath { path: String, version: Option<String> },
    /// The game asks for batched delivery from here on.
    FlushMessages,
    /// A character dump was written; `kind` `command` means the player asked
    /// for it.
    Dump { kind: String, filename: String },
    /// Why the game is ending.
    ExitReason { kind: String, message: Option<String> },
    /// A milestone, with the "where" fields it carries.
    Milestone { where_info: WhereInfo, milestone: Option<String> },
    /// A message for the browsers: its text, or `None` where it was not
    /// UTF-8.
    Forward(Option<String>),
}

/// What the session does about a [`ProcessEvent`].
pub enum ProcessAction {
    Nothing,
    /// Render and record the game client from this client path.
    RegisterClient { path: String, version: Option<String> },
    /// Send to every watcher.
    Broadcast(OutgoingMessage),
    /// Replace the session's exit information.
    SetExitInfo(ExitInfo),
    /// Replace the session's "where" information and last milestone.
    SetWhere { where_info: WhereInfo, milestone: Option<String> },
}

/// The dump URL for a dump file: the morgue URL followed by the file's
/// name without its extension.
pub open spec fn dump_url(url: Seq<char>, filename: Seq<char>) -> Seq<char> {
    url + strip_extension(basename(filename))
}

fn dump_url_exec(url: &str, filename: &String) -> (r: String)
    ensures
        r@ == dump_url(url@, filename@),
{
    let f = chars_of(filename.as_str());
    let stem = strip_extension_exec(&basename_exec(&f));
    let mut v = chars_of(url);
    push_all(&mut v, &stem);
    string_of(&v)
}

fn clone_opt_string(o: &Option<String>) -> (r: Option<String>)
    ensures
        opt_view(r) == opt_view(*o),
{
    match o {
        Some(s) => Some(s.clone()),
        None => None,
    }
}

/// What a message from the game process changes:
/// - a client path registers the game client, unless one is already
///   recorded (a client path from the configuration wins);
/// - a dump the player asked for (`command`) is announced to the watchers
///   with its URL when there is a morgue URL; any other dump becomes the
///   dump URL of the exit information (none without a morgue URL);
/// - an exit reason sets the reason and message of the exit information;
/// - a milestone replaces the "where" information;
/// - a forwarded message is broadcast as raw text when it is UTF-8;
/// - a flush request changes nothing (delivery is batched already).
pub fn process_message_action(
    event: ProcessEvent,
    client_html_set: bool,
    exit: &ExitInfo,
    morgue_url: Option<&str>,
) -> (r: ProcessAction)
    ensures
        match event {
            ProcessEvent::ClientPath { path, version } => if client_html_set {
                r is Nothing
            } else {
                r matches ProcessAction::RegisterClient { path: p, version: v } && p@ == path@
                    && opt_view(v) == opt_view(version)
            },
            ProcessEvent::FlushMessages => r is Nothing,
            ProcessEvent::Dump { kind, filename } => if kind@ == "command"@ {
                match morgue_url {
                    Some(u) => r matches ProcessAction::Broadcast(
                        OutgoingMessage::Typed(ServerMessage::Dump { url }),
                    ) && url@ == dump_url(u@, filename@),
                    None => r is Nothing,
                }
            } else {
                r matches ProcessAction::SetExitInfo(e) && opt_view(e.reason) == opt_view(
                    exit.reason,
                ) && opt_view(e.message) == opt_view(exit.message) && opt_view(e.dump_url)
                    == match morgue_url {
                    Some(u) => Some(dump_url(u@, filename@)),
                    None => None::<Seq<char>>,
                }
            },
            ProcessEvent::ExitReason { kind, message } => r matches ProcessAction::SetExitInfo(e)
                && opt_view(e.reason) == Some(kind@) && opt_view(e.message) == opt_view(message)
                && opt_view(e.dump_url) == opt_view(exit.dump_url),
            ProcessEvent::Milestone { where_info, milestone } => r matches ProcessAction::SetWhere {
                where_info: w,
                milestone: m,
            } && w == where_info && m == milestone,
            ProcessEvent::Forward(text) => match text {
                Some(t) => r matches ProcessAction::Broadcast(OutgoingMessage::Raw(x)) && x == t,
                None => r is Nothing,
            },
        },
{
    match event {
        ProcessEvent::ClientPath { path, version } => {
            if client_html_set {
                ProcessAction::Nothing
            } else {
                ProcessAction::RegisterClient { path, version }
            }
        },
        ProcessEvent::FlushMessages => ProcessAction::Nothing,
        ProcessEvent::Dump { kind, filename } => {
            let k = chars_of(kind.as_str());
            let cmd = chars_of("command");
            if chars_eq(&k, &cmd) {
                match morgue_url {
                    Some(u) => ProcessAction::Broadcast(
                        OutgoingMessage::Typed(ServerMessage::Dump { url: dump_url_exec(u, &filename) }),
                    ),
                    None => ProcessAction::Nothing,
                }
            } else {
                let dump = match morgue_url {
                    Some(u) => Some(dump_url_exec(u, &filename)),
                    None => None,
                };
                ProcessAction::SetExitInfo(
                    ExitInfo {
                        reason: clone_opt_string(&exit.reason),
                        message: clone_opt_string(&exit.message),
                        dump_url: dump,
                    },
                )
            }
        },
        ProcessEvent::ExitReason { kind, message } => ProcessAction::SetExitInfo(
            ExitInfo { reason: Some(kind), message, dump_url: clone_opt_string(&exit.dump_url) },
        ),
        ProcessEvent::Milestone { where_info, milestone } => ProcessAction::SetWhere {
            where_info,
            milestone,
        },
        ProcessEvent::Forward(text) => match text {
            Some(t) => ProcessAction::Broadcast(OutgoingMessage::Raw(t)),
            None => ProcessAction::Nothing,
        },
    }
}


/// `char::from_u32` (std): the character whose code is `x`; `None` where
/// `x` is a surrogate (U+D800 to U+DFFF) or above U+10FFFF, as the
/// documentation says.
#[verifier::external_body]
fn char_from_code(x: u32) -> (r: Option<char>)
    ensures
        r is Some <==> (x < 0xD800 || (0xE000 <= x && x <= 0x10FFFF)),
        r matches Some(c) ==> c as u32 == x,
{
    char::from_u32(x)
}

/// A code of an `input` message's `data`, cut to 32 bits, names a
/// character.
pub open spec fn valid_code(c: u64) -> bool {
    let x = c as u32;
    x < 0xD800 || (0xE000 <= x && x <= 0x10FFFF)
}

/// Every item of `data` (when there is one) is a number that names a
/// character.
pub open spec fn data_ok(data: Option<Seq<Option<u64>>>) -> bool {
    match data {
        None => true,
        Some(v) => forall|i: int| 0 <= i < v.len() ==> ((#[trigger] v[i]) matches Some(c) && valid_code(c)),
    }
}

/// The characters that the codes of `data` name, in order.
pub open spec fn data_chars(v: Seq<Option<u64>>) -> Seq<char> {
    v.map_values(|o: Option<u64>| ((o->0) as u32) as char)
}

/// UTF-8 encodes a character by its code alone.
proof fn lemma_encode_same_codes(a: Seq<char>, b: Seq<char>)
    requires
        a.len() == b.len(),
        forall|i: int| 0 <= i < a.len() ==> (a[i] as u32) == (b[i] as u32),
    ensures
        encode_utf8(a) == encode_utf8(b),
    decreases a.len(),
{
    if a.len() > 0 {
        assert(a[0] as u32 == b[0] as u32);
        lemma_encode_same_codes(a.drop_first(), b.drop_first());
    }
}

/// The keystroke bytes of an `input` message: the UTF-8 encoding of the
/// characters `data` names, followed by `text`.
pub open spec fn keystrokes(data: Option<Seq<Option<u64>>>, text: Option<Seq<char>>) -> Seq<u8> {
    encode_utf8(
        match data {
            Some(v) => data_chars(v),
            None => Seq::empty(),
        } + match text {
            Some(t) => t,
            None => Seq::empty(),
        },
    )
}

/// The keystrokes a browser frame carries, from its fields as read: its
/// `msg` when that is a string, its `data` when that is an array (each item
/// when it is a non-negative integer), its `text` when that is a string.
/// Only an `input` message whose every `data` item is a number naming a
/// character (after cutting it to 32 bits) carries keystrokes: the
/// characters of `data`, then `text`, UTF-8 encoded. Any other frame gives
/// `None` and is forwarded to the game as it is.
pub fn input_keystrokes(msg: Option<&str>, data: Option<Vec<Option<u64>>>, text: Option<&str>) -> (r: Option<Vec<u8>>)
    ensures
        r is Some <==> (msg matches Some(m) && m@ == "input"@ && data_ok(
            match data {
                Some(v) => Some(v@),
                None => None,
            },
        )),
        r matches Some(b) ==> b@ == keystrokes(
            match data {
                Some(v) => Some(v@),
                None => None,
            },
            match text {
                Some(t) => Some(t@),
                None => None,
            },
        ),
{
    let is_input = match msg {
        Some(m) => same_text(m, "input"),
        None => false,
    };
    if !is_input {
        return None;
    }
    let mut out: Vec<char> = Vec::new();
    let ghost dchars: Seq<char> = match &data {
        Some(v) => data_chars(v@),
        None => Seq::empty(),
    };
    match &data {
        Some(v) => {
            let mut i: usize = 0;
            while i < v.len()
                invariant
                    i <= v@.len(),
                    data matches Some(w) && w@ == v@,
                    msg matches Some(m) && m@ == "input"@,
                    forall|k: int| 0 <= k < i ==> ((#[trigger] v@[k]) matches Some(c) && valid_code(c)),
                    out@.len() == i,
                    forall|k: int| 0 <= k < i ==> (#[trigger] out@[k] as u32) == ((v@[k]->0) as u32),
                decreases v.len() - i,
            {
                match v[i] {
                    Some(code) => {
                        let x: u32 = code as u32;
                        match char_from_code(x) {
                            Some(ch) => {
                                out.push(ch);
                                assert(out@[i as int] == ch);
                            },
                            None => {
                                assert(v@[i as int] == Some(code));
                                assert(!valid_code(code));
                                assert(!data_ok(Some(v@)));
                                return None;
                            },
                        }
                    },
                    None => {
                        assert(v@[i as int] is None);
                        assert(!data_ok(Some(v@)));
                        return None;
                    },
                }
                i = i + 1;
            }
            proof {
                assert forall|k: int| 0 <= k < out@.len() implies (out@[k] as u32) == (dchars[k] as u32) by {
                    assert(v@[k] matches Some(c) && valid_code(c));
                    assert(dchars[k] == (((v@[k]->0) as u32) as char));
                }
            }
        },
        None => {},
    }
    let ghost before = out@;
    let ghost tchars: Seq<char> = match text {
        Some(t) => t@,
        None => Seq::empty(),
    };
    match text {
        Some(t) => {
            let tc = chars_of(t);
            push_all(&mut out, &tc);
        },
        None => {},
    }
    proof {
        assert(out@ =~= before + tchars);
        assert forall|k: int| 0 <= k < out@.len() implies (out@[k] as u32) == ((dchars + tchars)[k] as u32) by {
            if k < before.len() {
            } else {
                assert(out@[k] == tchars[k - before.len()]);
            }
        }
        lemma_encode_same_codes(out@, dchars + tchars);
    }
    let s = string_of(&out);
    Some(s.as_str().as_bytes_vec())
}

} // verus!
