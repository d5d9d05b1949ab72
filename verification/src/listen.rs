//! Where the server listens and how plain HTTP is redirected: the
//! addresses to bind, the checks that some listener is configured, and
//! the URLs handed to browsers.

use vstd::prelude::*;

use crate::config::BindMode;
use crate::text::{chars_of, push_all, slice_of, string_of};

verus! {

/// A bind host: empty means every interface.
pub open spec fn bind_host_text(h: Seq<char>) -> Seq<char> {
    if h.len() == 0 {
        "0.0.0.0"@
    } else {
        h
    }
}

/// The host to bind for a configured address.
pub fn bind_host(h: &str) -> (r: String)
    ensures
        r@ == bind_host_text(h@),
{
    let v = chars_of(h);
    if v.len() == 0 {
        String::from_str("0.0.0.0")
    } else {
        String::from_str(h)
    }
}

/// The (host, port) pairs to listen on: the configured pairs, or the
/// single default pair when none are configured; each host as
/// [`bind_host_text`] has it.
pub fn bind_targets(pairs: &Vec<(String, u16)>, default_host: &str, default_port: u16) -> (r: Vec<(String, u16)>)
    ensures
        pairs@.len() == 0 ==> r@.len() == 1 && r@[0].0@ == bind_host_text(default_host@) && r@[0].1
            == default_port,
        pairs@.len() > 0 ==> r@.len() == pairs@.len() && forall|i: int|
            0 <= i < pairs@.len() ==> #[trigger] r@[i].0@ == bind_host_text(pairs@[i].0@) && r@[i].1
                == pairs@[i].1,
{
    let mut out: Vec<(String, u16)> = Vec::new();
    if pairs.len() == 0 {
        out.push((bind_host(default_host), default_port));
        return out;
    }
    let mut i: usize = 0;
    while i < pairs.len()
        invariant
            i <= pairs@.len(),
            out@.len() == i,
            forall|j: int|
                0 <= j < i ==> #[trigger] out@[j].0@ == bind_host_text(pairs@[j].0@) && out@[j].1
                    == pairs@[j].1,
        decreases pairs.len() - i,
    {
        let h = bind_host(pairs[i].0.as_str());
        out.push((h, pairs[i].1));
        i = i + 1;
    }
    out
}

/// Why the server cannot start listening: no listener at all, or a
/// redirect of plain HTTP with no HTTPS to redirect to.
pub fn listener_check(plain: usize, secure: usize, mode: BindMode) -> (r: Result<(), String>)
    ensures
        plain == 0 && secure == 0 ==> (r matches Err(m) && m@
            == "no listening address configured: bind_nonsecure is disabled and ssl_cert_file/ssl_key_file are not both set"@),
        !(plain == 0 && secure == 0) && mode == BindMode::Redirect && secure == 0 ==> (r matches Err(
            m,
        ) && m@ == "bind_nonsecure=redirect requires ssl_cert_file/ssl_key_file to be configured"@),
        !(plain == 0 && secure == 0) && !(mode == BindMode::Redirect && secure == 0) ==> r is Ok,
{
    if plain == 0 && secure == 0 {
        return Err(
            String::from_str(
                "no listening address configured: bind_nonsecure is disabled and ssl_cert_file/ssl_key_file are not both set",
            ),
        );
    }
    match mode {
        BindMode::Redirect => {
            if secure == 0 {
                return Err(
                    String::from_str(
                        "bind_nonsecure=redirect requires ssl_cert_file/ssl_key_file to be configured",
                    ),
                );
            }
            Ok(())
        },
        _ => Ok(()),
    }
}

/// The host part of a `Host` header: what comes before its last `:`
/// (the whole header when it has none); `localhost` when there is no
/// header.
pub open spec fn host_part(host_header: Option<Seq<char>>) -> Seq<char> {
    match host_header {
        None => "localhost"@,
        Some(h) => match crate::process::rfind_char(h, ':') {
            Some(i) => h.subrange(0, i),
            None => h,
        },
    }
}

/// Where plain HTTP is redirected: the same host and path on the HTTPS
/// port (`port_suffix` is `:<port>`, or empty).
pub fn redirect_location(host_header: Option<&str>, port_suffix: &str, uri: &str) -> (r: String)
    ensures
        r@ == "https://"@ + host_part(
            match host_header {
                Some(h) => Some(h@),
                None => None,
            },
        ) + port_suffix@ + uri@,
{
    let mut out = chars_of("https://");
    match host_header {
        None => {
            let l = chars_of("localhost");
            push_all(&mut out, &l);
        },
        Some(h) => {
            let v = chars_of(h);
            proof {
                crate::process::lemma_rfind_char(v@, ':');
            }
            let host = match crate::process::rfind_char_exec(&v, ':') {
                Some(i) => slice_of(&v, 0, i),
                None => slice_of(&v, 0, v.len()),
            };
            assert(v@.subrange(0, v@.len() as int) =~= v@);
            push_all(&mut out, &host);
        },
    }
    let p = chars_of(port_suffix);
    push_all(&mut out, &p);
    let u = chars_of(uri);
    push_all(&mut out, &u);
    string_of(&out)
}

/// The WebSocket URL a page connects to: `wss://` behind an HTTPS proxy
/// (`X-Forwarded-Proto: https`), else `ws://`, then the host (or
/// `localhost`) and `/socket`.
pub fn socket_server_url(forwarded_proto: Option<&str>, host: Option<&str>) -> (r: String)
    ensures
        r@ == (if forwarded_proto matches Some(p) && p@ == "https"@ {
            "wss://"@
        } else {
            "ws://"@
        }) + match host {
            Some(h) => h@,
            None => "localhost"@,
        } + "/socket"@,
{
    let https = match forwarded_proto {
        Some(p) => crate::text::same_text(p, "https"),
        None => false,
    };
    let mut out = if https {
        chars_of("wss://")
    } else {
        chars_of("ws://")
    };
    let h = match host {
        Some(h) => chars_of(h),
        None => chars_of("localhost"),
    };
    push_all(&mut out, &h);
    let s = chars_of("/socket");
    push_all(&mut out, &s);
    string_of(&out)
}

} // verus!
