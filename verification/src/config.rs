//! Typed server configuration: built-in defaults, command-line overrides,
//! game/template inheritance and `%n`/`%v`/`%V`/`%r` path templating.
//!
//! Layering (later wins): defaults, `config.yml`, `games.d/*.yml` (games and
//! templates only), command-line overrides.

use vstd::prelude::*;

use crate::error::WebtilesError;
use crate::table::Table;
use crate::text::{
    chars_of, contains_chars, contains_seq, has_pair, lacks_char, lemma_contains_pair,
    lemma_replace_keeps_pairs, occurs_at, replace_from,
    occurs_at_exec, push_range, replace_all, replace_chars, slice_of, string_of,
};

verus! {

/// The value of an optional string.
pub open spec fn opt_view(o: Option<String>) -> Option<Seq<char>> {
    match o {
        Some(s) => Some(s@),
        None => None,
    }
}

/// The values of a list of strings.
pub open spec fn strings_view(v: Seq<String>) -> Seq<Seq<char>> {
    v.map_values(|s: String| s@)
}

/// The values of a string-valued map.
pub open spec fn string_map_view(m: Map<Seq<char>, String>) -> Map<Seq<char>, Seq<char>> {
    m.map_values(|s: String| s@)
}

pub fn clone_opt(o: &Option<String>) -> (r: Option<String>)
    ensures
        opt_view(r) == opt_view(*o),
{
    match o {
        Some(s) => Some(s.clone()),
        None => None,
    }
}

pub fn clone_strings(v: &Vec<String>) -> (r: Vec<String>)
    ensures
        strings_view(r@) == strings_view(v@),
{
    let mut r: Vec<String> = Vec::new();
    let mut i: usize = 0;
    while i < v.len()
        invariant
            i <= v@.len(),
            r@.len() == i,
            forall|k: int| 0 <= k < i ==> r@[k]@ == v@[k]@,
        decreases v.len() - i,
    {
        r.push(v[i].clone());
        i = i + 1;
    }
    assert(strings_view(r@) =~= strings_view(v@));
    r
}

/// Fields shared between templates and concrete games; a game falls back
/// to its template for any field it leaves unset.
#[derive(Debug)]
pub struct GameFields {
    pub name: Option<String>,
    pub version: Option<String>,
    pub crawl_binary: Option<String>,
    pub pre_options: Vec<String>,
    pub options: Vec<String>,
    pub rcfile_path: Option<String>,
    pub macro_path: Option<String>,
    pub morgue_path: Option<String>,
    pub morgue_url: Option<String>,
    pub inprogress_path: Option<String>,
    pub ttyrec_path: Option<String>,
    pub socket_path: Option<String>,
    pub client_path: Option<String>,
    pub dir_path: Option<String>,
    pub cwd: Option<String>,
    pub env: Table<String>,
    pub show_save_info: Option<bool>,
    pub allowed_with_hold: Option<bool>,
    pub send_json_options: Option<bool>,
    pub milestone_file: Option<String>,
}

/// The value of a [`GameFields`].
pub struct GameFieldsView {
    pub name: Option<Seq<char>>,
    pub version: Option<Seq<char>>,
    pub crawl_binary: Option<Seq<char>>,
    pub pre_options: Seq<Seq<char>>,
    pub options: Seq<Seq<char>>,
    pub rcfile_path: Option<Seq<char>>,
    pub macro_path: Option<Seq<char>>,
    pub morgue_path: Option<Seq<char>>,
    pub morgue_url: Option<Seq<char>>,
    pub inprogress_path: Option<Seq<char>>,
    pub ttyrec_path: Option<Seq<char>>,
    pub socket_path: Option<Seq<char>>,
    pub client_path: Option<Seq<char>>,
    pub dir_path: Option<Seq<char>>,
    pub cwd: Option<Seq<char>>,
    pub env: Map<Seq<char>, Seq<char>>,
    pub show_save_info: Option<bool>,
    pub allowed_with_hold: Option<bool>,
    pub send_json_options: Option<bool>,
    pub milestone_file: Option<Seq<char>>,
}

impl View for GameFields {
    type V = GameFieldsView;

    open spec fn view(&self) -> GameFieldsView {
        GameFieldsView {
            name: opt_view(self.name),
            version: opt_view(self.version),
            crawl_binary: opt_view(self.crawl_binary),
            pre_options: strings_view(self.pre_options@),
            options: strings_view(self.options@),
            rcfile_path: opt_view(self.rcfile_path),
            macro_path: opt_view(self.macro_path),
            morgue_path: opt_view(self.morgue_path),
            morgue_url: opt_view(self.morgue_url),
            inprogress_path: opt_view(self.inprogress_path),
            ttyrec_path: opt_view(self.ttyrec_path),
            socket_path: opt_view(self.socket_path),
            client_path: opt_view(self.client_path),
            dir_path: opt_view(self.dir_path),
            cwd: opt_view(self.cwd),
            env: string_map_view(self.env@),
            show_save_info: self.show_save_info,
            allowed_with_hold: self.allowed_with_hold,
            send_json_options: self.send_json_options,
            milestone_file: opt_view(self.milestone_file),
        }
    }
}

/// Every field unset.
pub open spec fn empty_fields_view() -> GameFieldsView {
    GameFieldsView {
        name: None,
        version: None,
        crawl_binary: None,
        pre_options: Seq::empty(),
        options: Seq::empty(),
        rcfile_path: None,
        macro_path: None,
        morgue_path: None,
        morgue_url: None,
        inprogress_path: None,
        ttyrec_path: None,
        socket_path: None,
        client_path: None,
        dir_path: None,
        cwd: None,
        env: Map::empty(),
        show_save_info: None,
        allowed_with_hold: None,
        send_json_options: None,
        milestone_file: None,
    }
}

/// `overlay` over `base`: each field set in `overlay` (for lists and the
/// environment: non-empty) wins.
pub open spec fn merge_view(base: GameFieldsView, overlay: GameFieldsView) -> GameFieldsView {
    GameFieldsView {
        name: if overlay.name is Some { overlay.name } else { base.name },
        version: if overlay.version is Some { overlay.version } else { base.version },
        crawl_binary: if overlay.crawl_binary is Some { overlay.crawl_binary } else { base.crawl_binary },
        pre_options: if overlay.pre_options.len() != 0 { overlay.pre_options } else { base.pre_options },
        options: if overlay.options.len() != 0 { overlay.options } else { base.options },
        rcfile_path: if overlay.rcfile_path is Some { overlay.rcfile_path } else { base.rcfile_path },
        macro_path: if overlay.macro_path is Some { overlay.macro_path } else { base.macro_path },
        morgue_path: if overlay.morgue_path is Some { overlay.morgue_path } else { base.morgue_path },
        morgue_url: if overlay.morgue_url is Some { overlay.morgue_url } else { base.morgue_url },
        inprogress_path: if overlay.inprogress_path is Some { overlay.inprogress_path } else { base.inprogress_path },
        ttyrec_path: if overlay.ttyrec_path is Some { overlay.ttyrec_path } else { base.ttyrec_path },
        socket_path: if overlay.socket_path is Some { overlay.socket_path } else { base.socket_path },
        client_path: if overlay.client_path is Some { overlay.client_path } else { base.client_path },
        dir_path: if overlay.dir_path is Some { overlay.dir_path } else { base.dir_path },
        cwd: if overlay.cwd is Some { overlay.cwd } else { base.cwd },
        env: if overlay.env.dom() != Set::<Seq<char>>::empty() { overlay.env } else { base.env },
        show_save_info: if overlay.show_save_info is Some { overlay.show_save_info } else { base.show_save_info },
        allowed_with_hold: if overlay.allowed_with_hold is Some { overlay.allowed_with_hold } else { base.allowed_with_hold },
        send_json_options: if overlay.send_json_options is Some { overlay.send_json_options } else { base.send_json_options },
        milestone_file: if overlay.milestone_file is Some { overlay.milestone_file } else { base.milestone_file },
    }
}

impl GameFields {
    pub fn new() -> (r: Self)
        ensures
            r@ == empty_fields_view(),
    {
        let r = GameFields {
            name: None,
            version: None,
            crawl_binary: None,
            pre_options: Vec::new(),
            options: Vec::new(),
            rcfile_path: None,
            macro_path: None,
            morgue_path: None,
            morgue_url: None,
            inprogress_path: None,
            ttyrec_path: None,
            socket_path: None,
            client_path: None,
            dir_path: None,
            cwd: None,
            env: Table::new(),
            show_save_info: None,
            allowed_with_hold: None,
            send_json_options: None,
            milestone_file: None,
        };
        assert(strings_view(r.pre_options@) =~= Seq::<Seq<char>>::empty());
        assert(string_map_view(r.env@) =~= Map::<Seq<char>, Seq<char>>::empty());
        assert(strings_view(r.options@) =~= Seq::<Seq<char>>::empty());
        r
    }

    /// An independent copy with the same value.
    pub fn duplicate(&self) -> (r: Self)
        ensures
            r@ == self@,
    {
        GameFields {
            name: clone_opt(&self.name),
            version: clone_opt(&self.version),
            crawl_binary: clone_opt(&self.crawl_binary),
            pre_options: clone_strings(&self.pre_options),
            options: clone_strings(&self.options),
            rcfile_path: clone_opt(&self.rcfile_path),
            macro_path: clone_opt(&self.macro_path),
            morgue_path: clone_opt(&self.morgue_path),
            morgue_url: clone_opt(&self.morgue_url),
            inprogress_path: clone_opt(&self.inprogress_path),
            ttyrec_path: clone_opt(&self.ttyrec_path),
            socket_path: clone_opt(&self.socket_path),
            client_path: clone_opt(&self.client_path),
            dir_path: clone_opt(&self.dir_path),
            cwd: clone_opt(&self.cwd),
            env: self.env.duplicate(),
            show_save_info: self.show_save_info,
            allowed_with_hold: self.allowed_with_hold,
            send_json_options: self.send_json_options,
            milestone_file: clone_opt(&self.milestone_file),
        }
    }
}

impl Default for GameFields {
    fn default() -> (r: Self)
        ensures
            r@ == empty_fields_view(),
    {
        GameFields::new()
    }
}

fn overlay_str(base: &mut Option<String>, o: Option<String>)
    ensures
        opt_view(*final(base)) == if opt_view(o) is Some {
            opt_view(o)
        } else {
            opt_view(*old(base))
        },
{
    if o.is_some() {
        *base = o;
    }
}

fn overlay_bool(base: &mut Option<bool>, o: Option<bool>)
    ensures
        *final(base) == if o is Some {
            o
        } else {
            *old(base)
        },
{
    if o.is_some() {
        *base = o;
    }
}

fn overlay_list(base: &mut Vec<String>, o: Vec<String>)
    ensures
        strings_view(final(base)@) == if strings_view(o@).len() != 0 {
            strings_view(o@)
        } else {
            strings_view(old(base)@)
        },
{
    if o.len() != 0 {
        *base = o;
    }
}

fn overlay_env(base: &mut Table<String>, o: Table<String>)
    ensures
        string_map_view(final(base)@) == if string_map_view(o@).dom() != Set::<Seq<char>>::empty() {
            string_map_view(o@)
        } else {
            string_map_view(old(base)@)
        },
{
    assert(string_map_view(o@).dom() =~= o@.dom());
    if !o.is_empty() {
        *base = o;
    }
}

/// Overlays `overlay` onto `base` (see [`merge_view`]).
fn merge_game_fields(base: &mut GameFields, overlay: GameFields)
    ensures
        final(base)@ == merge_view(old(base)@, overlay@),
{
    let ghost ov = overlay@;
    let ghost bv = base@;
    let GameFields {
        name,
        version,
        crawl_binary,
        pre_options,
        options,
        rcfile_path,
        macro_path,
        morgue_path,
        morgue_url,
        inprogress_path,
        ttyrec_path,
        socket_path,
        client_path,
        dir_path,
        cwd,
        env,
        show_save_info,
        allowed_with_hold,
        send_json_options,
        milestone_file,
    } = overlay;
    overlay_str(&mut base.name, name);
    overlay_str(&mut base.version, version);
    overlay_str(&mut base.crawl_binary, crawl_binary);
    overlay_list(&mut base.pre_options, pre_options);
    overlay_list(&mut base.options, options);
    overlay_str(&mut base.rcfile_path, rcfile_path);
    overlay_str(&mut base.macro_path, macro_path);
    overlay_str(&mut base.morgue_path, morgue_path);
    overlay_str(&mut base.morgue_url, morgue_url);
    overlay_str(&mut base.inprogress_path, inprogress_path);
    overlay_str(&mut base.ttyrec_path, ttyrec_path);
    overlay_str(&mut base.socket_path, socket_path);
    overlay_str(&mut base.client_path, client_path);
    overlay_str(&mut base.dir_path, dir_path);
    overlay_str(&mut base.cwd, cwd);
    overlay_env(&mut base.env, env);
    overlay_bool(&mut base.show_save_info, show_save_info);
    overlay_bool(&mut base.allowed_with_hold, allowed_with_hold);
    overlay_bool(&mut base.send_json_options, send_json_options);
    overlay_str(&mut base.milestone_file, milestone_file);
    assert(base@ == merge_view(bv, ov));
}

} // verus!

verus! {

/// A game template: shared defaults that games (and other templates)
/// inherit via `template: <name>`.
#[derive(Debug)]
pub struct GameTemplate {
    /// Keys `games.d` list entries; the `config.yml` map form uses the map key.
    pub id: String,
    /// The template this one inherits from.
    pub template: Option<String>,
    pub fields: GameFields,
}

/// One playable game entry.
#[derive(Debug)]
pub struct GameConfig {
    pub id: String,
    pub template: Option<String>,
    pub fields: GameFields,
}

impl GameTemplate {
    pub fn new() -> (r: Self)
        ensures
            r.id@ == Seq::<char>::empty(),
            r.template is None,
            r.fields@ == empty_fields_view(),
    {
        GameTemplate { id: String::new(), template: None, fields: GameFields::new() }
    }
}

impl GameConfig {
    pub fn new() -> (r: Self)
        ensures
            r.id@ == Seq::<char>::empty(),
            r.template is None,
            r.fields@ == empty_fields_view(),
    {
        GameConfig { id: String::new(), template: None, fields: GameFields::new() }
    }
}

impl Default for GameTemplate {
    fn default() -> (r: Self)
        ensures
            r.id@ == Seq::<char>::empty(),
            r.template is None,
            r.fields@ == empty_fields_view(),
    {
        GameTemplate::new()
    }
}

impl Default for GameConfig {
    fn default() -> (r: Self)
        ensures
            r.id@ == Seq::<char>::empty(),
            r.template is None,
            r.fields@ == empty_fields_view(),
    {
        GameConfig::new()
    }
}

impl Default for ConfigOverrides {
    fn default() -> (r: Self)
        ensures
            r.dgl_mode is None && r.bind_port is None && r.bind_address is None
                && r.password_db is None && r.settings_db is None && r.use_game_yaml is None
                && r.games is None && r.templates is None && r.banned is None,
    {
        ConfigOverrides::new()
    }
}

/// A game/template without an explicit `template:` inherits from `default`,
/// unless it is itself `default` or `base`.
pub open spec fn implicit_template(explicit: Option<Seq<char>>, self_id: Seq<char>) -> Option<
    Seq<char>,
> {
    match explicit {
        Some(n) => Some(n),
        None => if self_id != "default"@ && self_id != "base"@ {
            Some("default"@)
        } else {
            None
        },
    }
}

fn implicit_template_exec(explicit: &Option<String>, self_id: &String) -> (r: Option<String>)
    ensures
        opt_view(r) == implicit_template(opt_view(*explicit), self_id@),
{
    match explicit {
        Some(n) => Some(n.clone()),
        None => {
            let d = String::from_str("default");
            let b = String::from_str("base");
            if *self_id != d && *self_id != b {
                Some(d)
            } else {
                None
            }
        },
    }
}

/// The fields of each template along the inheritance chain starting at
/// `next`, stopping at a missing template or at one already visited.
pub open spec fn chain_spec(
    tmap: Map<Seq<char>, GameTemplate>,
    next: Option<Seq<char>>,
    seen: Set<Seq<char>>,
) -> Seq<GameFieldsView>
    decreases tmap.dom().difference(seen).len(),
    when tmap.dom().finite()
{
    match next {
        None => Seq::empty(),
        Some(n) => if seen.contains(n) || !tmap.contains_key(n) {
            Seq::empty()
        } else {
            proof {
                tmap.dom().lemma_set_insert_diff_decreases(seen, n);
            }
            seq![tmap[n].fields@] + chain_spec(
                tmap,
                implicit_template(opt_view(tmap[n].template), n),
                seen.insert(n),
            )
        },
    }
}

/// Merges a chain, nearest first: `c[0]` over `c[1]` over … over nothing.
pub open spec fn fold_view(c: Seq<GameFieldsView>) -> GameFieldsView
    decreases c.len(),
{
    if c.len() == 0 {
        empty_fields_view()
    } else {
        merge_view(fold_view(c.drop_first()), c[0])
    }
}

/// A game with its templates resolved.
#[derive(Debug)]
pub struct ResolvedGame {
    pub id: String,
    pub fields: GameFields,
}

} // verus!

verus! {

/// Whether plain (non-TLS) HTTP is served.
#[derive(Debug, Clone, Copy, PartialEq, Eq)]
pub enum BindMode {
    Disabled,
    Enabled,
    /// Plain HTTP only redirects to HTTPS.
    Redirect,
}

impl Default for BindMode {
    fn default() -> (r: Self)
        ensures
            r == BindMode::Enabled,
    {
        BindMode::Enabled
    }
}

/// Legacy password-hashing selector (`crypt_algorithm`).
#[derive(Debug, Clone, Copy, PartialEq, Eq)]
pub enum CryptAlgorithm {
    Broken,
    /// glibc crypt(3) id, e.g. 5 (SHA-256) or 6 (SHA-512).
    Id(u8),
}

impl Default for CryptAlgorithm {
    fn default() -> (r: Self)
        ensures
            r == CryptAlgorithm::Broken,
    {
        CryptAlgorithm::Broken
    }
}

/// Top-level server configuration; the defaults match the long-standing
/// WebTiles defaults, so an empty `config.yml` behaves as before.
#[derive(Debug)]
pub struct ServerConfig {
    pub dgl_mode: bool,
    pub bind_nonsecure: BindMode,
    pub bind_address: String,
    pub bind_port: u16,
    pub bind_pairs: Vec<(String, u16)>,
    pub ssl_address: String,
    pub ssl_port: u16,
    pub ssl_bind_pairs: Vec<(String, u16)>,
    pub ssl_cert_file: Option<String>,
    pub ssl_key_file: Option<String>,
    pub password_db: String,
    pub settings_db: String,
    pub server_socket_path: Option<String>,
    pub server_id: String,
    pub game_data_no_cache: bool,
    pub watch_socket_dirs: bool,
    pub max_connections: u32,
    pub connection_timeout_secs: u64,
    pub max_idle_time_secs: u64,
    pub max_lobby_idle_time_secs: u64,
    pub kill_timeout_secs: u64,
    pub nick_regex: String,
    pub max_passwd_length: usize,
    pub allow_password_reset: bool,
    pub admin_password_reset: bool,
    /// Kept so that a carried-over `config.yml` still parses; new password
    /// hashes are always Argon2id.
    pub crypt_algorithm: CryptAlgorithm,
    pub crypt_salt_length: usize,
    pub login_token_lifetime_days: i64,
    pub recovery_token_lifetime_hours: i64,
    pub lobby_update_rate_secs: u64,
    pub status_file_update_rate_secs: u64,
    pub dgl_status_file: Option<String>,
    pub use_gzip: bool,
    pub no_cache: bool,
    pub development_mode: bool,
    pub live_debug: bool,
    pub enable_ttyrecs: bool,
    pub recording_term_size: (u16, u16),
    pub allow_anon_spectate: bool,
    pub max_chat_length: usize,
    pub new_accounts_disabled: bool,
    pub new_accounts_hold: bool,
    pub bot_accounts: bool,
    pub wizard_accounts: bool,
    pub banned: Vec<String>,
    pub autologin: Option<String>,
    /// Games by id.
    pub games: Table<GameConfig>,
    /// Templates by name.
    pub templates: Table<GameTemplate>,
    pub use_game_yaml: Option<bool>,
    pub daemon: bool,
    pub pidfile: Option<String>,
    pub umask: Option<u32>,
    pub uid: Option<u32>,
    pub gid: Option<u32>,
    pub chroot: Option<String>,
    pub lobby_url: Option<String>,
    pub player_url: Option<String>,
    /// The directory holding the primary config file (set by the loader).
    pub server_path: String,
}

impl ServerConfig {
    /// The built-in defaults.
    pub fn new() -> (r: Self)
        ensures
            r.is_default(),
    {
        ServerConfig {
            dgl_mode: true,
            bind_nonsecure: BindMode::Enabled,
            bind_address: String::new(),
            bind_port: 8080,
            bind_pairs: Vec::new(),
            ssl_address: String::new(),
            ssl_port: 8443,
            ssl_bind_pairs: Vec::new(),
            ssl_cert_file: None,
            ssl_key_file: None,
            password_db: String::from_str("./webserver/passwd.db3"),
            settings_db: String::from_str("./webserver/user_settings.db3"),
            server_socket_path: None,
            server_id: String::new(),
            game_data_no_cache: true,
            watch_socket_dirs: false,
            max_connections: 100,
            connection_timeout_secs: 600,
            max_idle_time_secs: 18000,
            max_lobby_idle_time_secs: 10800,
            kill_timeout_secs: 10,
            nick_regex: String::from_str("^[a-zA-Z0-9]{3,20}$"),
            max_passwd_length: 20,
            allow_password_reset: false,
            admin_password_reset: false,
            crypt_algorithm: CryptAlgorithm::Broken,
            crypt_salt_length: 16,
            login_token_lifetime_days: 7,
            recovery_token_lifetime_hours: 12,
            lobby_update_rate_secs: 2,
            status_file_update_rate_secs: 30,
            dgl_status_file: None,
            use_gzip: true,
            no_cache: false,
            development_mode: false,
            live_debug: false,
            enable_ttyrecs: true,
            recording_term_size: (80, 24),
            allow_anon_spectate: true,
            max_chat_length: 1000,
            new_accounts_disabled: false,
            new_accounts_hold: false,
            bot_accounts: false,
            wizard_accounts: false,
            banned: Vec::new(),
            autologin: None,
            games: Table::new(),
            templates: Table::new(),
            use_game_yaml: None,
            daemon: false,
            pidfile: None,
            umask: None,
            uid: None,
            gid: None,
            chroot: None,
            lobby_url: None,
            player_url: None,
            server_path: String::new(),
        }
    }

    /// Every field holds its built-in default.
    pub open spec fn is_default(&self) -> bool {
        let r = self;
        &&& r.dgl_mode
        &&& r.bind_nonsecure == BindMode::Enabled
        &&& r.bind_address@ == Seq::<char>::empty()
        &&& r.bind_port == 8080
        &&& r.bind_pairs@.len() == 0
        &&& r.ssl_address@ == Seq::<char>::empty()
        &&& r.ssl_port == 8443
        &&& r.ssl_bind_pairs@.len() == 0
        &&& r.ssl_cert_file is None
        &&& r.ssl_key_file is None
        &&& r.password_db@ == "./webserver/passwd.db3"@
        &&& r.settings_db@ == "./webserver/user_settings.db3"@
        &&& r.server_socket_path is None
        &&& r.server_id@ == Seq::<char>::empty()
        &&& r.game_data_no_cache
        &&& !r.watch_socket_dirs
        &&& r.max_connections == 100
        &&& r.connection_timeout_secs == 10 * 60
        &&& r.max_idle_time_secs == 5 * 60 * 60
        &&& r.max_lobby_idle_time_secs == 3 * 60 * 60
        &&& r.kill_timeout_secs == 10
        &&& r.nick_regex@ == "^[a-zA-Z0-9]{3,20}$"@
        &&& r.max_passwd_length == 20
        &&& !r.allow_password_reset
        &&& !r.admin_password_reset
        &&& r.crypt_algorithm == CryptAlgorithm::Broken
        &&& r.crypt_salt_length == 16
        &&& r.login_token_lifetime_days == 7
        &&& r.recovery_token_lifetime_hours == 12
        &&& r.lobby_update_rate_secs == 2
        &&& r.status_file_update_rate_secs == 30
        &&& r.dgl_status_file is None
        &&& r.use_gzip
        &&& !r.no_cache
        &&& !r.development_mode
        &&& !r.live_debug
        &&& r.enable_ttyrecs
        &&& r.recording_term_size == (80u16, 24u16)
        &&& r.allow_anon_spectate
        &&& r.max_chat_length == 1000
        &&& !r.new_accounts_disabled
        &&& !r.new_accounts_hold
        &&& !r.bot_accounts
        &&& !r.wizard_accounts
        &&& r.banned@.len() == 0
        &&& r.autologin is None
        &&& r.games@ == Map::<Seq<char>, GameConfig>::empty()
        &&& r.templates@ == Map::<Seq<char>, GameTemplate>::empty()
        &&& r.use_game_yaml is None
        &&& !r.daemon
        &&& r.pidfile is None
        &&& r.umask is None
        &&& r.uid is None
        &&& r.gid is None
        &&& r.chroot is None
        &&& r.lobby_url is None
        &&& r.player_url is None
        &&& r.server_path@ == Seq::<char>::empty()
    }
}

impl Default for ServerConfig {
    fn default() -> (r: Self)
        ensures
            r.is_default(),
    {
        ServerConfig::new()
    }
}
} // verus!

verus! {

/// The resolved fields of game `id` in `cfg`: the game's own fields over
/// those of its template chain.
pub open spec fn resolved_fields(cfg: ServerConfig, id: Seq<char>) -> GameFieldsView {
    let g = cfg.games@[id];
    fold_view(
        seq![g.fields@] + chain_spec(
            cfg.templates@,
            implicit_template(opt_view(g.template), id),
            Set::empty(),
        ),
    )
}

/// What a game sets itself is what it resolves to, whatever its templates
/// say: each optional field the game sets, each list it gives non-empty,
/// and its environment when it gives one.
pub proof fn lemma_own_fields_win(cfg: ServerConfig, id: Seq<char>)
    requires
        cfg.games@.contains_key(id),
    ensures
        ({
            let g = cfg.games@[id].fields@;
            let r = resolved_fields(cfg, id);
            &&& g.name is Some ==> r.name == g.name
            &&& g.version is Some ==> r.version == g.version
            &&& g.crawl_binary is Some ==> r.crawl_binary == g.crawl_binary
            &&& g.pre_options.len() != 0 ==> r.pre_options == g.pre_options
            &&& g.options.len() != 0 ==> r.options == g.options
            &&& g.rcfile_path is Some ==> r.rcfile_path == g.rcfile_path
            &&& g.macro_path is Some ==> r.macro_path == g.macro_path
            &&& g.morgue_path is Some ==> r.morgue_path == g.morgue_path
            &&& g.morgue_url is Some ==> r.morgue_url == g.morgue_url
            &&& g.inprogress_path is Some ==> r.inprogress_path == g.inprogress_path
            &&& g.ttyrec_path is Some ==> r.ttyrec_path == g.ttyrec_path
            &&& g.socket_path is Some ==> r.socket_path == g.socket_path
            &&& g.client_path is Some ==> r.client_path == g.client_path
            &&& g.dir_path is Some ==> r.dir_path == g.dir_path
            &&& g.cwd is Some ==> r.cwd == g.cwd
            &&& g.env.dom() != Set::<Seq<char>>::empty() ==> r.env == g.env
            &&& g.show_save_info is Some ==> r.show_save_info == g.show_save_info
            &&& g.allowed_with_hold is Some ==> r.allowed_with_hold == g.allowed_with_hold
            &&& g.send_json_options is Some ==> r.send_json_options == g.send_json_options
            &&& g.milestone_file is Some ==> r.milestone_file == g.milestone_file
        }),
{
    let gc = cfg.games@[id];
    let c = chain_spec(cfg.templates@, implicit_template(opt_view(gc.template), id), Set::empty());
    let full = seq![gc.fields@] + c;
    assert(full.drop_first() =~= c);
    assert(full[0] == gc.fields@);
    assert(resolved_fields(cfg, id) == merge_view(fold_view(c), gc.fields@));
}

/// A game without a template of its own inherits from `default`: when
/// `default` itself names no template, the game's fields are its own
/// where set, else `default`'s.
pub proof fn lemma_resolve_over_default(cfg: ServerConfig, id: Seq<char>)
    requires
        cfg.games@.contains_key(id),
        cfg.games@[id].template is None,
        id != "default"@,
        id != "base"@,
        cfg.templates@.contains_key("default"@),
        cfg.templates@["default"@].template is None,
    ensures
        resolved_fields(cfg, id) == merge_view(
            merge_view(empty_fields_view(), cfg.templates@["default"@].fields@),
            cfg.games@[id].fields@,
        ),
{
    cfg.templates.lemma_finite();
    let tmap = cfg.templates@;
    let g = cfg.games@[id];
    let t = tmap["default"@];
    assert(implicit_template(opt_view(g.template), id) == Some("default"@));
    assert(implicit_template(opt_view(t.template), "default"@) is None);
    let rest = chain_spec(tmap, None, Set::<Seq<char>>::empty().insert("default"@));
    assert(rest == Seq::<GameFieldsView>::empty());
    let c = chain_spec(tmap, Some("default"@), Set::empty());
    assert(c == seq![t.fields@] + rest);
    let full = seq![g.fields@] + c;
    assert(full =~= seq![g.fields@, t.fields@]);
    assert(full.drop_first() =~= seq![t.fields@]);
    assert(full.drop_first().drop_first() =~= Seq::<GameFieldsView>::empty());
    assert(fold_view(full.drop_first()) == merge_view(fold_view(Seq::<GameFieldsView>::empty()), t.fields@));
}

/// Whether `s` is among the views of `v`.
fn seen_contains(v: &Vec<String>, s: &String) -> (r: bool)
    ensures
        r == exists|i: int| 0 <= i < v@.len() && v@[i]@ == s@,
{
    let mut i: usize = 0;
    while i < v.len()
        invariant
            i <= v@.len(),
            forall|k: int| 0 <= k < i ==> v@[k]@ != s@,
        decreases v.len() - i,
    {
        if v[i] == *s {
            return true;
        }
        i = i + 1;
    }
    false
}

impl ServerConfig {
    /// Resolves game `id`, applying template inheritance (a template chain
    /// that loops back on itself stops at the repeat).
    pub fn resolve_game(&self, id: &str) -> (r: Option<ResolvedGame>)
        ensures
            match r {
                None => !self.games@.contains_key(id@),
                Some(g) => self.games@.contains_key(id@) && g.id@ == id@ && g.fields@
                    == resolved_fields(*self, id@),
            },
    {
        let key = String::from_str(id);
        let game = match self.games.get(&key) {
            Some(g) => g,
            None => {
                return None;
            },
        };
        let template = implicit_template_exec(&game.template, &key);
        let ghost tmap = self.templates@;
        proof {
            self.templates.lemma_finite();
        }
        let ghost full = seq![game.fields@] + chain_spec(tmap, opt_view(template), Set::empty());
        let mut chain: Vec<GameFields> = Vec::new();
        chain.push(game.fields.duplicate());
        let mut seen: Vec<String> = Vec::new();
        let ghost mut seen_set: Set<Seq<char>> = Set::empty();
        let mut next = template;
        loop
            invariant
                tmap == self.templates@,
                tmap.dom().finite(),
                forall|x: Seq<char>|
                    seen_set.contains(x) <==> exists|i: int| 0 <= i < seen@.len() && seen@[i]@ == x,
                chain@.len() >= 1,
                full == chain@.map_values(|f: GameFields| f@) + chain_spec(
                    tmap,
                    opt_view(next),
                    seen_set,
                ),
            ensures
                full == chain@.map_values(|f: GameFields| f@),
            decreases tmap.dom().difference(seen_set).len(),
        {
            let ghost cur = chain@.map_values(|f: GameFields| f@);
            let name = match next {
                None => {
                    assert(full =~= cur);
                    break;
                },
                Some(n) => n,
            };
            if seen_contains(&seen, &name) {
                assert(full =~= cur);
                break;
            }
            match self.templates.get(&name) {
                None => {
                    assert(full =~= cur);
                    break;
                },
                Some(t) => {
                    proof {
                        tmap.dom().lemma_set_insert_diff_decreases(seen_set, name@);
                    }
                    let ghost old_chain = chain@.map_values(|f: GameFields| f@);
                    let ghost old_seen = seen_set;
                    let ghost old_vec = seen@;
                    chain.push(t.fields.duplicate());
                    next = implicit_template_exec(&t.template, &name);
                    seen.push(name);
                    proof {
                        seen_set = seen_set.insert(seen@.last()@);
                        assert forall|x: Seq<char>| seen_set.contains(x) <==> exists|i: int|
                            0 <= i < seen@.len() && seen@[i]@ == x by {
                            if seen_set.contains(x) && x != seen@.last()@ {
                                assert(old_seen.contains(x));
                                let i = choose|i: int| 0 <= i < old_vec.len() && old_vec[i]@ == x;
                                assert(seen@[i] == old_vec[i]);
                            }
                            if exists|i: int| 0 <= i < seen@.len() && seen@[i]@ == x {
                                let i = choose|i: int| 0 <= i < seen@.len() && seen@[i]@ == x;
                                if i < seen@.len() - 1 {
                                    assert(old_vec[i] == seen@[i]);
                                    assert(old_seen.contains(x));
                                }
                            }
                        }
                        assert(chain@.map_values(|f: GameFields| f@) =~= old_chain.push(t.fields@));
                        assert(full == chain@.map_values(|f: GameFields| f@) + chain_spec(
                            tmap,
                            opt_view(next),
                            seen_set,
                        )) by {
                            assert(old_chain + (seq![t.fields@] + chain_spec(
                                tmap,
                                opt_view(next),
                                seen_set,
                            )) =~= old_chain.push(t.fields@) + chain_spec(
                                tmap,
                                opt_view(next),
                                seen_set,
                            ));
                        }
                    }
                },
            }
        }
        let ghost cv = full;
        let mut merged = GameFields::new();
        assert(cv.subrange(chain@.len() as int, cv.len() as int) =~= Seq::<GameFieldsView>::empty());
        while chain.len() > 0
            invariant
                chain@.len() <= cv.len(),
                chain@.map_values(|f: GameFields| f@) == cv.take(chain@.len() as int),
                merged@ == fold_view(cv.subrange(chain@.len() as int, cv.len() as int)),
            decreases chain@.len(),
        {
            let ghost n = chain@.len();
            let ghost before = chain@;
            let overlay = chain.pop().unwrap();
            assert(overlay@ == cv[n - 1]) by {
                assert(cv.take(n as int)[n - 1] == cv[n - 1]);
                assert(before.map_values(|f: GameFields| f@)[n - 1] == before[n - 1]@);
            }
            merge_game_fields(&mut merged, overlay);
            assert(cv.subrange(n - 1, cv.len() as int).drop_first() =~= cv.subrange(
                n as int,
                cv.len() as int,
            ));
            assert(chain@.map_values(|f: GameFields| f@) =~= cv.take(chain@.len() as int));
        }
        assert(cv.subrange(0, cv.len() as int) =~= cv);
        Some(ResolvedGame { id: key, fields: merged })
    }
}

} // verus!

verus! {

/// What `char::to_uppercase` yields for `c`.
pub uninterp spec fn char_upper(c: char) -> Seq<char>;

/// The uppercase of an ASCII character: `a`..=`z` become `A`..=`Z`, any
/// other ASCII character stays as it is.
pub open spec fn ascii_upper(c: char) -> char {
    if 'a' <= c <= 'z' {
        ((c as u32) - 32) as char
    } else {
        c
    }
}

/// `char::to_uppercase` (std): the uppercase mapping of `c`, one or more
/// characters. Its result is named; Unicode case tables are not modelled
/// here, but for ASCII the documentation's mapping is stated: a lowercase
/// ASCII letter gives its capital, and a character without an uppercase
/// mapping gives itself.
#[verifier::external_body]
fn upper_chars(c: char) -> (r: Vec<char>)
    ensures
        r@ == char_upper(c),
        (c as u32) < 128 ==> r@ == seq![ascii_upper(c)],
{
    c.to_uppercase().collect()
}

/// `s` with its first character uppercased.
pub open spec fn capitalize(s: Seq<char>) -> Seq<char> {
    if s.len() == 0 {
        Seq::empty()
    } else {
        char_upper(s[0]) + s.drop_first()
    }
}

/// A version without a leading `0.` (unchanged when it has none).
pub open spec fn raw_version(v: Seq<char>) -> Seq<char> {
    if occurs_at(v, "0."@, 0) {
        v.subrange(2, v.len() as int)
    } else {
        v
    }
}

/// The error message for a placeholder whose value is missing.
pub open spec fn missing_msg(what: Seq<char>, s: Seq<char>) -> Seq<char> {
    what + " used in config templating but not set: "@ + s
}

/// One substitution step: if `pat` occurs, replace every occurrence with
/// `val`, or fail when `val` is missing.
pub open spec fn dgl_step(
    r: Result<Seq<char>, Seq<char>>,
    pat: Seq<char>,
    val: Option<Seq<char>>,
    what: Seq<char>,
    orig: Seq<char>,
) -> Result<Seq<char>, Seq<char>> {
    match r {
        Err(m) => Err(m),
        Ok(out) => if contains_seq(out, pat) {
            match val {
                Some(v) => Ok(replace_all(out, pat, v)),
                None => Err(missing_msg(what, orig)),
            }
        } else {
            Ok(out)
        },
    }
}

/// `%n` → username, `%v` → version, `%V` → capitalized version, `%r` →
/// version after its `0.`, in that order; `Err` carries the message.
pub open spec fn dgl_spec(s: Seq<char>, username: Option<Seq<char>>, version: Option<Seq<char>>) -> Result<
    Seq<char>,
    Seq<char>,
> {
    let v_cap = match version {
        Some(v) => Some(capitalize(v)),
        None => None,
    };
    let v_raw = match version {
        Some(v) => Some(raw_version(v)),
        None => None,
    };
    let r1 = dgl_step(Ok(s), "%n"@, username, "username"@, s);
    let r2 = dgl_step(r1, "%v"@, version, "version"@, s);
    let r3 = dgl_step(r2, "%V"@, v_cap, "version"@, s);
    dgl_step(r3, "%r"@, v_raw, "version"@, s)
}

/// When templating fails: exactly when `%n` occurs without a user name,
/// or one of `%v`, `%V`, `%r` occurs without a version. This holds of
/// every template without `%%` whose user name holds no `%` (those can
/// make a new placeholder out of a substitution).
pub proof fn lemma_dgl_fails_exactly_when(
    s: Seq<char>,
    username: Option<Seq<char>>,
    version: Option<Seq<char>>,
)
    requires
        !has_pair(s, '%', '%'),
        username matches Some(u) ==> lacks_char(u, '%'),
    ensures
        dgl_spec(s, username, version) is Err <==> ((contains_seq(s, "%n"@) && username is None)
            || ((contains_seq(s, "%v"@) || contains_seq(s, "%V"@) || contains_seq(s, "%r"@))
            && version is None)),
{
    reveal_strlit("%n");
    reveal_strlit("%v");
    reveal_strlit("%V");
    reveal_strlit("%r");
    assert("%n"@ =~= seq!['%', 'n']);
    assert("%v"@ =~= seq!['%', 'v']);
    assert("%V"@ =~= seq!['%', 'V']);
    assert("%r"@ =~= seq!['%', 'r']);
    let r1 = dgl_step(Ok(s), "%n"@, username, "username"@, s);
    if let Ok(t) = r1 {
        assert(s.subrange(0, s.len() as int) =~= s);
        if contains_seq(s, "%n"@) {
            let u = username->0;
            assert(t == replace_from(s, seq!['%', 'n'], u, 0));
            lemma_replace_keeps_pairs(s, 'n', u, 0, 'v');
            lemma_replace_keeps_pairs(s, 'n', u, 0, 'V');
            lemma_replace_keeps_pairs(s, 'n', u, 0, 'r');
        }
        lemma_contains_pair(s, '%', 'v');
        lemma_contains_pair(s, '%', 'V');
        lemma_contains_pair(s, '%', 'r');
        lemma_contains_pair(t, '%', 'v');
        lemma_contains_pair(t, '%', 'V');
        lemma_contains_pair(t, '%', 'r');
        assert(contains_seq(t, "%v"@) == contains_seq(s, "%v"@));
        assert(contains_seq(t, "%V"@) == contains_seq(s, "%V"@));
        assert(contains_seq(t, "%r"@) == contains_seq(s, "%r"@));
    }
}

/// Spec view of a templating result.
pub open spec fn dgl_result(r: Result<String, WebtilesError>) -> Result<Seq<char>, Seq<char>> {
    match r {
        Ok(s) => Ok(s@),
        Err(WebtilesError::Config(m)) => Err(m@),
        Err(_) => Err(Seq::empty()),
    }
}

fn capitalize_exec(v: &Vec<char>) -> (r: Vec<char>)
    ensures
        r@ == capitalize(v@),
        v@.len() > 0 && (v@[0] as u32) < 128 ==> char_upper(v@[0]) == seq![ascii_upper(v@[0])],
{
    if v.len() == 0 {
        return Vec::new();
    }
    let mut r = upper_chars(v[0]);
    push_range(&mut r, v, 1, v.len());
    assert(v@.subrange(1, v@.len() as int) =~= v@.drop_first());
    r
}

fn raw_version_exec(v: &Vec<char>) -> (r: Vec<char>)
    ensures
        r@ == raw_version(v@),
{
    let p = chars_of("0.");
    proof {
        reveal_strlit("0.");
    }
    if occurs_at_exec(v, p.as_slice(), 0) {
        slice_of(v, 2, v.len())
    } else {
        slice_of(v, 0, v.len())
    }
}

fn dgl_step_exec(
    out: Vec<char>,
    pat: &str,
    val: Option<Vec<char>>,
    what: &str,
    orig: &str,
) -> (r: Result<Vec<char>, WebtilesError>)
    requires
        pat@.len() > 0,
    ensures
        dgl_step(Ok(out@), pat@, match val {
            Some(v) => Some(v@),
            None => None,
        }, what@, orig@) == match r {
            Ok(o) => Ok(o@),
            Err(WebtilesError::Config(m)) => Err(m@),
            Err(_) => Err(Seq::<char>::empty()),
        },
        r is Err ==> r matches Err(WebtilesError::Config(_)),
{
    let p = chars_of(pat);
    if contains_chars(&out, p.as_slice()) {
        match val {
            Some(v) => Ok(replace_chars(&out, &p, &v)),
            None => {
                let mut m = String::from_str(what);
                m.append(" used in config templating but not set: ");
                m.append(orig);
                Err(WebtilesError::Config(m))
            },
        }
    } else {
        Ok(out)
    }
}

/// Applies `%n`/`%v`/`%V`/`%r` templating to `s` (see [`dgl_spec`]).
pub fn dgl_format_str(s: &str, username: Option<&str>, version: Option<&str>) -> (r: Result<
    String,
    WebtilesError,
>)
    ensures
        dgl_result(r) == dgl_spec(
            s@,
            match username {
                Some(u) => Some(u@),
                None => None,
            },
            match version {
                Some(v) => Some(v@),
                None => None,
            },
        ),
        r is Err ==> r matches Err(WebtilesError::Config(_)),
        version matches Some(v) ==> (v@.len() > 0 && (v@[0] as u32) < 128 ==> char_upper(v@[0])
            == seq![ascii_upper(v@[0])]),
{
    proof {
        reveal_strlit("%n");
        reveal_strlit("%v");
        reveal_strlit("%V");
        reveal_strlit("%r");
    }
    let u = match username {
        Some(u) => Some(chars_of(u)),
        None => None,
    };
    let (v, v_cap, v_raw) = match version {
        Some(v) => {
            let vc = chars_of(v);
            let cap = capitalize_exec(&vc);
            let raw = raw_version_exec(&vc);
            (Some(vc), Some(cap), Some(raw))
        },
        None => (None, None, None),
    };
    let out = chars_of(s);
    let out = match dgl_step_exec(out, "%n", u, "username", s) {
        Ok(o) => o,
        Err(e) => {
            return Err(e);
        },
    };
    let out = match dgl_step_exec(out, "%v", v, "version", s) {
        Ok(o) => o,
        Err(e) => {
            return Err(e);
        },
    };
    let out = match dgl_step_exec(out, "%V", v_cap, "version", s) {
        Ok(o) => o,
        Err(e) => {
            return Err(e);
        },
    };
    let out = match dgl_step_exec(out, "%r", v_raw, "version", s) {
        Ok(o) => o,
        Err(e) => {
            return Err(e);
        },
    };
    Ok(string_of(&out))
}

impl ResolvedGame {
    /// Applies `%n`/`%v`/`%V`/`%r` templating to `s` with this game's version.
    pub fn templated(&self, s: &str, username: Option<&str>) -> (r: Result<String, WebtilesError>)
        ensures
            dgl_result(r) == dgl_spec(
                s@,
                match username {
                    Some(u) => Some(u@),
                    None => None,
                },
                opt_view(self.fields.version),
            ),
            r is Err ==> r matches Err(WebtilesError::Config(_)),
    {
        match &self.fields.version {
            Some(v) => dgl_format_str(s, username, Some(v.as_str())),
            None => dgl_format_str(s, username, None),
        }
    }

    /// Whether `-no-player-bones` should be passed: decided by the caller
    /// from the account's state, so always `false` here.
    pub fn account_restricted_flag(&self) -> (r: bool)
        ensures
            !r,
    {
        false
    }
}

} // verus!

verus! {

/// Command-line overrides (`--port`, `--ssl-port`, `--logfile`, `--daemon`,
/// `--no-pidfile`, `--live-debug`).
#[derive(Debug, Clone, Default)]
pub struct CliOverrides {
    /// A port to bind; disables SSL.
    pub port: Option<u16>,
    /// An SSL port to bind.
    pub ssl_port: Option<u16>,
    /// A logfile to write to; "-" for stdout.
    pub logfile: Option<String>,
    /// Daemonize after start.
    pub daemon: Option<bool>,
    /// Do not use a PID file.
    pub no_pidfile: bool,
    /// Debug mode for server admins.
    pub live_debug: bool,
}

/// The listening part of the command-line overrides.
fn apply_bind_overrides(
    bind_nonsecure: &mut BindMode,
    bind_address: &mut String,
    bind_port: &mut u16,
    bind_pairs: &mut Vec<(String, u16)>,
    ssl_bind_pairs: &mut Vec<(String, u16)>,
    ssl_cert_file: &mut Option<String>,
    ssl_key_file: &mut Option<String>,
    port: Option<u16>,
    ssl_port: Option<u16>,
)
    ensures
        port is Some ==> *final(ssl_cert_file) is None && *final(ssl_key_file) is None,
        port is None ==> *final(ssl_cert_file) == *old(ssl_cert_file) && *final(ssl_key_file)
            == *old(ssl_key_file),
        match port {
            Some(port) => {
                &&& *final(bind_nonsecure) == BindMode::Enabled
                &&& final(bind_address)@ == Seq::<char>::empty()
                &&& *final(bind_port) == port
                &&& final(bind_pairs)@.len() == 0
                &&& final(ssl_bind_pairs)@.len() == 0
            },
            None => match ssl_port {
                Some(ssl_port) => {
                    &&& *final(bind_nonsecure) == BindMode::Disabled
                    &&& final(ssl_bind_pairs)@.len() == 1
                    &&& final(ssl_bind_pairs)@[0].0@ == Seq::<char>::empty()
                    &&& final(ssl_bind_pairs)@[0].1 == ssl_port
                    &&& *final(bind_address) == *old(bind_address)
                    &&& *final(bind_port) == *old(bind_port)
                    &&& *final(bind_pairs) == *old(bind_pairs)
                },
                None => {
                    &&& *final(bind_nonsecure) == *old(bind_nonsecure)
                    &&& *final(bind_address) == *old(bind_address)
                    &&& *final(bind_port) == *old(bind_port)
                    &&& *final(bind_pairs) == *old(bind_pairs)
                    &&& *final(ssl_bind_pairs) == *old(ssl_bind_pairs)
                },
            },
        },
{
    if let Some(port) = port {
        *bind_nonsecure = BindMode::Enabled;
        *bind_address = String::new();
        *bind_port = port;
        bind_pairs.clear();
        ssl_bind_pairs.clear();
        *ssl_cert_file = None;
        *ssl_key_file = None;
    } else if let Some(ssl_port) = ssl_port {
        *bind_nonsecure = BindMode::Disabled;
        *ssl_bind_pairs = vec![(String::new(), ssl_port)];
    }
}

/// The process part of the command-line overrides.
fn apply_process_overrides(
    daemon: &mut bool,
    pidfile: &mut Option<String>,
    live_debug: &mut bool,
    watch_socket_dirs: &mut bool,
    args: &CliOverrides,
)
    ensures
        *final(daemon) == if args.live_debug {
            false
        } else {
            match args.daemon {
                Some(d) => d,
                None => *old(daemon),
            }
        },
        *final(pidfile) == if args.no_pidfile || args.live_debug {
            None
        } else {
            *old(pidfile)
        },
        *final(live_debug) == (*old(live_debug) || args.live_debug),
        *final(watch_socket_dirs) == (*old(watch_socket_dirs) && !args.live_debug),
{
    if let Some(d) = args.daemon {
        *daemon = d;
    }
    if args.no_pidfile {
        *pidfile = None;
    }
    if args.live_debug {
        *live_debug = true;
        *watch_socket_dirs = false;
        *daemon = false;
        *pidfile = None;
    }
}

/// All the fields that command-line overrides change, changed at once.
fn apply_cli_fields(
    bind_nonsecure: &mut BindMode,
    bind_address: &mut String,
    bind_port: &mut u16,
    bind_pairs: &mut Vec<(String, u16)>,
    ssl_bind_pairs: &mut Vec<(String, u16)>,
    ssl_cert_file: &mut Option<String>,
    ssl_key_file: &mut Option<String>,
    daemon: &mut bool,
    pidfile: &mut Option<String>,
    live_debug: &mut bool,
    watch_socket_dirs: &mut bool,
    args: &CliOverrides,
)
    ensures
        args.port is Some ==> *final(ssl_cert_file) is None && *final(ssl_key_file) is None,
        args.port is None ==> *final(ssl_cert_file) == *old(ssl_cert_file) && *final(ssl_key_file)
            == *old(ssl_key_file),
        match args.port {
            Some(port) => {
                &&& *final(bind_nonsecure) == BindMode::Enabled
                &&& final(bind_address)@ == Seq::<char>::empty()
                &&& *final(bind_port) == port
                &&& final(bind_pairs)@.len() == 0
                &&& final(ssl_bind_pairs)@.len() == 0
            },
            None => match args.ssl_port {
                Some(ssl_port) => {
                    &&& *final(bind_nonsecure) == BindMode::Disabled
                    &&& final(ssl_bind_pairs)@.len() == 1
                    &&& final(ssl_bind_pairs)@[0].0@ == Seq::<char>::empty()
                    &&& final(ssl_bind_pairs)@[0].1 == ssl_port
                    &&& *final(bind_address) == *old(bind_address)
                    &&& *final(bind_port) == *old(bind_port)
                    &&& *final(bind_pairs) == *old(bind_pairs)
                },
                None => {
                    &&& *final(bind_nonsecure) == *old(bind_nonsecure)
                    &&& *final(bind_address) == *old(bind_address)
                    &&& *final(bind_port) == *old(bind_port)
                    &&& *final(bind_pairs) == *old(bind_pairs)
                    &&& *final(ssl_bind_pairs) == *old(ssl_bind_pairs)
                },
            },
        },
        *final(daemon) == if args.live_debug {
            false
        } else {
            match args.daemon {
                Some(d) => d,
                None => *old(daemon),
            }
        },
        *final(pidfile) == if args.no_pidfile || args.live_debug {
            None
        } else {
            *old(pidfile)
        },
        *final(live_debug) == (*old(live_debug) || args.live_debug),
        *final(watch_socket_dirs) == (*old(watch_socket_dirs) && !args.live_debug),
{
    apply_bind_overrides(
        bind_nonsecure,
        bind_address,
        bind_port,
        bind_pairs,
        ssl_bind_pairs,
        ssl_cert_file,
        ssl_key_file,
        args.port,
        args.ssl_port,
    );
    apply_process_overrides(daemon, pidfile, live_debug, watch_socket_dirs, args);
}

impl ServerConfig {
    /// Every field that `config.yml` overrides never touch is as in `other`.
    /// Every field but the games and templates is as in `other`.
    pub open spec fn same_except_games(&self, other: ServerConfig) -> bool {
        &&& self.same_outside_yaml(other)
        &&& self.banned == other.banned
        &&& self.dgl_mode == other.dgl_mode
        &&& self.bind_port == other.bind_port
        &&& self.bind_address == other.bind_address
        &&& self.password_db == other.password_db
        &&& self.settings_db == other.settings_db
        &&& self.use_game_yaml == other.use_game_yaml
    }

    pub open spec fn same_outside_yaml(&self, other: ServerConfig) -> bool {
        &&& self.bind_nonsecure == other.bind_nonsecure
        &&& self.bind_pairs == other.bind_pairs
        &&& self.ssl_address == other.ssl_address
        &&& self.ssl_port == other.ssl_port
        &&& self.ssl_bind_pairs == other.ssl_bind_pairs
        &&& self.ssl_cert_file == other.ssl_cert_file
        &&& self.ssl_key_file == other.ssl_key_file
        &&& self.server_socket_path == other.server_socket_path
        &&& self.server_id == other.server_id
        &&& self.game_data_no_cache == other.game_data_no_cache
        &&& self.watch_socket_dirs == other.watch_socket_dirs
        &&& self.max_connections == other.max_connections
        &&& self.connection_timeout_secs == other.connection_timeout_secs
        &&& self.max_idle_time_secs == other.max_idle_time_secs
        &&& self.max_lobby_idle_time_secs == other.max_lobby_idle_time_secs
        &&& self.kill_timeout_secs == other.kill_timeout_secs
        &&& self.nick_regex == other.nick_regex
        &&& self.max_passwd_length == other.max_passwd_length
        &&& self.allow_password_reset == other.allow_password_reset
        &&& self.admin_password_reset == other.admin_password_reset
        &&& self.crypt_algorithm == other.crypt_algorithm
        &&& self.crypt_salt_length == other.crypt_salt_length
        &&& self.login_token_lifetime_days == other.login_token_lifetime_days
        &&& self.recovery_token_lifetime_hours == other.recovery_token_lifetime_hours
        &&& self.lobby_update_rate_secs == other.lobby_update_rate_secs
        &&& self.status_file_update_rate_secs == other.status_file_update_rate_secs
        &&& self.dgl_status_file == other.dgl_status_file
        &&& self.use_gzip == other.use_gzip
        &&& self.no_cache == other.no_cache
        &&& self.development_mode == other.development_mode
        &&& self.live_debug == other.live_debug
        &&& self.enable_ttyrecs == other.enable_ttyrecs
        &&& self.recording_term_size == other.recording_term_size
        &&& self.allow_anon_spectate == other.allow_anon_spectate
        &&& self.max_chat_length == other.max_chat_length
        &&& self.new_accounts_disabled == other.new_accounts_disabled
        &&& self.new_accounts_hold == other.new_accounts_hold
        &&& self.bot_accounts == other.bot_accounts
        &&& self.wizard_accounts == other.wizard_accounts
        &&& self.autologin == other.autologin
        &&& self.daemon == other.daemon
        &&& self.pidfile == other.pidfile
        &&& self.umask == other.umask
        &&& self.uid == other.uid
        &&& self.gid == other.gid
        &&& self.chroot == other.chroot
        &&& self.lobby_url == other.lobby_url
        &&& self.player_url == other.player_url
        &&& self.server_path == other.server_path
    }

    /// Every field that command-line overrides never touch is as in `other`.
    pub open spec fn same_outside_cli(&self, other: ServerConfig) -> bool {
        &&& self.dgl_mode == other.dgl_mode
        &&& self.ssl_address == other.ssl_address
        &&& self.ssl_port == other.ssl_port
        &&& self.password_db == other.password_db
        &&& self.settings_db == other.settings_db
        &&& self.server_socket_path == other.server_socket_path
        &&& self.server_id == other.server_id
        &&& self.game_data_no_cache == other.game_data_no_cache
        &&& self.max_connections == other.max_connections
        &&& self.connection_timeout_secs == other.connection_timeout_secs
        &&& self.max_idle_time_secs == other.max_idle_time_secs
        &&& self.max_lobby_idle_time_secs == other.max_lobby_idle_time_secs
        &&& self.kill_timeout_secs == other.kill_timeout_secs
        &&& self.nick_regex == other.nick_regex
        &&& self.max_passwd_length == other.max_passwd_length
        &&& self.allow_password_reset == other.allow_password_reset
        &&& self.admin_password_reset == other.admin_password_reset
        &&& self.crypt_algorithm == other.crypt_algorithm
        &&& self.crypt_salt_length == other.crypt_salt_length
        &&& self.login_token_lifetime_days == other.login_token_lifetime_days
        &&& self.recovery_token_lifetime_hours == other.recovery_token_lifetime_hours
        &&& self.lobby_update_rate_secs == other.lobby_update_rate_secs
        &&& self.status_file_update_rate_secs == other.status_file_update_rate_secs
        &&& self.dgl_status_file == other.dgl_status_file
        &&& self.use_gzip == other.use_gzip
        &&& self.no_cache == other.no_cache
        &&& self.development_mode == other.development_mode
        &&& self.enable_ttyrecs == other.enable_ttyrecs
        &&& self.recording_term_size == other.recording_term_size
        &&& self.allow_anon_spectate == other.allow_anon_spectate
        &&& self.max_chat_length == other.max_chat_length
        &&& self.new_accounts_disabled == other.new_accounts_disabled
        &&& self.new_accounts_hold == other.new_accounts_hold
        &&& self.bot_accounts == other.bot_accounts
        &&& self.wizard_accounts == other.wizard_accounts
        &&& self.banned == other.banned
        &&& self.autologin == other.autologin
        &&& self.games == other.games
        &&& self.templates == other.templates
        &&& self.use_game_yaml == other.use_game_yaml
        &&& self.umask == other.umask
        &&& self.uid == other.uid
        &&& self.gid == other.gid
        &&& self.chroot == other.chroot
        &&& self.lobby_url == other.lobby_url
        &&& self.player_url == other.player_url
        &&& self.server_path == other.server_path
    }

    /// Applies command-line overrides, which win over everything else. A
    /// port binds plain HTTP there alone and turns SSL off (no certificate
    /// or key stays configured); an SSL port alone binds SSL there alone.
    #[verifier::rlimit(100)]
    #[verifier::spinoff_prover]
    pub fn apply_cli_overrides(&mut self, args: &CliOverrides)
        ensures
            match args.port {
                Some(port) => {
                    &&& final(self).bind_nonsecure == BindMode::Enabled
                    &&& final(self).bind_address@ == Seq::<char>::empty()
                    &&& final(self).bind_port == port
                    &&& final(self).bind_pairs@.len() == 0
                    &&& final(self).ssl_bind_pairs@.len() == 0
                    &&& final(self).ssl_cert_file is None
                    &&& final(self).ssl_key_file is None
                },
                None => match args.ssl_port {
                    Some(ssl_port) => {
                        &&& final(self).bind_nonsecure == BindMode::Disabled
                        &&& final(self).ssl_bind_pairs@.len() == 1
                        &&& final(self).ssl_bind_pairs@[0].0@ == Seq::<char>::empty()
                        &&& final(self).ssl_bind_pairs@[0].1 == ssl_port
                        &&& final(self).bind_address == old(self).bind_address
                        &&& final(self).bind_port == old(self).bind_port
                        &&& final(self).bind_pairs == old(self).bind_pairs
                        &&& final(self).ssl_cert_file == old(self).ssl_cert_file
                        &&& final(self).ssl_key_file == old(self).ssl_key_file
                    },
                    None => {
                        &&& final(self).ssl_cert_file == old(self).ssl_cert_file
                        &&& final(self).ssl_key_file == old(self).ssl_key_file
                        &&& final(self).bind_nonsecure == old(self).bind_nonsecure
                        &&& final(self).bind_address == old(self).bind_address
                        &&& final(self).bind_port == old(self).bind_port
                        &&& final(self).bind_pairs == old(self).bind_pairs
                        &&& final(self).ssl_bind_pairs == old(self).ssl_bind_pairs
                    },
                },
            },
            final(self).daemon == if args.live_debug {
                false
            } else {
                match args.daemon {
                    Some(d) => d,
                    None => old(self).daemon,
                }
            },
            final(self).pidfile == if args.no_pidfile || args.live_debug {
                None
            } else {
                old(self).pidfile
            },
            final(self).live_debug == (old(self).live_debug || args.live_debug),
            final(self).watch_socket_dirs == (old(self).watch_socket_dirs && !args.live_debug),
            final(self).same_outside_cli(*old(self)),
    {
        apply_cli_fields(
            &mut self.bind_nonsecure,
            &mut self.bind_address,
            &mut self.bind_port,
            &mut self.bind_pairs,
            &mut self.ssl_bind_pairs,
            &mut self.ssl_cert_file,
            &mut self.ssl_key_file,
            &mut self.daemon,
            &mut self.pidfile,
            &mut self.live_debug,
            &mut self.watch_socket_dirs,
            args,
        );
    }
}

} // verus!

verus! {

/// Top-level keys of a `config.yml` document that the server reads; absent
/// keys leave the current value alone.
#[derive(Debug)]
pub struct ConfigOverrides {
    pub dgl_mode: Option<bool>,
    pub bind_port: Option<u16>,
    pub bind_address: Option<String>,
    pub password_db: Option<String>,
    pub settings_db: Option<String>,
    pub use_game_yaml: Option<bool>,
    pub games: Option<Table<GameConfig>>,
    pub templates: Option<Table<GameTemplate>>,
    pub banned: Option<Vec<String>>,
}

impl ConfigOverrides {
    pub fn new() -> (r: Self)
        ensures
            r.dgl_mode is None && r.bind_port is None && r.bind_address is None
                && r.password_db is None && r.settings_db is None && r.use_game_yaml is None
                && r.games is None && r.templates is None && r.banned is None,
    {
        ConfigOverrides {
            dgl_mode: None,
            bind_port: None,
            bind_address: None,
            password_db: None,
            settings_db: None,
            use_game_yaml: None,
            games: None,
            templates: None,
            banned: None,
        }
    }
}

/// `o` if present, else `cur`.
pub open spec fn or_keep<T>(o: Option<T>, cur: T) -> T {
    match o {
        Some(v) => v,
        None => cur,
    }
}

fn keep_or<T>(cur: &mut T, o: Option<T>)
    ensures
        *final(cur) == or_keep(o, *old(cur)),
{
    if let Some(v) = o {
        *cur = v;
    }
}

/// `m` with `k` bound to `v` unless `k` is already bound.
pub open spec fn insert_absent<V>(m: Map<Seq<char>, V>, k: Seq<char>, v: V) -> Map<Seq<char>, V> {
    if m.contains_key(k) {
        m
    } else {
        m.insert(k, v)
    }
}

/// Games of a `games.d` file added in order; an id already present wins.
pub open spec fn add_games_spec(m: Map<Seq<char>, GameConfig>, list: Seq<GameConfig>) -> Map<
    Seq<char>,
    GameConfig,
>
    decreases list.len(),
{
    if list.len() == 0 {
        m
    } else {
        add_games_spec(insert_absent(m, list[0].id@, list[0]), list.drop_first())
    }
}

/// Templates of a `games.d` file added in order; entries without an `id`
/// are skipped and a name already present wins.
pub open spec fn add_templates_spec(m: Map<Seq<char>, GameTemplate>, list: Seq<GameTemplate>) -> Map<
    Seq<char>,
    GameTemplate,
>
    decreases list.len(),
{
    if list.len() == 0 {
        m
    } else if list[0].id@.len() == 0 {
        add_templates_spec(m, list.drop_first())
    } else {
        add_templates_spec(insert_absent(m, list[0].id@, list[0]), list.drop_first())
    }
}

/// Adding a `games.d` file's templates: a template already configured
/// stays as it was; a name not yet configured is added exactly when some
/// template of the file with a non-empty id carries it, and the first such
/// template of the file is the one added.
pub proof fn lemma_add_templates(m: Map<Seq<char>, GameTemplate>, list: Seq<GameTemplate>, k: Seq<char>)
    ensures
        m.contains_key(k) ==> add_templates_spec(m, list).contains_key(k) && add_templates_spec(m, list)[k]
            == m[k],
        !m.contains_key(k) ==> (add_templates_spec(m, list).contains_key(k) <==> exists|i: int|
            0 <= i < list.len() && #[trigger] list[i].id@ == k && k.len() > 0),
        forall|i: int|
            0 <= i < list.len() && #[trigger] list[i].id@ == k && k.len() > 0 && !m.contains_key(k)
                && (forall|j: int| 0 <= j < i ==> list[j].id@ != k) ==> add_templates_spec(m, list)[k]
                == list[i],
    decreases list.len(),
{
    if list.len() > 0 {
        let rest = list.drop_first();
        let id0 = list[0].id@;
        let m2 = if id0.len() == 0 {
            m
        } else {
            insert_absent(m, id0, list[0])
        };
        assert(add_templates_spec(m, list) == add_templates_spec(m2, rest));
        lemma_add_templates(m2, rest, k);
        if !m.contains_key(k) {
            if add_templates_spec(m, list).contains_key(k) {
                if m2.contains_key(k) {
                    assert(list[0].id@ == k && k.len() > 0);
                } else {
                    let i = choose|i: int| 0 <= i < rest.len() && #[trigger] rest[i].id@ == k && k.len() > 0;
                    assert(list[i + 1].id@ == k);
                }
            }
            if exists|i: int| 0 <= i < list.len() && #[trigger] list[i].id@ == k && k.len() > 0 {
                let i = choose|i: int| 0 <= i < list.len() && #[trigger] list[i].id@ == k && k.len() > 0;
                if i > 0 && !m2.contains_key(k) {
                    assert(rest[i - 1].id@ == k);
                }
            }
            assert forall|i: int|
                0 <= i < list.len() && #[trigger] list[i].id@ == k && k.len() > 0 && (forall|j: int|
                    0 <= j < i ==> list[j].id@ != k) implies add_templates_spec(m, list)[k] == list[i] by {
                if i > 0 {
                    assert(list[0].id@ != k);
                    assert(!m2.contains_key(k));
                    assert(rest[i - 1].id@ == k);
                    assert forall|j: int| 0 <= j < i - 1 implies rest[j].id@ != k by {
                        assert(rest[j] == list[j + 1]);
                    }
                }
            }
        }
    }
}

/// Adding a `games.d` file's games: a game already configured stays as it
/// was; a name not yet configured is added exactly when some game of the
/// file carries it, and the first such game of the file is the one added.
pub proof fn lemma_add_games(m: Map<Seq<char>, GameConfig>, list: Seq<GameConfig>, k: Seq<char>)
    ensures
        m.contains_key(k) ==> add_games_spec(m, list).contains_key(k) && add_games_spec(m, list)[k]
            == m[k],
        !m.contains_key(k) ==> (add_games_spec(m, list).contains_key(k) <==> exists|i: int|
            0 <= i < list.len() && #[trigger] list[i].id@ == k),
        forall|i: int|
            0 <= i < list.len() && #[trigger] list[i].id@ == k && !m.contains_key(k) && (forall|j: int|
                0 <= j < i ==> list[j].id@ != k) ==> add_games_spec(m, list)[k] == list[i],
    decreases list.len(),
{
    if list.len() > 0 {
        let rest = list.drop_first();
        let id0 = list[0].id@;
        let m2 = insert_absent(m, id0, list[0]);
        assert(add_games_spec(m, list) == add_games_spec(m2, rest));
        lemma_add_games(m2, rest, k);
        if !m.contains_key(k) {
            if add_games_spec(m, list).contains_key(k) {
                if m2.contains_key(k) {
                    assert(list[0].id@ == k);
                } else {
                    let i = choose|i: int| 0 <= i < rest.len() && #[trigger] rest[i].id@ == k;
                    assert(list[i + 1].id@ == k);
                }
            }
            if exists|i: int| 0 <= i < list.len() && #[trigger] list[i].id@ == k {
                let i = choose|i: int| 0 <= i < list.len() && #[trigger] list[i].id@ == k;
                if i > 0 && !m2.contains_key(k) {
                    assert(rest[i - 1].id@ == k);
                }
            }
            assert forall|i: int|
                0 <= i < list.len() && #[trigger] list[i].id@ == k && (forall|j: int|
                    0 <= j < i ==> list[j].id@ != k) implies add_games_spec(m, list)[k] == list[i] by {
                if i > 0 {
                    assert(list[0].id@ != k);
                    assert(!m2.contains_key(k));
                    assert(rest[i - 1].id@ == k);
                    assert forall|j: int| 0 <= j < i - 1 implies rest[j].id@ != k by {
                        assert(rest[j] == list[j + 1]);
                    }
                }
            }
        }
    }
}

fn append_banned(banned: &mut Vec<String>, more: Option<Vec<String>>)
    ensures
        final(banned)@ == match more {
            Some(b) => old(banned)@ + b@,
            None => old(banned)@,
        },
{
    if let Some(mut b) = more {
        banned.append(&mut b);
    }
}

fn set_if_some(cur: &mut Option<bool>, o: Option<bool>)
    ensures
        *final(cur) == match o {
            Some(v) => Some(v),
            None => *old(cur),
        },
{
    if let Some(v) = o {
        *cur = Some(v);
    }
}

impl ServerConfig {
    /// Merges a `config.yml` document's keys over the current values:
    /// `games` and `templates` replace the current tables, `banned` is
    /// appended, every other present key replaces its field.
    #[verifier::rlimit(100)]
    pub fn merge_overrides(&mut self, overrides: ConfigOverrides)
        ensures
            final(self).games == or_keep(overrides.games, old(self).games),
            final(self).templates == or_keep(overrides.templates, old(self).templates),
            final(self).banned@ == match overrides.banned {
                Some(b) => old(self).banned@ + b@,
                None => old(self).banned@,
            },
            final(self).dgl_mode == or_keep(overrides.dgl_mode, old(self).dgl_mode),
            final(self).bind_port == or_keep(overrides.bind_port, old(self).bind_port),
            final(self).bind_address == or_keep(overrides.bind_address, old(self).bind_address),
            final(self).password_db == or_keep(overrides.password_db, old(self).password_db),
            final(self).settings_db == or_keep(overrides.settings_db, old(self).settings_db),
            final(self).use_game_yaml == match overrides.use_game_yaml {
                Some(v) => Some(v),
                None => old(self).use_game_yaml,
            },
            final(self).same_outside_yaml(*old(self)),
    {
        let ConfigOverrides {
            dgl_mode,
            bind_port,
            bind_address,
            password_db,
            settings_db,
            use_game_yaml,
            games,
            templates,
            banned,
        } = overrides;
        keep_or(&mut self.games, games);
        keep_or(&mut self.templates, templates);
        append_banned(&mut self.banned, banned);
        keep_or(&mut self.dgl_mode, dgl_mode);
        keep_or(&mut self.bind_port, bind_port);
        keep_or(&mut self.bind_address, bind_address);
        keep_or(&mut self.password_db, password_db);
        keep_or(&mut self.settings_db, settings_db);
        set_if_some(&mut self.use_game_yaml, use_game_yaml);
    }

    /// Whether the `games.d` directory is read: as `use_game_yaml` says, or
    /// else when no games are configured yet.
    pub fn reads_games_dir(&self) -> (r: bool)
        ensures
            r == match self.use_game_yaml {
                Some(b) => b,
                None => self.games@.dom() == Set::<Seq<char>>::empty(),
            },
    {
        match self.use_game_yaml {
            Some(b) => b,
            None => self.games.is_empty(),
        }
    }

    /// Adds the games and templates of one `games.d` file; entries whose id
    /// is already configured are ignored.
    pub fn add_games_file(&mut self, games: Vec<GameConfig>, templates: Vec<GameTemplate>)
        ensures
            final(self).games@ == add_games_spec(old(self).games@, games@),
            final(self).templates@ == add_templates_spec(old(self).templates@, templates@),
            final(self).same_except_games(*old(self)),
    {
        let mut games = games;
        let ghost g0 = games@;
        while games.len() > 0
            invariant
                add_games_spec(old(self).games@, g0) == add_games_spec(self.games@, games@),
                self.templates@ == old(self).templates@,
                self.same_except_games(*old(self)),
            decreases games@.len(),
        {
            let ghost before = games@;
            let g = games.remove(0);
            assert(games@ =~= before.drop_first());
            if self.games.get(&g.id).is_none() {
                let k = g.id.clone();
                self.games.insert(k, g);
            }
        }
        let mut templates = templates;
        let ghost t0 = templates@;
        let ghost mid = self.templates@;
        while templates.len() > 0
            invariant
                self.games@ == add_games_spec(old(self).games@, g0),
                add_templates_spec(mid, t0) == add_templates_spec(
                    self.templates@,
                    templates@,
                ),
                self.same_except_games(*old(self)),
            decreases templates@.len(),
        {
            let ghost before = templates@;
            let t = templates.remove(0);
            assert(templates@ =~= before.drop_first());
            if !t.id.as_str().is_empty() && self.templates.get(&t.id).is_none() {
                let k = t.id.clone();
                self.templates.insert(k, t);
            }
        }
    }
}

} // verus!
