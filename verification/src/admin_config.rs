//! Configuration of the admin panel and hub (`admin.toml`): the registered
//! server nodes, which one is the default, the hub's listen ports and token,
//! and how an upstream address becomes an HTTP or WebSocket base URL.

use vstd::prelude::*;
use crate::text::{
    chars_eq, chars_of, decimal, extend_chars, has_prefix, push_decimal, slice_vec,
    starts_with_chars, string_from, trim, trim_chars, trim_end_char, trim_end_char_chars, trim_str,
};

verus! {

/// A server node that the panel can manage.
pub struct ServerEntry {
    pub id: String,
    pub name: String,
    /// `host:port` of that node's management API (HTTP fallback).
    pub api_upstream: String,
}

pub struct ServerEntryView {
    pub id: Seq<char>,
    pub name: Seq<char>,
    pub api_upstream: Seq<char>,
}

impl View for ServerEntry {
    type V = ServerEntryView;

    open spec fn view(&self) -> ServerEntryView {
        ServerEntryView { id: self.id@, name: self.name@, api_upstream: self.api_upstream@ }
    }
}

impl Clone for ServerEntry {
    fn clone(&self) -> (r: Self)
        ensures
            r@ == self@,
    {
        ServerEntry {
            id: self.id.clone(),
            name: self.name.clone(),
            api_upstream: self.api_upstream.clone(),
        }
    }
}

/// The admin panel's configuration.
pub struct AdminConfig {
    pub listen: String,
    pub listen_port: u16,
    /// Fallback upstream; seeds `servers` when that list is empty.
    pub api_upstream: String,
    pub default_server: Option<String>,
    pub servers: Vec<ServerEntry>,
    /// Whether the hub (control and relay mesh) runs.
    pub hub_enabled: bool,
    pub hub_listen: String,
    pub hub_control_port: u16,
    pub hub_data_port: u16,
    /// Shared token of the servers and edges that dial into the hub.
    pub hub_token: String,
}

pub struct AdminConfigView {
    pub listen: Seq<char>,
    pub listen_port: u16,
    pub api_upstream: Seq<char>,
    pub default_server: Option<Seq<char>>,
    pub servers: Seq<ServerEntryView>,
    pub hub_enabled: bool,
    pub hub_listen: Seq<char>,
    pub hub_control_port: u16,
    pub hub_data_port: u16,
    pub hub_token: Seq<char>,
}

pub open spec fn opt_str(o: Option<String>) -> Option<Seq<char>> {
    match o {
        Some(s) => Some(s@),
        None => None,
    }
}

pub open spec fn entries_view(v: Seq<ServerEntry>) -> Seq<ServerEntryView> {
    v.map_values(|e: ServerEntry| e@)
}

impl View for AdminConfig {
    type V = AdminConfigView;

    open spec fn view(&self) -> AdminConfigView {
        AdminConfigView {
            listen: self.listen@,
            listen_port: self.listen_port,
            api_upstream: self.api_upstream@,
            default_server: opt_str(self.default_server),
            servers: entries_view(self.servers@),
            hub_enabled: self.hub_enabled,
            hub_listen: self.hub_listen@,
            hub_control_port: self.hub_control_port,
            hub_data_port: self.hub_data_port,
            hub_token: self.hub_token@,
        }
    }
}

// ---------------------------------------------------------------------------
// Defaults
// ---------------------------------------------------------------------------

pub open spec fn default_listen_text() -> Seq<char> {
    "0.0.0.0"@
}

pub open spec fn default_upstream_text() -> Seq<char> {
    "127.0.0.1:3000"@
}

pub open spec fn default_hub_token_text() -> Seq<char> {
    "change-me-hub-token"@
}

pub open spec fn default_server_id_text() -> Seq<char> {
    "default"@
}

pub open spec fn default_server_name_text() -> Seq<char> {
    "默认服务端"@
}

/// The entry that stands for the local server when none is configured.
pub open spec fn seed_entry(upstream: Seq<char>) -> ServerEntryView {
    ServerEntryView {
        id: default_server_id_text(),
        name: default_server_name_text(),
        api_upstream: upstream,
    }
}

pub fn default_listen() -> (r: String)
    ensures
        r@ == default_listen_text(),
{
    "0.0.0.0".to_owned()
}

pub fn default_listen_port() -> (r: u16)
    ensures
        r == 8088,
{
    8088
}

pub fn default_api_upstream() -> (r: String)
    ensures
        r@ == default_upstream_text(),
{
    "127.0.0.1:3000".to_owned()
}

pub fn default_hub_control_port() -> (r: u16)
    ensures
        r == 7100,
{
    7100
}

pub fn default_hub_data_port() -> (r: u16)
    ensures
        r == 7101,
{
    7101
}

pub fn default_hub_token() -> (r: String)
    ensures
        r@ == default_hub_token_text(),
{
    "change-me-hub-token".to_owned()
}

pub fn default_true() -> (r: bool)
    ensures
        r,
{
    true
}

fn seed_server_entry(upstream: String) -> (r: ServerEntry)
    ensures
        r@ == seed_entry(upstream@),
{
    ServerEntry { id: "default".to_owned(), name: "默认服务端".to_owned(), api_upstream: upstream }
}

/// The configuration written when `admin.toml` does not exist.
pub open spec fn default_admin_view() -> AdminConfigView {
    AdminConfigView {
        listen: default_listen_text(),
        listen_port: 8088,
        api_upstream: default_upstream_text(),
        default_server: Some(default_server_id_text()),
        servers: seq![seed_entry(default_upstream_text())],
        hub_enabled: true,
        hub_listen: default_listen_text(),
        hub_control_port: 7100,
        hub_data_port: 7101,
        hub_token: default_hub_token_text(),
    }
}

impl Default for AdminConfig {
    fn default() -> (r: Self)
        ensures
            r@ == default_admin_view(),
    {
        let upstream = default_api_upstream();
        let mut servers: Vec<ServerEntry> = Vec::new();
        servers.push(seed_server_entry(upstream.clone()));
        let r = AdminConfig {
            listen: default_listen(),
            listen_port: default_listen_port(),
            api_upstream: upstream,
            default_server: Some("default".to_owned()),
            servers,
            hub_enabled: true,
            hub_listen: default_listen(),
            hub_control_port: default_hub_control_port(),
            hub_data_port: default_hub_data_port(),
            hub_token: default_hub_token(),
        };
        assert(r@.servers =~= seq![seed_entry(default_upstream_text())]);
        r
    }
}

// ---------------------------------------------------------------------------
// Looking servers up
// ---------------------------------------------------------------------------

/// The index of the first server with id `id` in `s`, or -1.
pub open spec fn find_entry(s: Seq<ServerEntryView>, id: Seq<char>) -> int
    decreases s.len(),
{
    if s.len() == 0 {
        -1
    } else if s[0].id == id {
        0
    } else {
        let r = find_entry(s.drop_first(), id);
        if r < 0 {
            -1
        } else {
            r + 1
        }
    }
}

pub proof fn lemma_find_entry(s: Seq<ServerEntryView>, id: Seq<char>)
    ensures
        -1 <= find_entry(s, id) < s.len(),
        find_entry(s, id) >= 0 ==> s[find_entry(s, id)].id == id,
        forall|j: int|
            0 <= j < s.len() && (find_entry(s, id) < 0 || j < find_entry(s, id)) ==> s[j].id != id,
    decreases s.len(),
{
    if s.len() > 0 && s[0].id != id {
        lemma_find_entry(s.drop_first(), id);
        assert forall|j: int|
            0 <= j < s.len() && (find_entry(s, id) < 0 || j < find_entry(s, id)) implies s[j].id
            != id by {
            if j > 0 {
                assert(s[j] == s.drop_first()[j - 1]);
            }
        }
    }
}

/// `find_entry` gives the first index that holds `id`.
pub proof fn lemma_find_entry_is(s: Seq<ServerEntryView>, id: Seq<char>, k: int)
    requires
        0 <= k < s.len(),
        s[k].id == id,
        forall|j: int| 0 <= j < k ==> s[j].id != id,
    ensures
        find_entry(s, id) == k,
{
    lemma_find_entry(s, id);
}

/// Whether some server has id `id`.
pub open spec fn has_entry(s: Seq<ServerEntryView>, id: Seq<char>) -> bool {
    find_entry(s, id) >= 0
}

impl AdminConfig {
    /// The index of the first server with id `id`.
    pub fn find_index(&self, id: &str) -> (r: Option<usize>)
        ensures
            match r {
                Some(k) => k as int == find_entry(self@.servers, id@) && k < self.servers.len(),
                None => find_entry(self@.servers, id@) == -1,
            },
    {
        proof {
            lemma_find_entry(self@.servers, id@);
        }
        let mut i: usize = 0;
        while i < self.servers.len()
            invariant
                i <= self.servers.len(),
                forall|j: int| 0 <= j < i ==> self@.servers[j].id != id@,
                -1 <= find_entry(self@.servers, id@) < self@.servers.len(),
                find_entry(self@.servers, id@) >= 0 ==> self@.servers[find_entry(
                    self@.servers,
                    id@,
                )].id == id@,
                forall|j: int|
                    0 <= j < self@.servers.len() && (find_entry(self@.servers, id@) < 0 || j
                        < find_entry(self@.servers, id@)) ==> self@.servers[j].id != id@,
            decreases self.servers.len() - i,
        {
            let same = crate::text::str_eq(self.servers[i].id.as_str(), id);
            assert(self@.servers[i as int] == self.servers@[i as int]@);
            if same {
                return Some(i);
            }
            i = i + 1;
        }
        None
    }

    /// The first server with id `id`.
    pub fn find_server(&self, id: &str) -> (r: Option<&ServerEntry>)
        ensures
            match r {
                Some(e) => find_entry(self@.servers, id@) >= 0 && e@ == self@.servers[find_entry(
                    self@.servers,
                    id@,
                )],
                None => find_entry(self@.servers, id@) == -1,
            },
    {
        match self.find_index(id) {
            Some(k) => Some(&self.servers[k]),
            None => None,
        }
    }
}

// ---------------------------------------------------------------------------
// Normal form
// ---------------------------------------------------------------------------

/// The configuration after `normalize`: an empty server list gets the seed
/// entry; a missing or dangling default becomes the first server; the
/// fallback upstream follows the default server; a blank hub token becomes
/// the default token.
pub open spec fn normalized(c: AdminConfigView) -> AdminConfigView {
    let servers = if c.servers.len() == 0 {
        seq![seed_entry(c.api_upstream)]
    } else {
        c.servers
    };
    let default_server = match c.default_server {
        Some(d) => if has_entry(servers, d) {
            Some(d)
        } else {
            Some(servers[0].id)
        },
        None => Some(servers[0].id),
    };
    let api_upstream = servers[find_entry(servers, default_server->0)].api_upstream;
    let hub_token = if trim(c.hub_token).len() == 0 {
        default_hub_token_text()
    } else {
        c.hub_token
    };
    AdminConfigView { servers, default_server, api_upstream, hub_token, ..c }
}

/// A configuration in normal form: at least one server, a default that
/// names one of them, the fallback upstream of that default server, and a
/// hub token that is not blank.
pub open spec fn is_normal(c: AdminConfigView) -> bool {
    &&& c.servers.len() > 0
    &&& c.default_server is Some
    &&& has_entry(c.servers, c.default_server->0)
    &&& c.api_upstream == c.servers[find_entry(c.servers, c.default_server->0)].api_upstream
    &&& trim(c.hub_token).len() > 0
}

impl AdminConfig {
    /// Brings the configuration into normal form (see `normalized`).
    pub fn normalize(&mut self)
        ensures
            final(self)@ == normalized(old(self)@),
    {
        let ghost c = old(self)@;
        if self.servers.len() == 0 {
            let seed = seed_server_entry(self.api_upstream.clone());
            self.servers.push(seed);
            assert(self@.servers =~= seq![seed_entry(c.api_upstream)]);
        }
        let ghost servers = self@.servers;
        assert(servers == normalized(c).servers);
        let keep = match &self.default_server {
            Some(d) => self.find_index(d.as_str()).is_some(),
            None => false,
        };
        if !keep {
            let first = self.servers[0].id.clone();
            assert(self@.servers[0] == self.servers@[0]@);
            self.default_server = Some(first);
        }
        assert(self@.default_server == normalized(c).default_server);
        let def = self.default_server.clone().unwrap();
        match self.find_index(def.as_str()) {
            Some(k) => {
                assert(self@.servers[k as int] == self.servers@[k as int]@);
                self.api_upstream = self.servers[k].api_upstream.clone();
            },
            None => {},
        }
        proof {
            lemma_find_entry(servers, self@.default_server->0);
        }
        let token = trim_str(self.hub_token.as_str());
        if token.as_str().unicode_len() == 0 {
            self.hub_token = default_hub_token();
        }
        assert(self@.servers =~= normalized(c).servers);
    }
}

/// `normalize` always gives a configuration in normal form.
pub proof fn normalized_is_normal(c: AdminConfigView)
    ensures
        is_normal(normalized(c)),
{
    let n = normalized(c);
    lemma_find_entry(n.servers, n.servers[0].id);
    lemma_find_entry_is(n.servers, n.servers[0].id, 0);
    lemma_find_entry(n.servers, n.default_server->0);
    if trim(c.hub_token).len() == 0 {
        lemma_default_token_not_blank();
    }
}

proof fn lemma_default_token_not_blank()
    ensures
        trim(default_hub_token_text()).len() > 0,
{
    reveal_strlit("change-me-hub-token");
    let s = default_hub_token_text();
    assert(!crate::text::is_ws(s[0]));
    crate::text::lemma_trim_start_fixed(s);
    assert(crate::text::trim_start(s) == s);
    crate::text::lemma_trim_end_keeps_start(s);
}

/// A configuration in normal form is left as it is by `normalize`, so
/// normalizing twice is the same as normalizing once.
pub proof fn normalize_keeps_normal(c: AdminConfigView)
    requires
        is_normal(c),
    ensures
        normalized(c) == c,
{
    assert(normalized(c) =~= c);
}

/// When no default is configured, or the configured one names no listed
/// server, the first listed server becomes the default and its upstream
/// the API upstream; the servers stay as they are.
pub proof fn missing_default_falls_back_to_first_server(c: AdminConfigView)
    requires
        c.servers.len() > 0,
        match c.default_server {
            Some(d) => forall|j: int| 0 <= j < c.servers.len() ==> c.servers[j].id != d,
            None => true,
        },
    ensures
        normalized(c).servers == c.servers,
        normalized(c).default_server == Some(c.servers[0].id),
        normalized(c).api_upstream == c.servers[0].api_upstream,
{
    if let Some(d) = c.default_server {
        lemma_find_entry(c.servers, d);
    }
    lemma_find_entry_is(c.servers, c.servers[0].id, 0);
}

/// A configured default that names a listed server stays the default, and
/// the API upstream is that of the first server listed under its id.
pub proof fn listed_default_is_kept(c: AdminConfigView, k: int)
    requires
        0 <= k < c.servers.len(),
        c.default_server == Some(c.servers[k].id),
        forall|j: int| 0 <= j < k ==> c.servers[j].id != c.servers[k].id,
    ensures
        normalized(c).servers == c.servers,
        normalized(c).default_server == c.default_server,
        normalized(c).api_upstream == c.servers[k].api_upstream,
{
    lemma_find_entry_is(c.servers, c.servers[k].id, k);
}

/// Normalizing a second time changes nothing.
pub proof fn normalize_idempotent(c: AdminConfigView)
    ensures
        normalized(normalized(c)) == normalized(c),
{
    normalized_is_normal(c);
    normalize_keeps_normal(normalized(c));
}

// ---------------------------------------------------------------------------
// Choosing the upstream of a request
// ---------------------------------------------------------------------------

/// Why no server could be chosen.
#[derive(Debug)]
pub enum ConfigError {
    /// A server id was asked for that is not registered.
    UnknownServer(String),
    /// No id was asked for and the configuration lists no server.
    NoServers,
    /// The configured default names no registered server.
    DefaultMissing,
}

/// The server that a request is routed to: the one named by a non-empty
/// `server_id`, else the default server, else the first server.
/// `Ok(k)` is the index of that server; `Err(e)` says why there is none.
pub open spec fn resolve_index(c: AdminConfigView, server_id: Option<Seq<char>>) -> Result<
    int,
    ConfigError,
> {
    match server_id {
        Some(id) if id.len() > 0 => if has_entry(c.servers, id) {
            Ok(find_entry(c.servers, id))
        } else {
            Err(ConfigError::UnknownServer(arbitrary()))
        },
        _ => {
            let def = match c.default_server {
                Some(d) => Some(d),
                None => if c.servers.len() > 0 {
                    Some(c.servers[0].id)
                } else {
                    None
                },
            };
            match def {
                None => Err(ConfigError::NoServers),
                Some(d) => if has_entry(c.servers, d) {
                    Ok(find_entry(c.servers, d))
                } else {
                    Err(ConfigError::DefaultMissing)
                },
            }
        },
    }
}

/// The outcome of a lookup up to the id text carried by `UnknownServer`.
pub open spec fn same_outcome<T>(r: Result<T, ConfigError>, s: Result<int, ConfigError>) -> bool {
    match (r, s) {
        (Ok(_), Ok(_)) => true,
        (Err(ConfigError::UnknownServer(_)), Err(ConfigError::UnknownServer(_))) => true,
        (Err(ConfigError::NoServers), Err(ConfigError::NoServers)) => true,
        (Err(ConfigError::DefaultMissing), Err(ConfigError::DefaultMissing)) => true,
        _ => false,
    }
}

pub open spec fn opt_str_ref(o: Option<&str>) -> Option<Seq<char>> {
    match o {
        Some(s) => Some(s@),
        None => None,
    }
}

impl ConfigError {
    /// The error text shown to the user.
    pub fn message(&self) -> (r: String)
        ensures
            match self {
                ConfigError::UnknownServer(id) => r@ == "unknown server id: "@ + id@,
                ConfigError::NoServers => r@ == "no servers configured"@,
                ConfigError::DefaultMissing => r@ == "default server missing"@,
            },
    {
        match self {
            ConfigError::UnknownServer(id) => {
                let mut m = "unknown server id: ".to_owned();
                m.append(id.as_str());
                m
            },
            ConfigError::NoServers => "no servers configured".to_owned(),
            ConfigError::DefaultMissing => "default server missing".to_owned(),
        }
    }
}

impl AdminConfig {
    /// The server entry that a request for `server_id` is routed to.
    pub fn resolve_upstream(&self, server_id: Option<&str>) -> (r: Result<&ServerEntry, ConfigError>)
        ensures
            same_outcome(r, resolve_index(self@, opt_str_ref(server_id))),
            r matches Ok(e) ==> e@ == self@.servers[resolve_index(
                self@,
                opt_str_ref(server_id),
            )->Ok_0],
            r matches Err(ConfigError::UnknownServer(id)) ==> id@ == server_id->0@,
    {
        proof {
            lemma_find_entry(self@.servers, server_id->0@);
        }
        if let Some(id) = server_id {
            if id.unicode_len() > 0 {
                return match self.find_server(id) {
                    Some(e) => Ok(e),
                    None => Err(ConfigError::UnknownServer(id.to_owned())),
                };
            }
        }
        let def: Option<String> = match &self.default_server {
            Some(d) => Some(d.clone()),
            None => if self.servers.len() > 0 {
                assert(self@.servers[0] == self.servers@[0]@);
                Some(self.servers[0].id.clone())
            } else {
                None
            },
        };
        match def {
            None => Err(ConfigError::NoServers),
            Some(d) => match self.find_server(d.as_str()) {
                Some(e) => Ok(e),
                None => Err(ConfigError::DefaultMissing),
            },
        }
    }

    /// `listen:listen_port`, the panel's bind address.
    pub fn bind_addr(&self) -> (r: String)
        ensures
            r@ == self@.listen + seq![':'] + decimal(self.listen_port as nat),
    {
        host_port(self.listen.as_str(), self.listen_port)
    }

    /// `hub_listen:hub_control_port`, the hub's control listener.
    pub fn hub_control_addr(&self) -> (r: String)
        ensures
            r@ == self@.hub_listen + seq![':'] + decimal(self.hub_control_port as nat),
    {
        host_port(self.hub_listen.as_str(), self.hub_control_port)
    }

    /// `hub_listen:hub_data_port`, the hub's relay listener.
    pub fn hub_data_addr(&self) -> (r: String)
        ensures
            r@ == self@.hub_listen + seq![':'] + decimal(self.hub_data_port as nat),
    {
        host_port(self.hub_listen.as_str(), self.hub_data_port)
    }
}

/// `host:port`.
pub fn host_port(host: &str, port: u16) -> (r: String)
    ensures
        r@ == host@ + seq![':'] + decimal(port as nat),
{
    let mut v = chars_of(host);
    v.push(':');
    push_decimal(&mut v, port as u64);
    string_from(v.as_slice())
}

// ---------------------------------------------------------------------------
// Base URLs
// ---------------------------------------------------------------------------

/// An upstream without surrounding whitespace and trailing slashes.
pub open spec fn upstream_core(up: Seq<char>) -> Seq<char> {
    trim_end_char(trim(up), '/')
}

/// The HTTP base URL of an upstream: kept when it names `http://` or
/// `https://`, else `http://` is put in front.
pub open spec fn http_base_of(up: Seq<char>) -> Seq<char> {
    let u = upstream_core(up);
    if has_prefix(u, "http://"@) || has_prefix(u, "https://"@) {
        u
    } else {
        "http://"@ + u
    }
}

/// The WebSocket base URL of an upstream: `https` becomes `wss`, `http`
/// becomes `ws`, `ws`/`wss` stay, and a bare host gets `ws://`.
pub open spec fn ws_base_of(up: Seq<char>) -> Seq<char> {
    let u = upstream_core(up);
    if has_prefix(u, "https://"@) {
        "wss://"@ + u.skip("https://"@.len() as int)
    } else if has_prefix(u, "http://"@) {
        "ws://"@ + u.skip("http://"@.len() as int)
    } else if has_prefix(u, "wss://"@) {
        "wss://"@ + u.skip("wss://"@.len() as int)
    } else if has_prefix(u, "ws://"@) {
        "ws://"@ + u.skip("ws://"@.len() as int)
    } else {
        "ws://"@ + u
    }
}

fn core_chars(upstream: &str) -> (r: Vec<char>)
    ensures
        r@ == upstream_core(upstream@),
{
    let cs = chars_of(upstream);
    let t = trim_chars(cs.as_slice());
    trim_end_char_chars(t.as_slice(), '/')
}

/// `scheme` followed by `u` without its first `skip` characters.
fn with_scheme(scheme: &str, u: &[char], skip: usize) -> (r: String)
    requires
        skip <= u.len(),
    ensures
        r@ == scheme@ + u@.skip(skip as int),
{
    let mut v = chars_of(scheme);
    let rest = slice_vec(u, skip, u.len());
    extend_chars(&mut v, rest.as_slice());
    assert(rest@ =~= u@.skip(skip as int));
    string_from(v.as_slice())
}

/// The HTTP base URL of an upstream address.
pub fn http_base(upstream: &str) -> (r: String)
    ensures
        r@ == http_base_of(upstream@),
{
    let u = core_chars(upstream);
    let http = chars_of("http://");
    let https = chars_of("https://");
    if starts_with_chars(u.as_slice(), http.as_slice()) || starts_with_chars(
        u.as_slice(),
        https.as_slice(),
    ) {
        string_from(u.as_slice())
    } else {
        let r = with_scheme("http://", u.as_slice(), 0);
        assert(u@.skip(0) =~= u@);
        r
    }
}

/// The WebSocket base URL of an upstream address.
pub fn ws_base(upstream: &str) -> (r: String)
    ensures
        r@ == ws_base_of(upstream@),
{
    let u = core_chars(upstream);
    let https = chars_of("https://");
    let http = chars_of("http://");
    let wss = chars_of("wss://");
    let ws = chars_of("ws://");
    if starts_with_chars(u.as_slice(), https.as_slice()) {
        with_scheme("wss://", u.as_slice(), https.len())
    } else if starts_with_chars(u.as_slice(), http.as_slice()) {
        with_scheme("ws://", u.as_slice(), http.len())
    } else if starts_with_chars(u.as_slice(), wss.as_slice()) {
        with_scheme("wss://", u.as_slice(), wss.len())
    } else if starts_with_chars(u.as_slice(), ws.as_slice()) {
        with_scheme("ws://", u.as_slice(), ws.len())
    } else {
        let r = with_scheme("ws://", u.as_slice(), 0);
        assert(u@.skip(0) =~= u@);
        r
    }
}

} // verus!
